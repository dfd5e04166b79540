//! Resolving the projects of a collection to version files, and downloading
//! them with a bounded number of transfers in flight.

mod order;
mod text;

pub mod coordinator;
pub mod filename;
pub mod log;
pub mod modrinth;
pub mod packwiz;
pub mod version;

pub use coordinator::{BatchResult, Coordinator, DownloadOutcome, FailReason, Phase, Step, CONCURRENCY};
pub use filename::{derive_filename, disposition_filename, filename_from_parts};
pub use log::ModrinthLog;
pub use modrinth::{
    collection_url, extract_collection_id, is_success_status, latest_version, pick_file,
    project_url, record_resolution, resolve_project, versions_url, Collection, CollectionIdError, Dependency,
    Hashes, ModrinthProject, Project, ProjectVersion, VersionFile,
};
pub use packwiz::find_binary_entry;
pub use version::check_game_version;
