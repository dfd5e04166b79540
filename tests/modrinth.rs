use modrinth_downloader::{
    check_game_version, collection_url, extract_collection_id, find_binary_entry,
    is_success_status, latest_version, pick_file, project_url, record_resolution, resolve_project, versions_url,
    CollectionIdError, Hashes, ModrinthLog, ModrinthProject, ProjectVersion, VersionFile,
};

fn file(name: &str, primary: bool) -> VersionFile {
    VersionFile {
        url: format!("https://cdn/{}", name),
        filename: name.to_string(),
        primary,
        size: 10,
        file_type: None,
        hashes: Hashes { sha1: String::new(), sha512: String::new() },
    }
}

fn version(id: &str, featured: bool, date: &str, files: Vec<VersionFile>) -> ProjectVersion {
    ProjectVersion {
        id: id.to_string(),
        project_id: "p".to_string(),
        author_id: "a".to_string(),
        name: id.to_string(),
        version_number: "1".to_string(),
        featured,
        version_type: "release".to_string(),
        status: "listed".to_string(),
        downloads: 0,
        changelog: None,
        changelog_url: None,
        date_published: date.to_string(),
        requested_status: None,
        game_versions: vec![],
        loaders: vec![],
        files,
        dependencies: vec![],
    }
}

#[test]
fn collection_id_from_link() {
    let r = extract_collection_id("https://modrinth.com/collection/abc123".to_string());
    assert_eq!(r.ok(), Some("abc123".to_string()));
}

#[test]
fn collection_id_as_given() {
    let r = extract_collection_id("XyZ".to_string());
    assert_eq!(r.ok(), Some("XyZ".to_string()));
}

#[test]
fn collection_link_without_id() {
    let r = extract_collection_id("https://modrinth.com/collection/".to_string());
    assert!(matches!(r, Err(CollectionIdError::MissingId)));
}

#[test]
fn blank_collection_input() {
    assert!(matches!(extract_collection_id("  \t".to_string()), Err(CollectionIdError::InvalidInput)));
    assert!(matches!(extract_collection_id(String::new()), Err(CollectionIdError::InvalidInput)));
}

#[test]
fn featured_beats_newer() {
    let vs = vec![
        version("a", false, "2024-05-01T00:00:00Z", vec![file("a.jar", true)]),
        version("b", true, "2023-01-01T00:00:00Z", vec![file("b.jar", true)]),
        version("c", false, "2025-01-01T00:00:00Z", vec![file("c.jar", true)]),
    ];
    assert_eq!(latest_version(&vs), Some(1));
}

#[test]
fn newest_among_equals_and_first_on_ties() {
    let vs = vec![
        version("a", false, "2024-05-01", vec![]),
        version("b", false, "2024-06-01", vec![]),
        version("c", false, "2024-06-01", vec![]),
    ];
    assert_eq!(latest_version(&vs), Some(1));
    assert_eq!(latest_version(&Vec::new()), None);
}

#[test]
fn primary_file_first_else_first_file() {
    assert_eq!(pick_file(&vec![file("a", false), file("b", true), file("c", true)]), Some(1));
    assert_eq!(pick_file(&vec![file("a", false), file("b", false)]), Some(0));
    assert_eq!(pick_file(&Vec::new()), None);
}

#[test]
fn resolves_to_chosen_file() {
    let vs = vec![
        version("a", false, "2024-01-01", vec![file("old.jar", true)]),
        version("b", false, "2024-02-01", vec![file("src.jar", false), file("new.jar", true)]),
    ];
    let p = resolve_project("proj".to_string(), &vs).unwrap();
    assert_eq!(p.id, "proj");
    assert_eq!(p.name, "new.jar");
    assert_eq!(p.download_link, "https://cdn/new.jar");
}

#[test]
fn latest_without_files_resolves_to_nothing() {
    let vs = vec![
        version("a", false, "2024-01-01", vec![file("old.jar", true)]),
        version("b", false, "2024-02-01", vec![]),
    ];
    assert!(resolve_project("proj".to_string(), &vs).is_none());
    assert!(resolve_project("proj".to_string(), &Vec::new()).is_none());
}

#[test]
fn service_addresses() {
    assert_eq!(collection_url("abc"), "https://api.modrinth.com/v3/collection/abc");
    assert_eq!(project_url("sodium"), "https://api.modrinth.com/v2/project/sodium");
    assert_eq!(
        versions_url("sodium", "fabric", "1.21.1"),
        "https://api.modrinth.com/v2/project/sodium/version?loaders=[\"fabric\"]&game_versions=[\"1.21.1\"]"
    );
}

#[test]
fn success_statuses() {
    assert!(is_success_status(200));
    assert!(is_success_status(299));
    assert!(!is_success_status(199));
    assert!(!is_success_status(300));
    assert!(!is_success_status(404));
}

#[test]
fn game_versions() {
    assert!(check_game_version("1.21.1").is_ok());
    assert!(check_game_version("1.20").is_ok());
    assert!(check_game_version("24w31a").is_ok());
    let e = check_game_version("2.0").unwrap_err();
    assert_eq!(e, "Please enter a valid Minecraft version (e.g., 1.21.1 or 24w31a)");
    assert!(check_game_version("1.21.1 ").is_err());
}

#[test]
fn log_lists_ids_of_projects() {
    let links = vec![
        ModrinthProject { id: "a".to_string(), name: "a.jar".to_string(), download_link: "u1".to_string() },
        ModrinthProject { id: "b".to_string(), name: "b.jar".to_string(), download_link: "u2".to_string() },
    ];
    let log = ModrinthLog::new(links, vec!["c".to_string()]);
    assert_eq!(log.ids, vec!["a", "b"]);
    assert_eq!(log.projects.len(), 2);
    assert_eq!(log.projects[1].name, "b.jar");
    assert_eq!(log.failed_ids, vec!["c"]);
}

#[test]
fn binary_entry_by_suffix() {
    let names = vec![None, Some("README.md".to_string()), Some("bin/packwiz".to_string()), Some("packwiz".to_string())];
    assert_eq!(find_binary_entry(&names, "packwiz"), Some(2));
    assert_eq!(find_binary_entry(&names, "packwiz.exe"), None);
}

#[test]
fn resolutions_are_recorded_once() {
    let mut links = Vec::new();
    let mut failed = Vec::new();
    let good = vec![version("a", false, "2024-01-01", vec![file("a.jar", false)])];
    let empty: Vec<ProjectVersion> = Vec::new();
    record_resolution(&mut links, &mut failed, "alpha".to_string(), Some(&good));
    record_resolution(&mut links, &mut failed, "beta".to_string(), None);
    record_resolution(&mut links, &mut failed, "gamma".to_string(), Some(&empty));
    assert_eq!(links.len(), 1);
    assert_eq!(links[0].id, "alpha");
    assert_eq!(links[0].name, "a.jar");
    assert_eq!(failed, vec!["beta", "gamma"]);
}
