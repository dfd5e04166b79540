//! The record of a run that is written beside the downloads.
use vstd::prelude::*;
use crate::modrinth::ModrinthProject;

verus! {

/// The projects that were resolved, their identifiers, and the identifiers
/// for which no file was found.
pub struct ModrinthLog {
    pub ids: Vec<String>,
    pub projects: Vec<ModrinthProject>,
    pub failed_ids: Vec<String>,
}

impl ModrinthLog {
    /// The record of the resolved projects `links` and the unresolved identifiers `failed`.
    pub fn new(links: Vec<ModrinthProject>, failed: Vec<String>) -> (r: ModrinthLog)
        ensures
            r.ids@.len() == links@.len(),
            forall|i: int| 0 <= i < links@.len() ==> #[trigger] r.ids@[i]@ == links@[i].id@,
            r.projects@ == links@,
            r.failed_ids@ == failed@,
    {
        let mut ids: Vec<String> = Vec::new();
        let mut i: usize = 0;
        while i < links.len()
            invariant
                i <= links@.len(),
                ids@.len() == i,
                forall|j: int| 0 <= j < i ==> #[trigger] ids@[j]@ == links@[j].id@,
            decreases links@.len() - i,
        {
            ids.push(links[i].id.clone());
            i = i + 1;
        }
        ModrinthLog { ids, projects: links, failed_ids: failed }
    }
}

} // verus!
