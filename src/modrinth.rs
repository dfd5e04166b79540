//! The records of the collection service, and the choice of the file to
//! download for each project of a collection.
use vstd::prelude::*;
use crate::order::{
    lemma_seq_lt_irreflexive, lemma_seq_lt_total, lemma_seq_lt_transitive, ranked_before, seq_lt,
    str_lt,
};
use crate::text::{chars_of, trim, trim_range};

verus! {

/// A collection: a named list of project identifiers.
pub struct Collection {
    pub id: String,
    pub user: String,
    pub name: String,
    pub description: Option<String>,
    pub projects: Vec<String>,
}

/// One version of a project.
pub struct ProjectVersion {
    pub id: String,
    pub project_id: String,
    pub author_id: String,
    pub name: String,
    pub version_number: String,
    pub featured: bool,
    pub version_type: String,
    pub status: String,
    pub downloads: u64,
    pub changelog: Option<String>,
    pub changelog_url: Option<String>,
    pub date_published: String,
    pub requested_status: Option<String>,
    pub game_versions: Vec<String>,
    pub loaders: Vec<String>,
    pub files: Vec<VersionFile>,
    pub dependencies: Vec<Dependency>,
}

/// A file attached to a version.
pub struct VersionFile {
    pub url: String,
    pub filename: String,
    pub primary: bool,
    pub size: u64,
    pub file_type: Option<String>,
    pub hashes: Hashes,
}

/// The digests of a version file.
pub struct Hashes {
    pub sha1: String,
    pub sha512: String,
}

/// A dependency of a version.
pub struct Dependency {
    pub version_id: Option<String>,
    pub project_id: String,
    pub file_name: Option<String>,
    pub dependency_type: String,
}

/// A project's identity and title.
pub struct Project {
    pub id: String,
    pub title: String,
    pub slug: String,
}

/// A project resolved to one downloadable file: the target of a download.
pub struct ModrinthProject {
    pub id: String,
    pub name: String,
    pub download_link: String,
}

impl Clone for ModrinthProject {
    fn clone(&self) -> (r: ModrinthProject)
        ensures
            r.id@ == self.id@,
            r.name@ == self.name@,
            r.download_link@ == self.download_link@,
    {
        ModrinthProject {
            id: self.id.clone(),
            name: self.name.clone(),
            download_link: self.download_link.clone(),
        }
    }
}

/// Why a collection input names no collection.
#[derive(Clone, Copy, PartialEq, Eq, Structural, Debug)]
pub enum CollectionIdError {
    /// The input is a collection link with nothing after the prefix.
    MissingId,
    /// The input is empty or white space.
    InvalidInput,
}

pub open spec fn collection_prefix() -> Seq<char> {
    "https://modrinth.com/collection/"@
}

pub open spec fn starts_with(s: Seq<char>, p: Seq<char>) -> bool {
    p.len() <= s.len() && s.subrange(0, p.len() as int) == p
}

/// The collection identifier that `input` names: what follows the collection
/// link prefix, or else the whole input when it is not blank.
pub open spec fn collection_id_of(input: Seq<char>) -> Result<Seq<char>, CollectionIdError> {
    let p = collection_prefix();
    if starts_with(input, p) {
        if input.len() == p.len() {
            Err(CollectionIdError::MissingId)
        } else {
            Ok(input.subrange(p.len() as int, input.len() as int))
        }
    } else if trim(input).len() > 0 {
        Ok(input)
    } else {
        Err(CollectionIdError::InvalidInput)
    }
}

/// The collection identifier in `input`, a collection link or an identifier.
pub fn extract_collection_id(input: String) -> (r: Result<String, CollectionIdError>)
    ensures
        match (r, collection_id_of(input@)) {
            (Ok(id), Ok(want)) => id@ == want,
            (Err(e), Err(want)) => e == want,
            _ => false,
        },
{
    let prefix = "https://modrinth.com/collection/";
    let p = chars_of(prefix);
    let s = chars_of(input.as_str());
    let n = s.len();
    let k = p.len();
    let mut starts = k <= n;
    if starts {
        let mut i: usize = 0;
        while i < k
            invariant
                k <= n,
                i <= k,
                p@ == prefix@,
                s@ == input@,
                k == p@.len(),
                n == s@.len(),
                starts == forall|j: int| 0 <= j < i ==> s@[j] == p@[j],
            decreases k - i,
        {
            if s[i] != p[i] {
                starts = false;
            }
            i = i + 1;
        }
        assert(starts ==> input@.subrange(0, k as int) =~= prefix@);
        if !starts {
            assert(input@.subrange(0, k as int) != prefix@) by {
                let j = choose|j: int| 0 <= j < k && s@[j] != p@[j];
                assert(input@.subrange(0, k as int)[j] != prefix@[j]);
            }
        }
    }
    if starts {
        if n == k {
            Err(CollectionIdError::MissingId)
        } else {
            Ok(String::from_str(input.as_str().substring_char(k, n)))
        }
    } else {
        let (a, b) = trim_range(&s, 0, n);
        assert(s@.subrange(0, n as int) =~= input@);
        if a < b {
            Ok(input)
        } else {
            Err(CollectionIdError::InvalidInput)
        }
    }
}

/// The version at `i` of `vs` is ranked before the one at `j`.
pub open spec fn version_before(vs: Seq<ProjectVersion>, i: int, j: int) -> bool {
    ranked_before(vs[i].featured, vs[i].date_published@, vs[j].featured, vs[j].date_published@)
}

/// The version at `i` is the latest of `vs`: none is ranked after it, and
/// every one before it is ranked before it, so that it is the first of the latest.
pub open spec fn is_latest(vs: Seq<ProjectVersion>, i: int) -> bool {
    &&& 0 <= i < vs.len()
    &&& forall|j: int| 0 <= j < vs.len() ==> !version_before(vs, i, j)
    &&& forall|j: int| 0 <= j < i ==> version_before(vs, j, i)
}

proof fn lemma_ranked_transitive(vs: Seq<ProjectVersion>, a: int, b: int, c: int)
    requires
        0 <= a < vs.len(),
        0 <= b < vs.len(),
        0 <= c < vs.len(),
        version_before(vs, a, b),
        version_before(vs, b, c),
    ensures
        version_before(vs, a, c),
{
    if vs[a].featured == vs[b].featured && vs[b].featured == vs[c].featured {
        lemma_seq_lt_transitive(vs[a].date_published@, vs[b].date_published@, vs[c].date_published@);
    }
}

proof fn lemma_ranked_total(vs: Seq<ProjectVersion>, a: int, b: int)
    requires
        0 <= a < vs.len(),
        0 <= b < vs.len(),
        !version_before(vs, a, b),
    ensures
        version_before(vs, b, a) || (vs[a].featured == vs[b].featured
            && vs[a].date_published@ == vs[b].date_published@),
{
    lemma_seq_lt_total(vs[a].date_published@, vs[b].date_published@);
}

proof fn lemma_ranked_asymmetric(vs: Seq<ProjectVersion>, a: int, b: int)
    requires
        0 <= a < vs.len(),
        0 <= b < vs.len(),
        version_before(vs, a, b),
    ensures
        !version_before(vs, b, a),
{
    if vs[a].featured == vs[b].featured {
        if seq_lt(vs[b].date_published@, vs[a].date_published@) {
            lemma_seq_lt_transitive(vs[a].date_published@, vs[b].date_published@, vs[a].date_published@);
            lemma_seq_lt_irreflexive(vs[a].date_published@);
        }
    }
}

/// The index of the latest version, by featured flag and then publication
/// date, the first of equals; `None` for no versions.
pub fn latest_version(versions: &Vec<ProjectVersion>) -> (r: Option<usize>)
    ensures
        match r {
            Some(i) => is_latest(versions@, i as int),
            None => versions@.len() == 0,
        },
{
    let n = versions.len();
    if n == 0 {
        return None;
    }
    let ghost vs = versions@;
    let mut best: usize = 0;
    let mut i: usize = 1;
    proof {
        lemma_seq_lt_irreflexive(vs[0].date_published@);
    }
    while i < n
        invariant
            vs == versions@,
            n == vs.len(),
            best < i <= n,
            forall|j: int| 0 <= j < i ==> !version_before(vs, best as int, j),
            forall|j: int| 0 <= j < best ==> version_before(vs, j, best as int),
        decreases n - i,
    {
        let vb = &versions[best];
        let vi = &versions[i];
        let after = (!vb.featured && vi.featured) || (vb.featured == vi.featured && str_lt(
            vb.date_published.as_str(),
            vi.date_published.as_str(),
        ));
        assert(after == version_before(vs, best as int, i as int));
        if after {
            proof {
                let ob = best as int;
                assert forall|j: int| 0 <= j < i implies version_before(vs, j, i as int) by {
                    if j < ob {
                        lemma_ranked_transitive(vs, j, ob, i as int);
                    } else {
                        lemma_ranked_total(vs, ob, j);
                        if version_before(vs, j, ob) {
                            lemma_ranked_transitive(vs, j, ob, i as int);
                        }
                    }
                }
                assert forall|j: int| 0 <= j < i + 1 implies !version_before(vs, i as int, j) by {
                    if j < i {
                        lemma_ranked_asymmetric(vs, j, i as int);
                    } else {
                        lemma_seq_lt_irreflexive(vs[j].date_published@);
                    }
                }
            }
            best = i;
        }
        i = i + 1;
    }
    Some(best)
}

/// The index of the first primary file of `fs` from `i` on, if any.
pub open spec fn primary_from(fs: Seq<VersionFile>, i: int) -> Option<int>
    decreases fs.len() - i,
{
    if i < 0 || i >= fs.len() {
        None
    } else if fs[i].primary {
        Some(i)
    } else {
        primary_from(fs, i + 1)
    }
}

/// The file to download among `fs`: the first primary one, else the first one.
pub open spec fn chosen_file(fs: Seq<VersionFile>) -> Option<int> {
    match primary_from(fs, 0) {
        Some(i) => Some(i),
        None => if fs.len() > 0 {
            Some(0)
        } else {
            None
        },
    }
}

/// The index of the file to download among `files`: the first primary one,
/// else the first one; `None` for no files.
pub fn pick_file(files: &Vec<VersionFile>) -> (r: Option<usize>)
    ensures
        match r {
            Some(i) => chosen_file(files@) == Some(i as int) && i < files@.len(),
            None => chosen_file(files@) is None,
        },
{
    let mut i: usize = 0;
    while i < files.len()
        invariant
            i <= files@.len(),
            primary_from(files@, 0) == primary_from(files@, i as int),
        decreases files@.len() - i,
    {
        if files[i].primary {
            return Some(i);
        }
        i = i + 1;
    }
    if files.len() > 0 {
        Some(0)
    } else {
        None
    }
}

/// `p` is the target for project `mod_id` with the versions `vs`: the chosen
/// file of the latest version, under the project's identifier.
pub open spec fn resolves_to(mod_id: Seq<char>, vs: Seq<ProjectVersion>, p: ModrinthProject) -> bool {
    exists|i: int, k: int|
        #![trigger vs[i].files@[k]]
        is_latest(vs, i) && chosen_file(vs[i].files@) == Some(k) && p.id@ == mod_id
            && p.name@ == vs[i].files@[k].filename@ && p.download_link@ == vs[i].files@[k].url@
}

/// The versions `vs` give no file: there is none, or the latest has no file.
pub open spec fn unresolvable(vs: Seq<ProjectVersion>) -> bool {
    vs.len() == 0 || exists|i: int| is_latest(vs, i) && chosen_file(#[trigger] vs[i].files@) is None
}

/// The target for project `mod_id` given its versions `versions`: the chosen
/// file of the latest version, under the project's identifier; `None` when
/// there is no version or the latest has no file.
pub fn resolve_project(mod_id: String, versions: &Vec<ProjectVersion>) -> (r: Option<
    ModrinthProject,
>)
    ensures
        match r {
            Some(p) => resolves_to(mod_id@, versions@, p),
            None => unresolvable(versions@),
        },
{
    match latest_version(versions) {
        None => None,
        Some(i) => match pick_file(&versions[i].files) {
            None => None,
            Some(k) => {
                let f = &versions[i].files[k];
                let p = ModrinthProject {
                    id: mod_id,
                    name: f.filename.clone(),
                    download_link: f.url.clone(),
                };
                assert(versions@[i as int].files@[k as int] == *f);
                Some(p)
            },
        },
    }
}

/// Records what became of project `mod_id`: `versions` is `None` when the
/// service did not list its versions. A project whose versions give a file is
/// added to `links`; any other is added to `failed`.
pub fn record_resolution(
    links: &mut Vec<ModrinthProject>,
    failed: &mut Vec<String>,
    mod_id: String,
    versions: Option<&Vec<ProjectVersion>>,
)
    ensures
        match versions {
            Some(vs) => if unresolvable(vs@) {
                final(links)@ == old(links)@ && final(failed)@ == old(failed)@.push(mod_id)
            } else {
                &&& final(failed)@ == old(failed)@
                &&& final(links)@.len() == old(links)@.len() + 1
                &&& final(links)@.drop_last() == old(links)@
                &&& resolves_to(mod_id@, vs@, final(links)@.last())
            },
            None => final(links)@ == old(links)@ && final(failed)@ == old(failed)@.push(mod_id),
        },
{
    match versions {
        None => failed.push(mod_id),
        Some(vs) => {
            let ghost id = mod_id;
            match resolve_project(mod_id.clone(), vs) {
                Some(p) => {
                    proof {
                        lemma_resolution_exclusive(id@, vs@, p);
                    }
                    links.push(p);
                    assert(links@.drop_last() =~= old(links)@);
                },
                None => failed.push(mod_id),
            }
        },
    }
}

/// At most one version is the latest.
proof fn lemma_latest_unique(vs: Seq<ProjectVersion>, i: int, j: int)
    requires
        is_latest(vs, i),
        is_latest(vs, j),
    ensures
        i == j,
{
    if i < j {
        assert(version_before(vs, i, j));
    } else if j < i {
        assert(version_before(vs, j, i));
    }
}

/// Versions that give a target are not without a file.
proof fn lemma_resolution_exclusive(mod_id: Seq<char>, vs: Seq<ProjectVersion>, p: ModrinthProject)
    requires
        resolves_to(mod_id, vs, p),
    ensures
        !unresolvable(vs),
{
    let (i, k) = choose|i: int, k: int|
        #![trigger vs[i].files@[k]]
        is_latest(vs, i) && chosen_file(vs[i].files@) == Some(k) && p.id@ == mod_id
            && p.name@ == vs[i].files@[k].filename@ && p.download_link@ == vs[i].files@[k].url@;
    assert forall|j: int| is_latest(vs, j) implies !(chosen_file(#[trigger] vs[j].files@) is None) by {
        lemma_latest_unique(vs, i, j);
    }
}

/// Whether an HTTP status code is a success (2xx).
pub fn is_success_status(code: u16) -> (r: bool)
    ensures
        r == (200 <= code && code < 300),
{
    200 <= code && code < 300
}

/// The address of the collection `id` in the service.
pub fn collection_url(id: &str) -> (r: String)
    ensures
        r@ == "https://api.modrinth.com/v3/collection/"@ + id@,
{
    String::from_str("https://api.modrinth.com/v3/collection/").concat(id)
}

/// The address of the project `mod_id` in the service.
pub fn project_url(mod_id: &str) -> (r: String)
    ensures
        r@ == "https://api.modrinth.com/v2/project/"@ + mod_id@,
{
    String::from_str("https://api.modrinth.com/v2/project/").concat(mod_id)
}

/// The address that lists the versions of project `mod_id` for the loader
/// `loader` and the game version `version`.
pub fn versions_url(mod_id: &str, loader: &str, version: &str) -> (r: String)
    ensures
        r@ == "https://api.modrinth.com/v2/project/"@ + mod_id@ + "/version?loaders=[\""@ + loader@
            + "\"]&game_versions=[\""@ + version@ + "\"]"@,
{
    String::from_str("https://api.modrinth.com/v2/project/").concat(mod_id).concat(
        "/version?loaders=[\"",
    ).concat(loader).concat("\"]&game_versions=[\"").concat(version).concat("\"]")
}

} // verus!
