//! Locating the packaging tool's executable inside its release archive.
use vstd::prelude::*;
use crate::text::chars_of;

verus! {

pub open spec fn ends_with(s: Seq<char>, t: Seq<char>) -> bool {
    t.len() <= s.len() && s.subrange(s.len() - t.len(), s.len() as int) == t
}

/// The first entry from `i` on whose name ends with `bin`.
pub open spec fn entry_from(names: Seq<Option<String>>, bin: Seq<char>, i: int) -> Option<int>
    decreases names.len() - i,
{
    if i < 0 || i >= names.len() {
        None
    } else if names[i] matches Some(n) && ends_with(n@, bin) {
        Some(i)
    } else {
        entry_from(names, bin, i + 1)
    }
}

fn str_ends_with(s: &str, t: &str) -> (r: bool)
    ensures
        r == ends_with(s@, t@),
{
    let a = chars_of(s);
    let b = chars_of(t);
    let n = a.len();
    let k = b.len();
    if k > n {
        return false;
    }
    let mut i: usize = 0;
    while i < k
        invariant
            k <= n,
            i <= k,
            a@ == s@,
            b@ == t@,
            n == a@.len(),
            k == b@.len(),
            forall|j: int| 0 <= j < i ==> a@[n - k + j] == b@[j],
        decreases k - i,
    {
        if a[n - k + i] != b[i] {
            assert(s@.subrange(n - k, n as int)[i as int] != t@[i as int]);
            return false;
        }
        i = i + 1;
    }
    assert(s@.subrange(n - k, n as int) =~= t@);
    true
}

/// The index of the first archive entry whose name ends with `bin`; entries
/// whose name is not text are `None` and never match.
pub fn find_binary_entry(names: &Vec<Option<String>>, bin: &str) -> (r: Option<usize>)
    ensures
        match r {
            Some(i) => entry_from(names@, bin@, 0) == Some(i as int),
            None => entry_from(names@, bin@, 0) is None,
        },
{
    let mut i: usize = 0;
    while i < names.len()
        invariant
            i <= names@.len(),
            entry_from(names@, bin@, 0) == entry_from(names@, bin@, i as int),
        decreases names@.len() - i,
    {
        match &names[i] {
            Some(n) => {
                if str_ends_with(n.as_str(), bin) {
                    return Some(i);
                }
            },
            None => {},
        }
        i = i + 1;
    }
    None
}

} // verus!
