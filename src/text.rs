use vstd::prelude::*;

verus! {

/// Unicode White_Space, the set that `char::is_whitespace` and `str::trim` use.
pub open spec fn is_white(c: char) -> bool {
    let u = c as u32;
    (0x9 <= u && u <= 0xD) || u == 0x20 || u == 0x85 || u == 0xA0 || u == 0x1680
        || (0x2000 <= u && u <= 0x200A) || u == 0x2028 || u == 0x2029 || u == 0x202F
        || u == 0x205F || u == 0x3000
}

pub open spec fn trim_front(s: Seq<char>) -> Seq<char>
    decreases s.len(),
{
    if s.len() > 0 && is_white(s[0]) {
        trim_front(s.drop_first())
    } else {
        s
    }
}

pub open spec fn trim_back(s: Seq<char>) -> Seq<char>
    decreases s.len(),
{
    if s.len() > 0 && is_white(s.last()) {
        trim_back(s.drop_last())
    } else {
        s
    }
}

/// `s` without leading and trailing white space.
pub open spec fn trim(s: Seq<char>) -> Seq<char> {
    trim_back(trim_front(s))
}

/// `c` equals `k` once ASCII upper case letters are folded to lower case;
/// `k` is a lower case letter or a character that is no letter.
pub open spec fn folds_to(c: char, k: char) -> bool {
    c == k || (0x61 <= (k as u32) && (k as u32) <= 0x7A && (c as u32) + 32 == (k as u32))
}

/// `s` holds `key`, ignoring ASCII case, at position `i`.
pub open spec fn key_at(s: Seq<char>, key: Seq<char>, i: int) -> bool {
    0 <= i && i + key.len() <= s.len() && forall|j: int|
        0 <= j < key.len() ==> #[trigger] folds_to(s[i + j], key[j])
}

/// The first position at or after `i` where `s` holds `key`, ignoring ASCII case.
pub open spec fn find_key_from(s: Seq<char>, key: Seq<char>, i: int) -> Option<int>
    decreases s.len() - i,
{
    if i < 0 || i + key.len() > s.len() {
        None
    } else if key_at(s, key, i) {
        Some(i)
    } else {
        find_key_from(s, key, i + 1)
    }
}

pub fn is_white_char(c: char) -> (r: bool)
    ensures
        r == is_white(c),
{
    let u = c as u32;
    (0x9 <= u && u <= 0xD) || u == 0x20 || u == 0x85 || u == 0xA0 || u == 0x1680 || (0x2000
        <= u && u <= 0x200A) || u == 0x2028 || u == 0x2029 || u == 0x202F || u == 0x205F || u
        == 0x3000
}

pub fn folds_to_char(c: char, k: char) -> (r: bool)
    ensures
        r == folds_to(c, k),
{
    let cu = c as u32;
    let ku = k as u32;
    c == k || (0x61 <= ku && ku <= 0x7A && cu < 0x61 && cu + 32 == ku)
}

/// The characters of `s`, one by one.
pub fn chars_of(s: &str) -> (r: Vec<char>)
    ensures
        r@ == s@,
{
    let n = s.unicode_len();
    let mut r: Vec<char> = Vec::new();
    let mut i: usize = 0;
    while i < n
        invariant
            n == s@.len(),
            i <= n,
            r@ == s@.subrange(0, i as int),
        decreases n - i,
    {
        r.push(s.get_char(i));
        i = i + 1;
    }
    assert(r@ =~= s@);
    r
}

/// The bounds, within `a..b`, of `v[a..b]` trimmed of white space.
pub fn trim_range(v: &Vec<char>, a: usize, b: usize) -> (r: (usize, usize))
    requires
        a <= b <= v@.len(),
    ensures
        a <= r.0 <= r.1 <= b,
        v@.subrange(r.0 as int, r.1 as int) == trim(v@.subrange(a as int, b as int)),
{
    let mut i = a;
    while i < b && is_white_char(v[i])
        invariant
            a <= i <= b <= v@.len(),
            trim_front(v@.subrange(a as int, b as int)) == trim_front(
                v@.subrange(i as int, b as int),
            ),
        decreases b - i,
    {
        assert(v@.subrange(i as int, b as int).drop_first() =~= v@.subrange(
            i + 1,
            b as int,
        ));
        i = i + 1;
    }
    let mut j = b;
    while j > i && is_white_char(v[j - 1])
        invariant
            a <= i <= j <= b <= v@.len(),
            trim_back(v@.subrange(i as int, b as int)) == trim_back(
                v@.subrange(i as int, j as int),
            ),
        decreases j - i,
    {
        assert(v@.subrange(i as int, j as int).drop_last() =~= v@.subrange(
            i as int,
            j - 1,
        ));
        j = j - 1;
    }
    (i, j)
}

/// The first position where `s` holds `key`, ignoring ASCII case.
pub fn find_key(s: &Vec<char>, key: &Vec<char>) -> (r: Option<usize>)
    ensures
        match r {
            Some(i) => find_key_from(s@, key@, 0) == Some(i as int) && i + key@.len() <= s@.len(),
            None => find_key_from(s@, key@, 0) is None,
        },
{
    let n = s.len();
    let k = key.len();
    if k > n {
        return None;
    }
    let mut i: usize = 0;
    while i <= n - k
        invariant
            n == s@.len(),
            k == key@.len(),
            k <= n,
            i <= n - k + 1,
            find_key_from(s@, key@, 0) == find_key_from(s@, key@, i as int),
        decreases n - i,
    {
        let mut j: usize = 0;
        let mut all = true;
        while j < k
            invariant
                n == s@.len(),
                k == key@.len(),
                i + k <= n,
                j <= k,
                all == forall|t: int| 0 <= t < j ==> #[trigger] folds_to(s@[i + t], key@[t]),
            decreases k - j,
        {
            if !folds_to_char(s[i + j], key[j]) {
                all = false;
            }
            j = j + 1;
        }
        if all {
            return Some(i);
        }
        i = i + 1;
    }
    None
}

} // verus!
