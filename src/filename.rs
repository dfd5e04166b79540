//! The name under which a downloaded body is saved.
use vstd::prelude::*;
use crate::text::{chars_of, find_key, find_key_from, folds_to, folds_to_char, trim, trim_range};

verus! {

/// The percent-decoded text of `s`; `None` where the decoded bytes are not UTF-8.
pub uninterp spec fn percent_decoded(s: Seq<char>) -> Option<Seq<char>>;

/// The last segment of the path of the URL `url`; `None` where `url` does not
/// parse or its path has no segments.
pub uninterp spec fn url_last_segment(url: Seq<char>) -> Option<Seq<char>>;

/// Relies on `urlencoding::decode`: `%XX` escapes are decoded, an error comes
/// when the decoded bytes are not UTF-8, and a text without `%` is returned as it is.
#[verifier::external_body]
fn percent_decode(s: &str) -> (r: Option<String>)
    ensures
        match r {
            Some(d) => percent_decoded(s@) == Some(d@),
            None => percent_decoded(s@) is None,
        },
        (forall|i: int| 0 <= i < s@.len() ==> s@[i] != '%') ==> (r is Some && r->0@ == s@),
{
    match urlencoding::decode(s) {
        Ok(d) => Some(d.into_owned()),
        Err(_) => None,
    }
}

/// Relies on `reqwest::Url::parse` and `Url::path_segments`: the last segment of
/// the parsed URL's path, `None` where parsing fails or the URL cannot be a base.
#[verifier::external_body]
fn last_path_segment(url: &str) -> (r: Option<String>)
    ensures
        match r {
            Some(x) => url_last_segment(url@) == Some(x@),
            None => url_last_segment(url@) is None,
        },
{
    match reqwest::Url::parse(url) {
        Ok(u) => match u.path_segments() {
            Some(segments) => segments.last().map(String::from),
            None => None,
        },
        Err(_) => None,
    }
}

pub open spec fn filename_key() -> Seq<char> {
    seq!['f', 'i', 'l', 'e', 'n', 'a', 'm', 'e', '=']
}

pub open spec fn disposition_key() -> Seq<char> {
    seq![
        'c', 'o', 'n', 't', 'e', 'n', 't', '-', 'd', 'i', 's', 'p', 'o', 's', 'i', 't', 'i', 'o',
        'n',
    ]
}

/// The name used when neither the header nor the URL gives one.
pub open spec fn fallback_name() -> Seq<char> {
    seq!['d', 'o', 'w', 'n', 'l', 'o', 'a', 'd']
}

/// `s` without one trailing `;`.
pub open spec fn drop_semicolon(s: Seq<char>) -> Seq<char> {
    if s.len() > 0 && s.last() == ';' {
        s.drop_last()
    } else {
        s
    }
}

/// `s` without one leading and one trailing `"`.
pub open spec fn drop_quotes(s: Seq<char>) -> Seq<char> {
    let t = if s.len() > 0 && s[0] == '"' {
        s.drop_first()
    } else {
        s
    };
    if t.len() > 0 && t.last() == '"' {
        t.drop_last()
    } else {
        t
    }
}

/// The file name that a `Content-Disposition` value gives: what follows the
/// first `filename=` (in any ASCII case), trimmed of white space, of one
/// trailing `;` and of one layer of double quotes, when that is not empty.
pub open spec fn disposition_name(v: Seq<char>) -> Option<Seq<char>> {
    match find_key_from(v, filename_key(), 0) {
        Some(i) => {
            let n = drop_quotes(trim(drop_semicolon(trim(v.subrange(i + 9, v.len() as int)))));
            if n.len() > 0 {
                Some(n)
            } else {
                None
            }
        },
        None => None,
    }
}

/// `n` is the name `Content-Disposition`, ignoring ASCII case.
pub open spec fn is_disposition(n: Seq<char>) -> bool {
    n.len() == 19 && forall|j: int| 0 <= j < 19 ==> #[trigger] folds_to(n[j], disposition_key()[j])
}

/// The value of the first `Content-Disposition` header from position `i` on.
pub open spec fn disposition_from(h: Seq<(String, String)>, i: int) -> Option<Seq<char>>
    decreases h.len() - i,
{
    if i < 0 || i >= h.len() {
        None
    } else if is_disposition(h[i].0@) {
        Some(h[i].1@)
    } else {
        disposition_from(h, i + 1)
    }
}

/// The file name that the response headers `h` give, if any.
pub open spec fn header_name(h: Seq<(String, String)>) -> Option<Seq<char>> {
    match disposition_from(h, 0) {
        Some(v) => disposition_name(v),
        None => None,
    }
}

/// The name taken from a URL's last path segment `segment`, given what
/// decoding that segment gave (`decoded`).
pub open spec fn segment_name(segment: Option<Seq<char>>, decoded: Option<Seq<char>>) -> Seq<
    char,
> {
    match segment {
        Some(s) => if s.len() > 0 {
            match decoded {
                Some(d) => d,
                None => s,
            }
        } else {
            fallback_name()
        },
        None => fallback_name(),
    }
}

/// The file name chosen from the headers `h`, the URL's last segment and its decoding.
pub open spec fn chosen_name(
    h: Seq<(String, String)>,
    segment: Option<Seq<char>>,
    decoded: Option<Seq<char>>,
) -> Seq<char> {
    match header_name(h) {
        Some(n) => n,
        None => segment_name(segment, decoded),
    }
}

pub open spec fn decoded_segment(segment: Option<Seq<char>>) -> Option<Seq<char>> {
    match segment {
        Some(s) => percent_decoded(s),
        None => None,
    }
}

/// The file name for a body fetched from `url` with the response headers `h`.
pub open spec fn derived_name(url: Seq<char>, h: Seq<(String, String)>) -> Seq<char> {
    chosen_name(h, url_last_segment(url), decoded_segment(url_last_segment(url)))
}

pub open spec fn opt_view(o: Option<String>) -> Option<Seq<char>> {
    match o {
        Some(s) => Some(s@),
        None => None,
    }
}

/// The file name that the `Content-Disposition` value `value` gives, if any.
pub fn disposition_filename(value: &str) -> (r: Option<String>)
    ensures
        opt_view(r) == disposition_name(value@),
{
    let v = chars_of(value);
    let key = vec!['f', 'i', 'l', 'e', 'n', 'a', 'm', 'e', '='];
    assert(key@ =~= filename_key());
    assert(key@.len() == 9);
    match find_key(&v, &key) {
        None => None,
        Some(i) => {
            let n = v.len();
            assert(i + 9 <= n);
            let start = i + 9;
            let (a, b) = trim_range(&v, start, v.len());
            let b = if a < b && v[b - 1] == ';' {
                b - 1
            } else {
                b
            };
            assert(v@.subrange(a as int, b as int) =~= drop_semicolon(
                trim(v@.subrange(start as int, v@.len() as int)),
            ));
            let (a, b) = trim_range(&v, a, b);
            let ghost t = v@.subrange(a as int, b as int);
            let a2 = if a < b && v[a] == '"' {
                a + 1
            } else {
                a
            };
            assert(v@.subrange(a2 as int, b as int) =~= (if t.len() > 0 && t[0] == '"' {
                t.drop_first()
            } else {
                t
            }));
            let ghost u = v@.subrange(a2 as int, b as int);
            let b2 = if a2 < b && v[b - 1] == '"' {
                b - 1
            } else {
                b
            };
            assert(v@.subrange(a2 as int, b2 as int) =~= (if u.len() > 0 && u.last() == '"' {
                u.drop_last()
            } else {
                u
            }));
            assert(v@.subrange(a2 as int, b2 as int) == drop_quotes(t));
            let a = a2;
            let b = b2;
            if a < b {
                Some(String::from_str(value.substring_char(a, b)))
            } else {
                None
            }
        },
    }
}

/// Whether the header name `n` is `Content-Disposition`, ignoring ASCII case.
fn is_disposition_name(n: &str) -> (r: bool)
    ensures
        r == is_disposition(n@),
{
    let c = chars_of(n);
    let key = vec![
        'c', 'o', 'n', 't', 'e', 'n', 't', '-', 'd', 'i', 's', 'p', 'o', 's', 'i', 't', 'i', 'o',
        'n',
    ];
    assert(key@ =~= disposition_key());
    if c.len() != 19 {
        return false;
    }
    let mut j: usize = 0;
    while j < 19
        invariant
            c@ == n@,
            c@.len() == 19,
            key@ == disposition_key(),
            j <= 19,
            forall|t: int| 0 <= t < j ==> #[trigger] folds_to(n@[t], disposition_key()[t]),
        decreases 19 - j,
    {
        if !folds_to_char(c[j], key[j]) {
            return false;
        }
        j = j + 1;
    }
    true
}

/// The file name that the first `Content-Disposition` header of `headers` gives, if any.
fn header_filename(headers: &Vec<(String, String)>) -> (r: Option<String>)
    ensures
        opt_view(r) == header_name(headers@),
{
    let mut i: usize = 0;
    while i < headers.len()
        invariant
            i <= headers@.len(),
            disposition_from(headers@, 0) == disposition_from(headers@, i as int),
        decreases headers@.len() - i,
    {
        if is_disposition_name(headers[i].0.as_str()) {
            return disposition_filename(headers[i].1.as_str());
        }
        i = i + 1;
    }
    None
}

/// The file name for a response, given its headers `headers`, the last
/// segment `segment` of its URL's path and the percent-decoding `decoded`
/// of that segment: the `Content-Disposition` name when there is one, else
/// the decoded segment, else the raw segment; `download` when the segment is
/// missing or empty.
pub fn filename_from_parts(
    headers: &Vec<(String, String)>,
    segment: Option<String>,
    decoded: Option<String>,
) -> (r: String)
    ensures
        r@ == chosen_name(headers@, opt_view(segment), opt_view(decoded)),
{
    match header_filename(headers) {
        Some(n) => {
            return n;
        },
        None => {},
    }
    let fallback = String::from_str("download");
    proof {
        reveal_strlit("download");
        assert(fallback@ =~= fallback_name());
    }
    match segment {
        Some(s) => {
            if s.as_str().unicode_len() > 0 {
                match decoded {
                    Some(d) => d,
                    None => s,
                }
            } else {
                fallback
            }
        },
        None => fallback,
    }
}

/// The file name for a body fetched from `url` whose response carried the
/// headers `headers`.
pub fn derive_filename(url: &str, headers: &Vec<(String, String)>) -> (r: String)
    ensures
        r@ == derived_name(url@, headers@),
{
    let segment = last_path_segment(url);
    let decoded = match &segment {
        Some(s) => percent_decode(s.as_str()),
        None => None,
    };
    filename_from_parts(headers, segment, decoded)
}

/// The file name is a function of the URL and the headers alone: two
/// derivations from equal inputs give the same name.
pub proof fn lemma_derive_filename_deterministic(
    url1: Seq<char>,
    headers1: Seq<(String, String)>,
    url2: Seq<char>,
    headers2: Seq<(String, String)>,
)
    requires
        url1 == url2,
        headers1 == headers2,
    ensures
        derived_name(url1, headers1) == derived_name(url2, headers2),
{
}

} // verus!
