//! Which game versions a user may ask for.
use vstd::prelude::*;

verus! {

/// The text is a release version such as `1.21.1` or a snapshot such as
/// `24w31a`, as the pattern `^(1\.\d+(\.\d+)?|[0-9]{2}w[0-9]{2}[a-z])$` decides.
pub uninterp spec fn is_game_version(s: Seq<char>) -> bool;

/// Relies on `regex::Regex::new` and `Regex::is_match`: whether `s` matches
/// the game version pattern.
#[verifier::external_body]
fn game_version_matches(s: &str) -> (r: bool)
    ensures
        r == is_game_version(s@),
{
    match regex::Regex::new(r"^(1\.\d+(\.\d+)?|[0-9]{2}w[0-9]{2}[a-z])$") {
        Ok(re) => re.is_match(s),
        Err(_) => false,
    }
}

pub open spec fn version_hint() -> Seq<char> {
    "Please enter a valid Minecraft version (e.g., 1.21.1 or 24w31a)"@
}

/// Accepts a game version, or gives the hint to show for one that is not.
pub fn check_game_version(input: &str) -> (r: Result<(), String>)
    ensures
        r is Ok <==> is_game_version(input@),
        r matches Err(m) ==> m@ == version_hint(),
{
    if game_version_matches(input) {
        Ok(())
    } else {
        Err(String::from_str("Please enter a valid Minecraft version (e.g., 1.21.1 or 24w31a)"))
    }
}

} // verus!
