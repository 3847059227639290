//! The blacklist rule of the recursive walker: a path is skipped when its
//! cleaned, lowercased form ends with a blacklisted path, whole components
//! only, compared without case.

use vstd::prelude::*;

verus! {

/// The lowercase form of a string.
pub uninterp spec fn lower_of(s: Seq<char>) -> Seq<char>;

/// The lexically cleaned form of a path (`.` and `..` resolved, repeated
/// separators merged).
pub uninterp spec fn cleaned(path: Seq<char>) -> Seq<char>;

/// Whether `child` makes up the last whole components of `path`.
pub uninterp spec fn path_ends_with(path: Seq<char>, child: Seq<char>) -> bool;

/// Relies on `str::to_lowercase`: the result depends on the characters alone.
#[verifier::external_body]
fn lowercase(s: &str) -> (r: String)
    ensures
        r@ == lower_of(s@),
{
    s.to_lowercase()
}

/// Relies on `clean_path::clean`: the cleaned path, read back as text.
#[verifier::external_body]
fn clean_text(path: &str) -> (r: String)
    ensures
        r@ == cleaned(path@),
{
    clean_path::clean(path).to_string_lossy().into_owned()
}

/// Relies on `Path::ends_with`: only whole path components match.
#[verifier::external_body]
fn ends_with_path(path: &str, child: &str) -> (r: bool)
    ensures
        r == path_ends_with(path@, child@),
{
    std::path::Path::new(path).ends_with(child)
}

/// Whether the walker skips `path`: some entry of `blacklist` ends it.
pub fn is_blacklisted(path: &str, blacklist: &Vec<String>) -> (r: bool)
    ensures
        r == exists|i: int|
            0 <= i < blacklist@.len() && path_ends_with(
                cleaned(lower_of(path@)),
                lower_of(#[trigger] blacklist@[i]@),
            ),
{
    let lower = lowercase(path);
    let clean = clean_text(lower.as_str());
    let mut i: usize = 0;
    while i < blacklist.len()
        invariant
            i <= blacklist@.len(),
            clean@ == cleaned(lower_of(path@)),
            forall|j: int|
                0 <= j < i ==> !path_ends_with(clean@, lower_of(#[trigger] blacklist@[j]@)),
        decreases blacklist.len() - i,
    {
        let entry = lowercase(blacklist[i].as_str());
        if ends_with_path(clean.as_str(), entry.as_str()) {
            return true;
        }
        i = i + 1;
    }
    false
}

} // verus!
