//! Questions about strings that the standard library answers.

use vstd::prelude::*;

verus! {

/// `needle` occurs in `text` as a run of consecutive characters.
pub open spec fn occurs_in(needle: Seq<char>, text: Seq<char>) -> bool {
    exists|i: int|
        0 <= i && i + needle.len() <= text.len() && #[trigger] text.subrange(
            i,
            i + needle.len(),
        ) == needle
}

/// The lowercase form of a text, as `str::to_lowercase` gives it.
pub uninterp spec fn lowercase(text: Seq<char>) -> Seq<char>;

/// `str::starts_with` for a string pattern: whether `text` begins with the
/// characters of `prefix`.
#[verifier::external_body]
pub(crate) fn starts_with(text: &str, prefix: &str) -> (b: bool)
    ensures
        b == prefix@.is_prefix_of(text@),
{
    text.starts_with(prefix)
}

/// `str::contains` for a string pattern: whether the characters of `needle`
/// occur in `text`, one after the other.
#[verifier::external_body]
pub(crate) fn contains(text: &str, needle: &str) -> (b: bool)
    ensures
        b == occurs_in(needle@, text@),
{
    text.contains(needle)
}

/// `str::to_lowercase`: the text in lowercase, which `lowercase` names.
#[verifier::external_body]
pub(crate) fn to_lowercase(text: &str) -> (lower: String)
    ensures
        lower@ == lowercase(text@),
{
    text.to_lowercase()
}

/// A text without the white space at its start and end, as `str::trim`
/// gives it.
pub uninterp spec fn trimmed(text: Seq<char>) -> Seq<char>;

/// `text` without `suffix` at its end, or `None` where it does not end with it.
pub open spec fn without_suffix(text: Seq<char>, suffix: Seq<char>) -> Option<Seq<char>> {
    if suffix.is_suffix_of(text) {
        Some(text.subrange(0, text.len() - suffix.len()))
    } else {
        None
    }
}

/// `str::trim`: the text without leading and trailing white space, which
/// `trimmed` names.
#[verifier::external_body]
pub(crate) fn trim(text: &str) -> (r: &str)
    ensures
        r@ == trimmed(text@),
{
    text.trim()
}

/// `str::strip_suffix` for a string pattern: the text before `suffix` where
/// `text` ends with it, and `None` where it does not.
#[verifier::external_body]
pub(crate) fn strip_suffix<'a>(text: &'a str, suffix: &str) -> (r: Option<&'a str>)
    ensures
        match r {
            Some(rest) => without_suffix(text@, suffix@) == Some(rest@),
            None => without_suffix(text@, suffix@) is None,
        },
{
    text.strip_suffix(suffix)
}

/// The extension of the file that a path names, as
/// `std::path::Path::extension` gives it, or `None` where the file's name
/// has none. The file's name is the last component of the path, and what
/// separates components is decided by the target that the library is built
/// for: `/` everywhere, and `\` too on Windows.
pub uninterp spec fn extension_of(path: Seq<char>) -> Option<Seq<char>>;

/// `std::path::Path::extension`, on the path that `path` spells: the
/// extension of the file that the path names, which `extension_of` names, or
/// `None` where there is none.
#[verifier::external_body]
pub(crate) fn path_extension(path: &str) -> (r: Option<&str>)
    ensures
        match r {
            Some(extension) => extension_of(path@) == Some(extension@),
            None => extension_of(path@) is None,
        },
{
    match std::path::Path::new(path).extension() {
        Some(extension) => extension.to_str(),
        None => None,
    }
}

/// `String::pop` takes the last character off the string and returns it,
/// if the string has one.
pub assume_specification[ String::pop ](s: &mut String) -> (c: Option<char>)
    ensures
        old(s)@.len() == 0 ==> c is None && final(s)@ == old(s)@,
        old(s)@.len() > 0 ==> c == Some(old(s)@.last()) && final(s)@ == old(s)@.drop_last(),
;

} // verus!
