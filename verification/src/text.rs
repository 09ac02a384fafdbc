//! Text operations of the standard library that the parsers rely on, each
//! with the contract the verified code is entitled to.

use vstd::prelude::*;

verus! {

/// Whether `text` ends with `suffix`.
pub open spec fn ends_with(text: Seq<char>, suffix: Seq<char>) -> bool {
    text.len() >= suffix.len() && text.skip(text.len() - suffix.len()) == suffix
}

/// `str::ends_with` with a string pattern: whether `suffix` is a suffix of
/// `text`.
#[verifier::external_body]
pub(crate) fn str_ends_with(text: &str, suffix: &str) -> (r: bool)
    ensures
        r == ends_with(text@, suffix@),
{
    text.ends_with(suffix)
}

/// Whether `text` begins with `prefix`.
pub open spec fn starts_with(text: Seq<char>, prefix: Seq<char>) -> bool {
    text.len() >= prefix.len() && text.take(prefix.len() as int) == prefix
}

/// Whether `pattern` occurs somewhere in `text`.
pub open spec fn contains_text(text: Seq<char>, pattern: Seq<char>) -> bool {
    exists|i: int|
        0 <= i <= text.len() - pattern.len() && #[trigger] text.subrange(
            i,
            i + pattern.len(),
        ) == pattern
}

/// `text` without its leading run of the character `c`.
pub open spec fn strip_leading(text: Seq<char>, c: char) -> Seq<char>
    decreases text.len(),
{
    if text.len() > 0 && text[0] == c {
        strip_leading(text.skip(1), c)
    } else {
        text
    }
}

/// What `str::trim` makes of a text: the text without leading and trailing
/// white space, in the standard library's Unicode sense of white space.
pub uninterp spec fn trimmed_text(text: Seq<char>) -> Seq<char>;

/// What `str::to_lowercase` makes of a text: its lower-case form, in the
/// standard library's Unicode sense.
pub uninterp spec fn lowercase_text(text: Seq<char>) -> Seq<char>;

/// What `str::split_whitespace` yields for a text: its maximal runs of
/// characters that are not white space, in order.
pub uninterp spec fn whitespace_fields(text: Seq<char>) -> Seq<Seq<char>>;

/// `str::trim`: the part of `text` between its leading and trailing white
/// space. The result is named, not spelled out.
#[verifier::external_body]
pub(crate) fn str_trim(text: &str) -> (r: &str)
    ensures
        r@ == trimmed_text(text@),
{
    text.trim()
}

/// `str::to_lowercase`: the lower-case form of `text`. The result is named,
/// not spelled out.
#[verifier::external_body]
pub(crate) fn str_to_lowercase(text: &str) -> (r: String)
    ensures
        r@ == lowercase_text(text@),
{
    text.to_lowercase()
}

/// `str::split_whitespace`: the fields of `text` that white space separates,
/// each copied into a string of its own. The result is named, not spelled
/// out.
#[verifier::external_body]
pub(crate) fn str_split_whitespace(text: &str) -> (r: Vec<String>)
    ensures
        r@.len() == whitespace_fields(text@).len(),
        forall|i: int| 0 <= i < r@.len() ==> (#[trigger] r@[i])@ == whitespace_fields(text@)[i],
{
    text.split_whitespace().map(String::from).collect()
}

/// `str::starts_with` with a string pattern: whether `prefix` is a prefix
/// of `text`.
#[verifier::external_body]
pub(crate) fn str_starts_with(text: &str, prefix: &str) -> (r: bool)
    ensures
        r == starts_with(text@, prefix@),
{
    text.starts_with(prefix)
}

/// `str::contains` with a string pattern: whether `pattern` occurs in
/// `text`.
#[verifier::external_body]
pub(crate) fn str_contains(text: &str, pattern: &str) -> (r: bool)
    ensures
        r == contains_text(text@, pattern@),
{
    text.contains(pattern)
}

/// `str::trim_start_matches` with a character pattern: `text` without its
/// leading run of `c`.
#[verifier::external_body]
pub(crate) fn str_trim_start_matches(text: &str, c: char) -> (r: &str)
    ensures
        r@ == strip_leading(text@, c),
{
    text.trim_start_matches(c)
}

/// `String::push`: appends one character.
#[verifier::external_body]
pub(crate) fn string_push(s: &mut String, c: char)
    ensures
        final(s)@ == old(s)@.push(c),
{
    s.push(c)
}

/// `==` on `str`: whether two texts are the same.
#[verifier::external_body]
pub(crate) fn str_eq(a: &str, b: &str) -> (r: bool)
    ensures
        r == (a@ == b@),
{
    a == b
}

} // verus!
