use vstd::prelude::*;

verus! {

/// The ASCII whitespace characters; query text is split into tokens at runs
/// of these.
pub open spec fn is_space(c: char) -> bool {
    c == ' ' || c == '\t' || c == '\n' || c == '\r' || c == '\u{b}' || c == '\u{c}'
}

/// `needle` occurs contiguously somewhere in `hay`.
pub open spec fn contains_seq(hay: Seq<char>, needle: Seq<char>) -> bool {
    exists|i: int|
        0 <= i && i + needle.len() <= hay.len() && #[trigger] hay.subrange(i, i + needle.len())
            == needle
}

/// What `str::to_lowercase` returns for a given character sequence; it
/// depends on the characters alone.
pub uninterp spec fn lower(s: Seq<char>) -> Seq<char>;

/// What `str::trim` returns for a given character sequence; it depends on
/// the characters alone.
pub uninterp spec fn trimmed(s: Seq<char>) -> Seq<char>;

/// Runtime form of [`is_space`].
pub fn is_space_char(c: char) -> (b: bool)
    ensures
        b == is_space(c),
{
    c == ' ' || c == '\t' || c == '\n' || c == '\r' || c == '\u{b}' || c == '\u{c}'
}

/// Relies on `str::to_lowercase`: the lowercase equivalent of the text,
/// written here as the named result [`lower`].
#[verifier::external_body]
pub fn lowercase(s: &str) -> (r: String)
    ensures
        r@ == lower(s@),
{
    s.to_lowercase()
}

/// Relies on `str::trim`: the text with leading and trailing whitespace
/// removed, written here as the named result [`trimmed`].
#[verifier::external_body]
pub fn trim_text(s: &str) -> (r: String)
    ensures
        r@ == trimmed(s@),
{
    s.trim().to_owned()
}

/// Relies on `str::contains`: whether the pattern matches a sub-slice of the
/// text.
#[verifier::external_body]
pub fn str_contains(hay: &str, needle: &str) -> (r: bool)
    ensures
        r == contains_seq(hay@, needle@),
{
    hay.contains(needle)
}

} // verus!
