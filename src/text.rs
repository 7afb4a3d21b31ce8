use vstd::prelude::*;

verus! {

/// What `str::to_lowercase` makes of a string: the Unicode lowercase mapping
/// of each character, independent of locale.
pub uninterp spec fn lower_of(s: Seq<char>) -> Seq<char>;

/// What `str::trim` leaves of a string: it without leading and trailing
/// Unicode whitespace.
pub uninterp spec fn trimmed_of(s: Seq<char>) -> Seq<char>;

/// `needle` occurs in `hay` as a contiguous run of characters (the empty
/// needle occurs in every string).
pub open spec fn occurs_in(needle: Seq<char>, hay: Seq<char>) -> bool {
    exists|i: int|
        0 <= i && i + needle.len() <= hay.len() && #[trigger] hay.subrange(i, i + needle.len())
            == needle
}

/// Relies on `str::to_lowercase`: the result depends on the characters alone.
#[verifier::external_body]
pub(crate) fn to_lower(s: &str) -> (r: String)
    ensures
        r@ == lower_of(s@),
{
    s.to_lowercase()
}

/// Relies on `str::trim`: the result depends on the characters alone.
#[verifier::external_body]
pub(crate) fn trim(s: &str) -> (r: &str)
    ensures
        r@ == trimmed_of(s@),
{
    s.trim()
}

/// Relies on `str::contains` with a `&str` pattern: true exactly when the
/// pattern occurs in the string as a contiguous substring.
#[verifier::external_body]
pub(crate) fn contains_str(hay: &str, needle: &str) -> (r: bool)
    ensures
        r == occurs_in(needle@, hay@),
{
    hay.contains(needle)
}

} // verus!
