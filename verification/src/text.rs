//! Text predicates used by targeting conditions.
//!
//! Text is modelled as a sequence of Unicode scalar values. The search functions
//! below are the standard library's own; their contracts are believed, everything
//! built on them is proved.
use vstd::prelude::*;

verus! {

/// `needle` stands somewhere in `haystack`, as consecutive characters.
pub open spec fn occurs_in(needle: Seq<char>, haystack: Seq<char>) -> bool {
    exists|start: int|
        0 <= start <= haystack.len() - needle.len() && #[trigger] haystack.subrange(
            start,
            start + needle.len(),
        ) == needle
}

/// Converting `source` into a `String` may give a string that holds `text`.
///
/// For a `&str` and for a `String`, `text` can only be the characters of
/// `source`.
pub open spec fn converts_to<S: Into<String>>(source: S, text: Seq<char>) -> bool {
    exists|owned: String| #[trigger]
        call_ensures(Into::<String>::into, (source,), owned) && owned@ == text
}

/// Calls `str::contains` with a string pattern: true exactly when the pattern
/// is a sub-slice of the text. Believed, not proved.
#[verifier::external_body]
pub(crate) fn text_contains(haystack: &str, needle: &str) -> (found: bool)
    ensures
        found == occurs_in(needle@, haystack@),
{
    haystack.contains(needle)
}

/// Calls `str::starts_with` with a string pattern: true exactly when the
/// pattern is a prefix of the text. Believed, not proved.
#[verifier::external_body]
pub(crate) fn text_starts_with(haystack: &str, prefix: &str) -> (found: bool)
    ensures
        found == prefix@.is_prefix_of(haystack@),
{
    haystack.starts_with(prefix)
}

/// Calls `str::ends_with` with a string pattern: true exactly when the pattern
/// is a suffix of the text. Believed, not proved.
#[verifier::external_body]
pub(crate) fn text_ends_with(haystack: &str, suffix: &str) -> (found: bool)
    ensures
        found == suffix@.is_suffix_of(haystack@),
{
    haystack.ends_with(suffix)
}

/// The specification of `<String as From<&str>>::from`: the owned string holds
/// the same characters. Believed, not proved.
pub assume_specification<'a>[ <std::string::String as From<&'a str>>::from ](text: &str) -> (owned:
    std::string::String)
    ensures
        owned@ == text@,
;

/// The specification of the reflexive `<T as From<T>>::from`, which returns its
/// argument unchanged. Believed, not proved.
pub assume_specification<T>[ <T as From<T>>::from ](value: T) -> (same: T)
    ensures
        same == value,
;

} // verus!
