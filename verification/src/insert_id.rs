//! Insert ids: the keys by which the analytics service tells one event from
//! another.

use vstd::prelude::*;

verus! {

/// Whether the text is one of the forms of a UUID that the `uuid` crate reads:
/// 32 hexadecimal digits, the hyphenated form, that form in braces, or as a
/// URN.
pub uninterp spec fn parses_as_uuid(text: Seq<char>) -> bool;

/// Calls `uuid::Uuid::parse_str` and says whether it succeeded. Trusted: the
/// answer is a function of the text alone.
#[verifier::external_body]
pub(crate) fn parse_succeeds(text: &str) -> (ok: bool)
    ensures
        ok == parses_as_uuid(text@),
{
    uuid::Uuid::parse_str(text).is_ok()
}

/// Whether an insert id was made by a client, which is the case exactly when
/// it reads as a UUID.
pub fn is_uuid(text: &str) -> (ok: bool)
    ensures
        ok == parses_as_uuid(text@),
{
    parse_succeeds(text)
}

} // verus!
