//! Row identifiers: generation of fresh ones and validation of caller-given
//! ones, in canonical textual form.

use vstd::prelude::*;

verus! {

/// What parsing a textual identifier yields: `None` where the text is not
/// an accepted UUID form, else its canonical lower-case hyphenated text.
/// The result depends on the text alone.
pub uninterp spec fn uuid_canonical(s: Seq<char>) -> Option<Seq<char>>;

/// Relies on uuid::Uuid::new_v4 and uuid::Uuid's Display form: a fresh
/// random identifier, rendered hyphenated in 36 characters. Nothing beyond
/// its length can be promised of a random value.
#[verifier::external_body]
pub(crate) fn new_uuid() -> (r: String)
    ensures
        r@.len() == 36,
{
    uuid::Uuid::new_v4().to_string()
}

/// Relies on uuid::Uuid::parse_str and uuid::Uuid's Display form: accepts
/// the textual UUID forms and hands back the canonical hyphenated one,
/// which is 36 characters and depends on the input text alone.
#[verifier::external_body]
pub(crate) fn parse_uuid(s: &str) -> (r: Option<String>)
    ensures
        r is Some <==> uuid_canonical(s@) is Some,
        r matches Some(c) ==> uuid_canonical(s@) == Some(c@) && c@.len() == 36,
{
    match uuid::Uuid::parse_str(s) {
        Ok(u) => Some(u.to_string()),
        Err(_) => None,
    }
}

} // verus!
