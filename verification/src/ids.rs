//! Random identifiers.

use vstd::prelude::*;

use crate::text::concat;

verus! {

broadcast use vstd::string::group_string_axioms;

pub open spec fn is_hex(c: char) -> bool {
    ('0' <= c && c <= '9') || ('a' <= c && c <= 'f')
}

/// The digits of the version and the variant of a random UUID.
pub open spec fn marks_random(version: char, variant: char) -> bool {
    version == '4' && (variant == '8' || variant == '9' || variant == 'a' || variant == 'b')
}

/// The notation of a random UUID in 32 hexadecimal digits.
pub open spec fn is_simple_uuid(t: Seq<char>) -> bool {
    &&& t.len() == 32
    &&& forall|i: int| 0 <= i < t.len() ==> is_hex(#[trigger] t[i])
    &&& marks_random(t[12], t[16])
}

/// The notation of a UUID in groups of 8, 4, 4, 4 and 12 hexadecimal digits with
/// hyphens in between.
pub open spec fn is_hyphenated_uuid(t: Seq<char>) -> bool {
    &&& t.len() == 36
    &&& forall|i: int|
        0 <= i < t.len() ==> if i == 8 || i == 13 || i == 18 || i == 23 {
            #[trigger] t[i] == '-'
        } else {
            is_hex(t[i])
        }
}

/// The hyphenated notation of a random UUID.
pub open spec fn is_random_uuid(t: Seq<char>) -> bool {
    is_hyphenated_uuid(t) && marks_random(t[14], t[19])
}

/// Draws a UUID with `uuid::Uuid::new_v4` and writes it with `Uuid::simple`, in
/// 32 lower case hexadecimal digits. The draw itself panics where the system has
/// no random bytes to give.
#[verifier::external_body]
pub(crate) fn simple_uuid() -> (r: String)
    ensures
        is_simple_uuid(r@),
{
    uuid::Uuid::new_v4().simple().to_string()
}

/// Draws a UUID with `uuid::Uuid::new_v4` and writes it as its `Display` does,
/// in lower case with hyphens. The draw itself panics where the system has no
/// random bytes to give.
#[verifier::external_body]
pub(crate) fn hyphenated_uuid() -> (r: String)
    ensures
        is_random_uuid(r@),
{
    uuid::Uuid::new_v4().to_string()
}

/// What `uuid::Uuid::parse_str` reads a text as, in the hyphenated notation.
pub uninterp spec fn parsed_uuid(text: Seq<char>) -> Option<Seq<char>>;

/// Calls `uuid::Uuid::parse_str`, and writes the UUID as its `Display` does. The
/// result is named `parsed_uuid`.
#[verifier::external_body]
pub(crate) fn parse_uuid(text: &str) -> (r: Option<String>)
    ensures
        match r {
            Some(t) => parsed_uuid(text@) == Some(t@) && is_hyphenated_uuid(t@),
            None => parsed_uuid(text@) is None,
        },
{
    uuid::Uuid::parse_str(text).ok().map(|id| id.to_string())
}

/// A fresh identifier: a prefix and the digits of a UUID.
pub fn fresh_id(prefix: &str) -> (r: String)
    ensures
        exists|digits: Seq<char>| #[trigger] is_simple_uuid(digits) && r@ == prefix@ + digits,
{
    let digits = simple_uuid();
    concat(prefix, digits.as_str())
}

} // verus!
