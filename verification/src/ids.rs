//! Random identifiers.

use vstd::prelude::*;

verus! {

/// A lowercase hexadecimal digit.
pub open spec fn is_hex(c: char) -> bool {
    '0' <= c <= '9' || 'a' <= c <= 'f'
}

/// The text of a random UUID: lowercase hexadecimal digits in groups of 8, 4, 4, 4 and
/// 12, the third of which begins with the version, `4`.
pub open spec fn uuid_shaped(s: Seq<char>) -> bool {
    &&& s.len() == 36
    &&& forall|i: int|
        0 <= i < 36 ==> if i == 8 || i == 13 || i == 18 || i == 23 {
            #[trigger] s[i] == '-'
        } else {
            is_hex(s[i])
        }
    &&& s[14] == '4'
}

/// `uuid::Uuid::new_v4`, printed by its `Display`. Chance decides the digits: only the
/// shape is stated. Where the system has no random numbers it panics.
#[verifier::external_body]
pub(crate) fn fresh_uuid() -> (s: String)
    ensures
        uuid_shaped(s@),
{
    uuid::Uuid::new_v4().to_string()
}

/// `uuid::Uuid::new_v4`, printed by `Uuid::simple`: the digits without hyphens. Chance
/// decides them. Where the system has no random numbers it panics.
#[verifier::external_body]
pub(crate) fn fresh_uuid_simple() -> (s: String)
    ensures
        s@.len() == 32,
        forall|i: int| 0 <= i < 32 ==> is_hex(#[trigger] s@[i]),
{
    uuid::Uuid::new_v4().simple().to_string()
}

} // verus!
