//! Random numbers.
use rand::Rng;
use uuid::Uuid;
use vstd::prelude::*;

verus! {

/// `Rng::gen` of the `rand` crate, on the generator of `rand::thread_rng`,
/// draws a 64-bit number. Nothing is promised of which one.
#[verifier::external_body]
pub(crate) fn random_u64() -> u64 {
    rand::thread_rng().gen()
}

/// `rand::random` draws a 32-bit number. Nothing is promised of which one.
#[verifier::external_body]
pub(crate) fn random_u32() -> u32 {
    rand::random()
}

/// `Rng::gen` of the `rand` crate, on the generator of `rand::thread_rng`,
/// draws eight bytes. Nothing is promised of which ones.
#[verifier::external_body]
pub(crate) fn random_bytes() -> [u8; 8] {
    rand::thread_rng().gen()
}

/// Whether a text has the shape of a version 4 UUID: groups of eight, four,
/// four, four and twelve hexadecimal digits in lower case, with hyphens between
/// them, the third of which begins with 4 and the fourth with 8, 9, a or b.
pub open spec fn is_uuid(s: Seq<char>) -> bool {
    &&& s.len() == 36
    &&& forall|i: int|
        0 <= i < 36 ==> if i == 8 || i == 13 || i == 18 || i == 23 {
            s[i] == '-'
        } else {
            '0' <= #[trigger] s[i] <= '9' || 'a' <= s[i] <= 'f'
        }
    &&& s[14] == '4'
    &&& s[19] == '8' || s[19] == '9' || s[19] == 'a' || s[19] == 'b'
}

/// `Uuid::new_v4` of the `uuid` crate, written by its `to_string`, draws an
/// identifier. Its shape is stated; nothing is promised of its digits.
#[verifier::external_body]
pub(crate) fn random_uuid() -> (r: String)
    ensures
        is_uuid(r@),
{
    Uuid::new_v4().to_string()
}

} // verus!
