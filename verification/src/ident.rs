//! Request ids: the opaque tokens by which a job and its result are
//! correlated.

use crate::text::bytes_eq;
use vstd::prelude::*;

verus! {

/// An opaque correlation token. Two ids are the same id exactly when their
/// bytes are equal.
#[derive(Debug, PartialEq, Eq)]
pub struct RequestId {
    bytes: Vec<u8>,
}

impl View for RequestId {
    type V = Seq<u8>;

    closed spec fn view(&self) -> Seq<u8> {
        self.bytes@
    }
}

/// A lower-case hexadecimal digit in ASCII.
pub open spec fn is_lower_hex(b: u8) -> bool {
    (0x30 <= b <= 0x39) || (0x61 <= b <= 0x66)
}

/// The hyphenated text form of a UUID: 36 bytes, a hyphen at offsets 8, 13, 18
/// and 23, a lower-case hexadecimal digit everywhere else.
pub open spec fn is_uuid_text(text: Seq<u8>) -> bool {
    &&& text.len() == 36
    &&& forall|i: int|
        0 <= i < 36 ==> if i == 8 || i == 13 || i == 18 || i == 23 {
            #[trigger] text[i] == 0x2d
        } else {
            is_lower_hex(text[i])
        }
}

/// The text form of a random UUID, which is of version 4 and of the RFC 4122
/// variant: the digit at offset 14 is `4`, and the digit at offset 19 is one of
/// `8`, `9`, `a` and `b`.
pub open spec fn is_random_uuid_text(text: Seq<u8>) -> bool {
    &&& is_uuid_text(text)
    &&& text[14] == 0x34
    &&& (text[19] == 0x38 || text[19] == 0x39 || text[19] == 0x61 || text[19] == 0x62)
}

/// `uuid::Uuid::new_v4`, rendered by the `Display` of `Uuid`. The value is
/// random, so only its shape is claimed: 36 bytes, hyphens after the groups of
/// 8, 4, 4 and 4 digits, lower-case hexadecimal digits elsewhere, and among
/// them the digits that mark the version and the variant.
#[verifier::external_body]
fn random_uuid_text() -> (text: Vec<u8>)
    ensures
        is_random_uuid_text(text@),
{
    uuid::Uuid::new_v4().to_string().into_bytes()
}

impl RequestId {
    /// The id whose text is `bytes`, as it arrived from a caller.
    pub fn from_bytes(bytes: Vec<u8>) -> (id: RequestId)
        ensures
            id@ == bytes@,
    {
        RequestId { bytes }
    }

    /// A newly minted id: a random UUID in hyphenated text form.
    pub fn fresh() -> (id: RequestId)
        ensures
            is_random_uuid_text(id@),
    {
        RequestId { bytes: random_uuid_text() }
    }

    /// The text of the id.
    pub fn as_bytes(&self) -> (bytes: &[u8])
        ensures
            bytes@ == self@,
    {
        self.bytes.as_slice()
    }

    /// Whether `self` and `other` are the same id.
    pub fn same(&self, other: &RequestId) -> (same: bool)
        ensures
            same == (self@ == other@),
    {
        bytes_eq(self.bytes.as_slice(), other.bytes.as_slice())
    }
}

impl Clone for RequestId {
    fn clone(&self) -> (copy: RequestId)
        ensures
            copy@ == self@,
    {
        RequestId { bytes: self.bytes.clone() }
    }
}

} // verus!
