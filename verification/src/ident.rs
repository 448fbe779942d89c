//! Node identifiers: 128-bit values, sixteen bytes on the wire.

use vstd::prelude::*;
use vstd::bytes::lemma_auto_spec_u128_to_from_le_bytes;
use vstd::bytes::spec_u128_from_le_bytes;
use vstd::bytes::spec_u128_to_le_bytes;
use crate::error::GraphError;

verus! {

/// The identifier of a node.
pub type Uuid = u128;

/// The error of the `uuid` crate, which the verifier takes as it is and
/// does not look into.
#[verifier::external_type_specification]
#[verifier::external_body]
pub struct ExUuidError(uuid::Error);

/// The identifier that sixteen bytes stand for: the bytes read as one number,
/// the first byte being the most significant.
pub open spec fn uuid_of_bytes(bytes: Seq<u8>) -> Uuid {
    spec_u128_from_le_bytes(bytes.reverse())
}

/// The sixteen bytes of an identifier, the most significant first.
pub open spec fn bytes_of_uuid(uuid: Uuid) -> Seq<u8> {
    spec_u128_to_le_bytes(uuid).reverse()
}

/// Whether the identifier is marked as one that was drawn at random: its
/// version, the thirteenth of its thirty-two hexadecimal digits, is 4, and
/// its variant, the two highest bits of the seventeenth digit, is binary 10.
pub open spec fn is_random_uuid(uuid: Uuid) -> bool {
    uuid & 0x0000_0000_0000_F000_C000_0000_0000_0000
        == 0x0000_0000_0000_4000_8000_0000_0000_0000
}

/// Calls `uuid::Uuid::new_v4` and hands the identifier back as its 128-bit
/// value. The outside function draws 128 bits at random and then sets the
/// version to 4 and the variant to binary 10; that marking is all that is
/// claimed, for the other bits are chance. The outside function aborts
/// where the system has no random bytes to give.
#[verifier::external_body]
pub(crate) fn random_uuid() -> (uuid: Uuid)
    ensures
        is_random_uuid(uuid),
{
    uuid::Uuid::new_v4().as_u128()
}

/// Calls `uuid::Uuid::from_slice`, then `as_u128` on what it made. The outside
/// function accepts exactly the slices of sixteen bytes and keeps them as they
/// are; `as_u128` reads them as a big-endian number.
#[verifier::external_body]
pub(crate) fn uuid_from_slice(bytes: &[u8]) -> (parsed: Result<Uuid, uuid::Error>)
    ensures
        parsed is Ok <==> bytes@.len() == 16,
        parsed is Ok ==> parsed->Ok_0 == uuid_of_bytes(bytes@),
{
    match uuid::Uuid::from_slice(bytes) {
        Ok(uuid) => Ok(uuid.as_u128()),
        Err(error) => Err(error),
    }
}

/// Calls `uuid::Uuid::from_u128` and copies the bytes of what it made, which
/// are the big-endian bytes of the number.
#[verifier::external_body]
pub(crate) fn uuid_into_bytes(uuid: Uuid) -> (bytes: Vec<u8>)
    ensures
        bytes@ == bytes_of_uuid(uuid),
{
    uuid::Uuid::from_u128(uuid).into_bytes().to_vec()
}

/// Reads an identifier from its bytes on the wire.
pub fn parse_uuid(bytes: &[u8]) -> (parsed: Result<Uuid, GraphError>)
    ensures
        bytes@.len() == 16 ==> parsed == Ok::<Uuid, GraphError>(uuid_of_bytes(bytes@)),
        bytes@.len() != 16 ==> parsed == Err::<Uuid, GraphError>(GraphError::InvalidUuid),
{
    match uuid_from_slice(bytes) {
        Ok(uuid) => Ok(uuid),
        Err(_) => Err(GraphError::InvalidUuid),
    }
}

/// Writes an identifier as its sixteen bytes on the wire.
pub fn uuid_bytes(uuid: Uuid) -> (bytes: Vec<u8>)
    ensures
        bytes@ == bytes_of_uuid(uuid),
        bytes@.len() == 16,
{
    proof {
        lemma_uuid_bytes_round_trip(uuid);
    }
    uuid_into_bytes(uuid)
}

/// An identifier written to bytes and read back is the same identifier, and
/// the bytes are sixteen.
pub proof fn lemma_uuid_bytes_round_trip(uuid: Uuid)
    ensures
        bytes_of_uuid(uuid).len() == 16,
        uuid_of_bytes(bytes_of_uuid(uuid)) == uuid,
{
    lemma_auto_spec_u128_to_from_le_bytes();
    let le = spec_u128_to_le_bytes(uuid);
    assert(le.reverse().reverse() =~= le);
}

/// Sixteen bytes read as an identifier and written back are the same bytes.
pub proof fn lemma_bytes_uuid_round_trip(bytes: Seq<u8>)
    requires
        bytes.len() == 16,
    ensures
        bytes_of_uuid(uuid_of_bytes(bytes)) == bytes,
{
    lemma_auto_spec_u128_to_from_le_bytes();
    assert(bytes.reverse().len() == 16);
    assert(bytes.reverse().reverse() =~= bytes);
}

} // verus!
