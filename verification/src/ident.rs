//! Document identifiers: 128-bit values written as 26 characters of
//! Crockford base 32, either supplied with the document or derived from its
//! title by hashing.

use vstd::prelude::*;

verus! {

/// Why a text is not an identifier.
#[derive(Clone, Copy, Debug, PartialEq, Eq, Structural)]
pub enum IdError {
    /// The text is not 26 bytes long.
    InvalidLength,
    /// The text holds a byte outside the alphabet.
    InvalidChar,
}

/// The 128-bit XXH3 hash of a byte string, as `xxhash_rust` computes it with
/// seed 0 and its default secret.
pub uninterp spec fn xxh3_128_digest(bytes: Seq<u8>) -> u128;

/// The 26 characters that `ulid` writes for a 128-bit value.
pub uninterp spec fn ulid_text(value: u128) -> Seq<char>;

/// The value that `ulid` reads from a text, where it reads one.
pub uninterp spec fn ulid_value(text: Seq<char>) -> Option<u128>;

/// The low 80 bits set: the bits of an identifier that are taken from the
/// hash. The 48 bits above them hold a timestamp, which is zero for a
/// derived identifier.
pub const HASH_MASK: u128 = 0xFFFF_FFFF_FFFF_FFFF_FFFF;

/// The low 48 bits set: the bits of a timestamp that an identifier holds.
pub const TIME_MASK: u64 = 0xFFFF_FFFF_FFFF;

/// The identifier that a title stands for when the document names none: the
/// low 80 bits of the title's hash under a zero timestamp.
pub open spec fn derived_id(title: Seq<char>) -> u128 {
    xxh3_128_digest(vstd::utf8::encode_utf8(title)) & HASH_MASK
}

/// Calls `xxhash_rust::xxh3::xxh3_128`. The contract only names the result:
/// the hash is a function of the bytes alone.
#[verifier::external_body]
fn hash_bytes(data: &[u8]) -> (digest: u128)
    ensures
        digest == xxh3_128_digest(data@),
{
    xxhash_rust::xxh3::xxh3_128(data)
}

/// Calls `ulid::Ulid::from_parts` and hands back the identifier's value.
/// The low 48 bits of the timestamp are placed above the low 80 bits of
/// `random`; bits beyond those are dropped.
#[verifier::external_body]
fn id_from_parts(timestamp_ms: u64, random: u128) -> (id: u128)
    ensures
        id == (((timestamp_ms & TIME_MASK) as u128) << 80) | (random & HASH_MASK),
{
    ulid::Ulid::from_parts(timestamp_ms, random).0
}

/// Calls `ulid::Ulid::to_string`. The text is named by `ulid_text`, and
/// reading it back gives the same value.
#[verifier::external_body]
pub(crate) fn encode_id(id: u128) -> (text: String)
    ensures
        text@ == ulid_text(id),
        ulid_value(text@) == Some(id),
{
    ulid::Ulid(id).to_string()
}

/// Calls `ulid::Ulid::from_string`. The value read is named by
/// `ulid_value`; a text that is not 26 bytes long is refused as
/// `InvalidLength`, any other refusal is `InvalidChar`.
#[verifier::external_body]
pub(crate) fn decode_id(text: &str) -> (r: Result<u128, IdError>)
    ensures
        match r {
            Ok(id) => ulid_value(text@) == Some(id),
            Err(e) => ulid_value(text@) is None && (e == IdError::InvalidLength
                <==> vstd::utf8::encode_utf8(text@).len() != 26),
        },
{
    match ulid::Ulid::from_string(text) {
        Ok(id) => Ok(id.0),
        Err(ulid::DecodeError::InvalidLength) => Err(IdError::InvalidLength),
        Err(ulid::DecodeError::InvalidChar) => Err(IdError::InvalidChar),
    }
}

/// Derives an identifier from a text by hashing it, so that the same text
/// always yields the same identifier.
pub fn ulid_from_string(input: &str) -> (id: u128)
    ensures
        id == derived_id(input@),
        id <= HASH_MASK,
{
    let hash = hash_bytes(input.as_bytes());
    assert(((((0u64 & 0xFFFF_FFFF_FFFFu64) as u128) << 80) | (hash
        & 0xFFFF_FFFF_FFFF_FFFF_FFFFu128)) == hash & 0xFFFF_FFFF_FFFF_FFFF_FFFFu128)
        by (bit_vector);
    assert(hash & 0xFFFF_FFFF_FFFF_FFFF_FFFFu128 <= 0xFFFF_FFFF_FFFF_FFFF_FFFFu128)
        by (bit_vector);
    id_from_parts(0, hash)
}

} // verus!
