use vstd::prelude::*;

use crate::types::{Gender, KittyId};

verus! {

/// A `u32` as four little-endian bytes.
pub open spec fn le_bytes_u32(x: u32) -> Seq<u8> {
    seq![
        (x % 256) as u8,
        ((x / 256) % 256) as u8,
        ((x / 65536) % 256) as u8,
        ((x / 16777216) % 256) as u8,
    ]
}

/// The number whose little-endian base-256 digits are `s`.
pub open spec fn le_value(s: Seq<u8>) -> nat
    decreases s.len(),
{
    if s.len() == 0 {
        0
    } else {
        s[0] as nat + 256 * le_value(s.drop_first())
    }
}

/// The bytes that are hashed to make an identifier: the entropy, then the
/// execution index and the block number, each as four little-endian bytes.
pub open spec fn payload_bytes(random: Seq<u8>, index: u32, block: u32) -> Seq<u8> {
    random + le_bytes_u32(index) + le_bytes_u32(block)
}

/// The 128-bit Blake2 digest that `frame_support::Hashable::blake2_128`
/// gives for a byte vector holding `bytes`.
pub uninterp spec fn hashable_blake2_128(bytes: Seq<u8>) -> Seq<u8>;

/// The attribute carried by a digest: its first byte's parity.
pub open spec fn gender_of_byte(b: u8) -> Gender {
    if b % 2 == 0 {
        Gender::Male
    } else {
        Gender::Female
    }
}

/// The digest behind the identifier made from these inputs.
pub open spec fn digest_of(random: Seq<u8>, extrinsic_index: Option<u32>, block_number: u32) -> Seq<u8> {
    let index = match extrinsic_index {
        Some(i) => i,
        None => 0u32,
    };
    hashable_blake2_128(payload_bytes(random, index, block_number))
}

/// Relies on parity-scale-codec's `Encode` for a tuple, re-exported by
/// frame_support: the fields' encodings in order, where a byte array is its
/// bytes and a `u32` its four little-endian bytes.
#[verifier::external_body]
fn encode_payload(random: [u8; 32], index: u32, block: u32) -> (r: Vec<u8>)
    ensures
        r@ == payload_bytes(random@, index, block),
{
    frame_support::pallet_prelude::Encode::encode(&(random, index, block))
}

/// Relies on frame_support::Hashable::blake2_128, taken of a byte vector: a
/// digest that depends on the bytes alone.
#[verifier::external_body]
fn blake2_128_of(bytes: &Vec<u8>) -> (r: [u8; 16])
    ensures
        r@ == hashable_blake2_128(bytes@),
{
    frame_support::Hashable::blake2_128(bytes)
}

/// Relies on u128::from_le_bytes: the integer with these little-endian bytes.
#[verifier::external_body]
fn u128_from_le_bytes(b: [u8; 16]) -> (r: u128)
    ensures
        r as nat == le_value(b@),
{
    u128::from_le_bytes(b)
}

/// The identifier and attribute carried by a 16-byte digest: the digest read
/// as a little-endian number, and the parity of its first byte.
pub fn dna_from_digest(digest: [u8; 16]) -> (r: (KittyId, Gender))
    ensures
        r.0 as nat == le_value(digest@),
        r.1 == gender_of_byte(digest@[0]),
{
    let id = u128_from_le_bytes(digest);
    let gender = if digest[0] % 2 == 0 {
        Gender::Male
    } else {
        Gender::Female
    };
    (id, gender)
}

/// Makes a fresh identifier and its attribute from an entropy sample, the
/// index of the running extrinsic (zero when there is none) and the block
/// number. Nothing here guarantees that the identifier is unused.
pub fn gen_dna(random: [u8; 32], extrinsic_index: Option<u32>, block_number: u32) -> (r: (
    KittyId,
    Gender,
))
    ensures
        r.0 as nat == le_value(digest_of(random@, extrinsic_index, block_number)),
        r.1 == gender_of_byte(digest_of(random@, extrinsic_index, block_number)[0]),
{
    let index: u32 = match extrinsic_index {
        Some(i) => i,
        None => 0,
    };
    let payload = encode_payload(random, index, block_number);
    let digest = blake2_128_of(&payload);
    dna_from_digest(digest)
}

} // verus!
