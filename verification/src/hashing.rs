//! Content-derived identifiers: the packed encoding of a property's name
//! and worth, and its Keccak-256 digest.

use crate::primitives::{Bytes32, U256};
use vstd::arithmetic::power::pow;
use vstd::prelude::*;
use vstd::utf8::encode_utf8;

verus! {

/// The Keccak-256 digest of a byte string.
pub uninterp spec fn keccak256_digest(bytes: Seq<u8>) -> Bytes32;

/// The 32 bytes of a number below two to the 256, most significant first.
pub open spec fn be_bytes32(n: nat) -> Seq<u8> {
    Seq::new(32, |i: int| ((n as int / pow(256, (31 - i) as nat)) % 256) as u8)
}

/// The packed encoding of a name and a worth: the name's UTF-8 bytes, then
/// the worth as 32 big-endian bytes, with nothing in between.
pub open spec fn packed_encoding(name: Seq<char>, worth: nat) -> Seq<u8> {
    encode_utf8(name) + be_bytes32(worth)
}

/// The identifier of the property with this name and worth.
pub open spec fn prop_id_of(name: Seq<char>, worth: nat) -> Bytes32 {
    keccak256_digest(packed_encoding(name, worth))
}

/// The packed encoding of `(name, worth)`.
///
/// Trusted: calls `alloy_sol_types::SolValue::abi_encode_packed` on the pair
/// `(String, U256)`, which writes the string's bytes as they are and then
/// the integer's 32 big-endian bytes.
#[verifier::external_body]
pub(crate) fn encode_packed(name: &String, worth: U256) -> (r: Vec<u8>)
    ensures
        r@ == packed_encoding(name@, worth@),
{
    alloy_sol_types::SolValue::abi_encode_packed(
        &(name.clone(), alloy_primitives::U256::from_limbs(worth.into_limbs())),
    )
}

/// The Keccak-256 digest of `bytes`.
///
/// Trusted: calls `stylus_sdk::crypto::keccak`, which hashes the bytes with
/// `alloy_primitives::keccak256`; the digest depends on the bytes alone.
#[verifier::external_body]
pub(crate) fn keccak(bytes: &Vec<u8>) -> (r: Bytes32)
    ensures
        r == keccak256_digest(bytes@),
{
    Bytes32::new(stylus_sdk::crypto::keccak(bytes).0)
}

/// Computes the identifier of the property with this name and worth.
pub fn prop_id(name: &String, worth: U256) -> (r: Bytes32)
    ensures
        r == prop_id_of(name@, worth@),
{
    let packed = encode_packed(name, worth);
    keccak(&packed)
}

} // verus!
