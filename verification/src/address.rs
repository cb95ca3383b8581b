//! Base58-check addresses: the text by which an output names its owner.

use vstd::prelude::*;
use crate::digest::{base58, base58_encode, ripemd160, ripemd160_digest, sha256, sha256_digest};
use crate::text::push_bytes;

verus! {

/// The version byte that every address payload starts with.
pub const ADDRESS_VERSION: u8 = 0x00;

/// The version byte followed by the RIPEMD-160 digest of the SHA-256 digest
/// of a public key.
pub open spec fn address_payload(key: Seq<u8>) -> Seq<u8> {
    seq![ADDRESS_VERSION] + ripemd160(sha256(key))
}

/// The first four bytes of the double SHA-256 digest of a payload.
pub open spec fn checksum(payload: Seq<u8>) -> Seq<u8> {
    sha256(sha256(payload)).take(4)
}

/// The address of a public key: the base58 text of its payload followed by
/// the payload's checksum.
pub open spec fn address_of(key: Seq<u8>) -> Seq<char> {
    base58(address_payload(key) + checksum(address_payload(key)))
}

/// Derives the address of a public key given in serialized form.
pub fn derive_address(key: &[u8]) -> (address: String)
    ensures
        address@ == address_of(key@),
{
    let key_digest = sha256_digest(key);
    let owner = ripemd160_digest(key_digest.as_slice());
    let mut payload: Vec<u8> = Vec::new();
    payload.push(ADDRESS_VERSION);
    push_bytes(&mut payload, owner.as_slice());
    let first = sha256_digest(payload.as_slice());
    let second = sha256_digest(first.as_slice());
    let mut i: usize = 0;
    while i < 4
        invariant
            i <= 4,
            second@.len() == 32,
            payload@ == address_payload(key@) + second@.take(i as int),
        decreases 4 - i,
    {
        payload.push(second[i]);
        i += 1;
    }
    base58_encode(payload.as_slice())
}

} // verus!
