//! Elliptic-curve keys and signatures over secp256k1.
//!
//! The curve arithmetic belongs to the `secp256k1` and `k256` crates. Keys,
//! digests and signatures cross this boundary as plain bytes, and what the
//! crates compute from them is known to the proofs only by name.

use vstd::prelude::*;

verus! {

/// The 33-byte compressed form of the public key that `encoded` stands for,
/// if it stands for one.
pub uninterp spec fn public_key(encoded: Seq<u8>) -> Option<Seq<u8>>;

/// The compressed public key that belongs to a secret key, if the bytes are a
/// secret key.
pub uninterp spec fn secret_public_key(secret: Seq<u8>) -> Option<Seq<u8>>;

/// Whether `signature`, in DER form, is an ECDSA signature of the 32-byte
/// `digest` under the public key that `key` stands for.
pub uninterp spec fn ecdsa_verifies(digest: Seq<u8>, signature: Seq<u8>, key: Seq<u8>) -> bool;

/// The DER form of the deterministic (RFC 6979) ECDSA signature of a 32-byte
/// `digest` under a secret key, if the bytes are a digest and a secret key.
pub uninterp spec fn ecdsa_signature(digest: Seq<u8>, secret: Seq<u8>) -> Option<Seq<u8>>;

/// The 64-byte fixed-size form of the deterministic ECDSA signature that a
/// secret key makes of the SHA-256 digest of `message`, if the bytes are a
/// secret key.
pub uninterp spec fn compact_signature(secret: Seq<u8>, message: Seq<u8>) -> Option<Seq<u8>>;

/// Parses a public key with `secp256k1::PublicKey::from_slice` and writes it
/// back with `PublicKey::serialize`.
///
/// Trusted: the result is the key named [`public_key`]; a key in compressed
/// form has 33 bytes.
#[verifier::external_body]
pub(crate) fn parse_public_key(encoded: &[u8]) -> (out: Option<Vec<u8>>)
    ensures
        match out {
            Some(key) => public_key(encoded@) == Some(key@) && key@.len() == 33,
            None => public_key(encoded@) is None,
        },
{
    match secp256k1::PublicKey::from_slice(encoded) {
        Ok(key) => Some(key.serialize().to_vec()),
        Err(_) => None,
    }
}

/// Reads a secret key with `secp256k1::SecretKey::from_slice` and derives its
/// public key with `PublicKey::from_secret_key`.
///
/// Trusted: the result is the key named [`secret_public_key`]; a key in
/// compressed form has 33 bytes.
#[verifier::external_body]
pub(crate) fn derive_public_key(secret: &[u8]) -> (out: Option<Vec<u8>>)
    ensures
        match out {
            Some(key) => secret_public_key(secret@) == Some(key@) && key@.len() == 33,
            None => secret_public_key(secret@) is None,
        },
{
    let context = secp256k1::Secp256k1::new();
    match secp256k1::SecretKey::from_slice(secret) {
        Ok(key) => Some(secp256k1::PublicKey::from_secret_key(&context, &key).serialize().to_vec()),
        Err(_) => None,
    }
}

/// Checks a signature with `secp256k1::Secp256k1::verify_ecdsa`, after
/// reading the digest, the DER signature and the public key from their bytes.
///
/// Trusted: the result is the verdict named [`ecdsa_verifies`], which is
/// false when one of the three cannot be read.
#[verifier::external_body]
pub(crate) fn verify_signature(digest: &[u8], signature: &[u8], key: &[u8]) -> (ok: bool)
    ensures
        ok == ecdsa_verifies(digest@, signature@, key@),
{
    let message = secp256k1::Message::from_digest_slice(digest);
    let signature = secp256k1::ecdsa::Signature::from_der(signature);
    let key = secp256k1::PublicKey::from_slice(key);
    match (message, signature, key) {
        (Ok(m), Ok(s), Ok(k)) => secp256k1::Secp256k1::new().verify_ecdsa(&m, &s, &k).is_ok(),
        _ => false,
    }
}

/// Signs a digest with `secp256k1::Secp256k1::sign_ecdsa`, after reading the
/// digest and the secret key from their bytes, and writes the signature with
/// `Signature::serialize_der`.
///
/// Trusted: the result is the signature named [`ecdsa_signature`].
#[verifier::external_body]
pub(crate) fn sign_digest(digest: &[u8], secret: &[u8]) -> (out: Option<Vec<u8>>)
    ensures
        match out {
            Some(signature) => ecdsa_signature(digest@, secret@) == Some(signature@),
            None => ecdsa_signature(digest@, secret@) is None,
        },
{
    let message = secp256k1::Message::from_digest_slice(digest);
    let key = secp256k1::SecretKey::from_slice(secret);
    match (message, key) {
        (Ok(m), Ok(k)) => Some(secp256k1::Secp256k1::new().sign_ecdsa(&m, &k).serialize_der().to_vec()),
        _ => None,
    }
}

/// Signs a message with `k256::ecdsa::SigningKey::sign`, after reading the
/// key with `SigningKey::from_slice`, and writes the signature with
/// `Signature::to_bytes`.
///
/// Trusted: the result is the signature named [`compact_signature`].
#[verifier::external_body]
pub(crate) fn sign_message(secret: &[u8], message: &[u8]) -> (out: Option<Vec<u8>>)
    ensures
        match out {
            Some(signature) => compact_signature(secret@, message@) == Some(signature@),
            None => compact_signature(secret@, message@) is None,
        },
{
    match k256::ecdsa::SigningKey::from_slice(secret) {
        Ok(key) => {
            let signature: k256::ecdsa::Signature = k256::ecdsa::signature::Signer::sign(&key, message);
            Some(signature.to_bytes().to_vec())
        },
        Err(_) => None,
    }
}

/// Draws `length` bytes from the operating system with
/// `rand::rngs::OsRng::try_fill_bytes`.
///
/// Trusted: a draw that succeeds has `length` bytes. Nothing else is claimed
/// of it: two draws differ.
#[verifier::external_body]
pub(crate) fn random_bytes(length: usize) -> (out: Option<Vec<u8>>)
    ensures
        out is Some ==> out.unwrap()@.len() == length,
{
    let mut bytes = vec![0u8; length];
    match rand::RngCore::try_fill_bytes(&mut rand::rngs::OsRng, &mut bytes) {
        Ok(()) => Some(bytes),
        Err(_) => None,
    }
}

} // verus!
