//! SHA-256 hashing and RSA-2048 PKCS#1 v1.5 signature verification, through
//! the outside digest and RSA crates.
use rsa::BigUint;
use sha2::{Digest, Sha256};
use vstd::prelude::*;

verus! {

/// The SHA-256 digest of a byte sequence.
pub uninterp spec fn sha256_of(data: Seq<u8>) -> Seq<u8>;

/// Relies on sha2's Sha256: the 32-byte digest is a function of the input
/// bytes alone.
#[verifier::external_body]
pub fn sha256(data: &[u8]) -> (r: Vec<u8>)
    ensures
        r@ == sha256_of(data@),
        r@.len() == 32,
{
    Sha256::digest(data).to_vec()
}

/// Whether `sig` is accepted as an RSA PKCS#1 v1.5 signature of the SHA-256
/// digest `hash` under the big-endian modulus `modulus` with public exponent
/// 0x10001.
pub uninterp spec fn rsa_pkcs1_sha256_ok(hash: Seq<u8>, sig: Seq<u8>, modulus: Seq<u8>) -> bool;

/// Relies on rsa's RsaPublicKey::verify with the Pkcs1v15Sign SHA-256
/// scheme: acceptance is a function of the digest, the signature and the key
/// bytes alone, and a malformed key or any padding failure is reported as an
/// error value, not a panic.
#[verifier::external_body]
fn rsa_verify_hash(hash: &[u8], signature: &[u8], public_key: &[u8]) -> (r: bool)
    ensures
        r == rsa_pkcs1_sha256_ok(hash@, signature@, public_key@),
{
    let n = BigUint::from_bytes_be(public_key);
    let e = BigUint::from(0x10001u32);
    match rsa::RsaPublicKey::new(n, e) {
        Ok(key) => key.verify(rsa::Pkcs1v15Sign::new::<Sha256>(), hash, signature).is_ok(),
        Err(_) => false,
    }
}

/// Whether `sig` is accepted as a signature over the bytes `data`.
pub open spec fn spec_verify_signature(data: Seq<u8>, sig: Seq<u8>, public_key: Seq<u8>) -> bool {
    rsa_pkcs1_sha256_ok(sha256_of(data), sig, public_key)
}

pub fn verify_signature(data: &[u8], signature: &[u8], public_key: &[u8]) -> (r: bool)
    ensures
        r == spec_verify_signature(data@, signature@, public_key@),
{
    let hash = sha256(data);
    rsa_verify_hash(hash.as_slice(), signature, public_key)
}

} // verus!
