//! Digest primitives used by the signer: SHA-512 for the body hash and
//! HMAC-SHA512 for the request signature. The digests themselves are
//! outside computations; their results are given names that the signing
//! contracts are stated over.

use vstd::prelude::*;

use hmac::{Hmac, KeyInit, Mac};
use sha2::{Digest, Sha512};

verus! {

pub uninterp spec fn sha512_of(data: Seq<u8>) -> Seq<u8>;

pub uninterp spec fn hmac_sha512_of(key: Seq<u8>, data: Seq<u8>) -> Seq<u8>;

/// Relies on sha2::Sha512 through the Digest trait: the digest is a
/// function of the input bytes alone and is 64 bytes long.
#[verifier::external_body]
pub fn sha512_digest(data: &[u8]) -> (r: Vec<u8>)
    ensures
        r@ == sha512_of(data@),
        r@.len() == 64,
{
    let mut hasher = Sha512::new();
    hasher.update(data);
    hasher.finalize().to_vec()
}

/// Relies on hmac::Hmac<sha2::Sha512> through the Mac trait: the tag is a
/// function of key and message alone and is 64 bytes long; per the hmac
/// source, new_from_slice accepts keys of any length.
#[verifier::external_body]
pub fn hmac_sha512(key: &[u8], data: &[u8]) -> (r: Vec<u8>)
    ensures
        r@ == hmac_sha512_of(key@, data@),
        r@.len() == 64,
{
    let mut mac = <Hmac<Sha512>>::new_from_slice(key).expect("HMAC accepts keys of any length");
    mac.update(data);
    mac.finalize().into_bytes().to_vec()
}

} // verus!
