//! HKDF with SHA-512: the extract and expand steps, over byte vectors.

use vstd::prelude::*;
use crypto::digest::Digest;

verus! {

/// The pseudorandom key that HKDF-Extract with SHA-512 derives from a salt and
/// input keying material.
pub uninterp spec fn hkdf_extract_sha512(salt: Seq<u8>, ikm: Seq<u8>) -> Seq<u8>;

/// The `len` bytes of output keying material that HKDF-Expand with SHA-512
/// derives from a pseudorandom key and a context string.
pub uninterp spec fn hkdf_expand_sha512(prk: Seq<u8>, info: Seq<u8>, len: nat) -> Seq<u8>;

/// The longest output that HKDF-Expand with SHA-512 gives: 255 blocks of 64 bytes.
pub const HKDF_MAX_OUTPUT: usize = 16320;

/// `crypto::hkdf::hkdf_extract` with `crypto::sha2::Sha512`, into a buffer of
/// 64 bytes: the pseudorandom key, which is as long as a SHA-512 digest.
#[verifier::external_body]
fn sha512_hkdf_extract(salt: &[u8], ikm: &[u8]) -> (prk: Vec<u8>)
    ensures
        prk@ == hkdf_extract_sha512(salt@, ikm@),
        prk@.len() == 64,
{
    let mut out = [0u8; 64];
    crypto::hkdf::hkdf_extract(crypto::sha2::Sha512::new(), salt, ikm, &mut out);
    out.to_vec()
}

/// `crypto::hkdf::hkdf_expand` with `crypto::sha2::Sha512`, into a buffer of
/// `len` bytes, which it fills. It panics where more than 255 blocks are
/// asked for; `requires` leaves those lengths out.
#[verifier::external_body]
fn sha512_hkdf_expand(prk: &[u8], info: &[u8], len: usize) -> (okm: Vec<u8>)
    requires
        len <= HKDF_MAX_OUTPUT,
    ensures
        okm@ == hkdf_expand_sha512(prk@, info@, len as nat),
        okm@.len() == len,
{
    let mut out = vec![0u8; len];
    crypto::hkdf::hkdf_expand(crypto::sha2::Sha512::new(), prk, info, &mut out);
    out
}

/// A handle on HKDF with SHA-512.
#[derive(Clone, Copy, Debug)]
pub struct Hkdf {}

impl Hkdf {
    /// HKDF-Extract: the 64-byte pseudorandom key for the salt `seed` and the
    /// input keying material `secret`.
    pub fn extract(&self, seed: Vec<u8>, secret: Vec<u8>) -> (prk: Vec<u8>)
        ensures
            prk@ == hkdf_extract_sha512(seed@, secret@),
            prk@.len() == 64,
    {
        sha512_hkdf_extract(seed.as_slice(), secret.as_slice())
    }

    /// HKDF-Expand: `len` bytes of output keying material for the pseudorandom
    /// key `prk` and the context `info`.
    pub fn expand(&self, prk: Vec<u8>, info: Vec<u8>, len: usize) -> (okm: Vec<u8>)
        requires
            len <= HKDF_MAX_OUTPUT,
        ensures
            okm@ == hkdf_expand_sha512(prk@, info@, len as nat),
            okm@.len() == len,
    {
        sha512_hkdf_expand(prk.as_slice(), info.as_slice(), len)
    }
}

} // verus!
