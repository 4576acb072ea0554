//! Ciphersuites: a group bound to its hash, under the name that separates the
//! protocol's domain, with the hash derivations that the protocol uses.

use vstd::prelude::*;
use vstd::string::StringExecFns;
use hmac::{Hmac, Mac};
use sha2::Sha512;
use crate::errors::{err_finalization, OprfError};
use crate::oprf::groups::ristretto::{ristretto_hash_to_group, sha512, GroupElement};
use crate::oprf::groups::PrimeOrderGroup;
use crate::utils::hkdf::Hkdf;

verus! {

/// The error with which `hmac` refuses a key.
#[verifier::external_type_specification]
#[verifier::external_body]
pub struct ExInvalidKeyLength(hmac::crypto_mac::InvalidKeyLength);

/// The HMAC-SHA-512 tag of `input` under `key`.
pub uninterp spec fn hmac_sha512(key: Seq<u8>, input: Seq<u8>) -> Seq<u8>;

/// `Mac::new_varkey`, `Mac::input` and `Mac::result` of `Hmac<Sha512>`: the
/// 64-byte tag of `input` under `key`. `new_varkey` of `Hmac` takes a key of
/// any length, the empty one too, and returns `Ok` on every path.
#[verifier::external_body]
fn hmac_sha512_tag(key: &[u8], input: &[u8]) -> (res: Result<Vec<u8>, hmac::crypto_mac::InvalidKeyLength>)
    ensures
        res is Ok,
        res matches Ok(tag) ==> tag@ == hmac_sha512(key@, input@) && tag@.len() == 64,
{
    let mut mac = Hmac::<Sha512>::new_varkey(key)?;
    mac.input(input);
    Ok(mac.result().code().to_vec())
}

/// A set of primitives that makes a ciphersuite, under its name.
pub trait Supported {
    /// The name of the set of primitives.
    spec fn spec_name(&self) -> Seq<char>;

    /// The name of the set of primitives.
    fn name(&self) -> (s: String)
        ensures
            s@ == self.spec_name(),
    ;
}

impl Supported for PrimeOrderGroup {
    open spec fn spec_name(&self) -> Seq<char> {
        "ristretto255-SHA512-HKDF-ELL2-RO"@
    }

    fn name(&self) -> (s: String) {
        String::from_str("ristretto255-SHA512-HKDF-ELL2-RO")
    }
}

/// The name of a supported set of primitives.
pub fn get_name<S: Supported>(x: &S) -> (s: String)
    ensures
        s@ == x.spec_name(),
{
    x.name()
}

/// The name of the suite over the primitives named `group_name`: the mode's
/// prefix, then that name.
pub open spec fn suite_name(verifiable: bool, group_name: Seq<char>) -> Seq<char> {
    if verifiable {
        "VOPRF-"@ + group_name
    } else {
        "OPRF-"@ + group_name
    }
}

/// A group with its hash, in plain or verifiable mode.
#[derive(Clone, Debug)]
pub struct Ciphersuite {
    /// The suite's name, which is the protocol's domain separator.
    pub name: String,
    /// Whether evaluations carry a proof.
    pub verifiable: bool,
    /// The group.
    pub pog: PrimeOrderGroup,
}

impl Ciphersuite {
    /// The suite over `pog`, verifiable or not.
    pub fn new(pog: PrimeOrderGroup, verifiable: bool) -> (ciph: Ciphersuite)
        ensures
            ciph.name@ == suite_name(verifiable, pog.spec_name()),
            verifiable ==> ciph.name@ == "VOPRF-ristretto255-SHA512-HKDF-ELL2-RO"@,
            !verifiable ==> ciph.name@ == "OPRF-ristretto255-SHA512-HKDF-ELL2-RO"@,
            ciph.verifiable == verifiable,
            ciph.pog == pog,
    {
        let mut name = String::from_str("");
        if verifiable {
            name.append("VOPRF-");
        } else {
            name.append("OPRF-");
        }
        let group_name = get_name(&pog);
        name.append(group_name.as_str());
        proof {
            reveal_strlit("");
            reveal_strlit("VOPRF-");
            reveal_strlit("OPRF-");
            reveal_strlit("ristretto255-SHA512-HKDF-ELL2-RO");
            reveal_strlit("VOPRF-ristretto255-SHA512-HKDF-ELL2-RO");
            reveal_strlit("OPRF-ristretto255-SHA512-HKDF-ELL2-RO");
            assert(name@ =~= suite_name(verifiable, pog.spec_name()));
            if verifiable {
                assert(name@ =~= "VOPRF-ristretto255-SHA512-HKDF-ELL2-RO"@);
            } else {
                assert(name@ =~= "OPRF-ristretto255-SHA512-HKDF-ELL2-RO"@);
            }
        }
        Ciphersuite { name: name, verifiable: verifiable, pog: pog }
    }

    /// The element that `buf` is hashed to.
    pub fn h1(&self, buf: Vec<u8>) -> (p: GroupElement)
        ensures
            p@ == ristretto_hash_to_group(buf@),
    {
        self.pog.encode_to_group(buf)
    }

    /// The HMAC tag of `inp` under `key`, with the suite's hash: 64 bytes.
    /// Every key is accepted, the empty one too.
    pub fn h2(&self, key: Vec<u8>, inp: Vec<u8>) -> (res: Result<Vec<u8>, OprfError>)
        ensures
            res matches Ok(tag) && tag@ == hmac_sha512(key@, inp@) && tag@.len() == 64,
    {
        match hmac_sha512_tag(key.as_slice(), inp.as_slice()) {
            Ok(tag) => Ok(tag),
            Err(_) => Err(err_finalization()),
        }
    }

    /// The digest of `inp` under the suite's hash.
    fn hash_generic(&self, inp: Vec<u8>) -> (digest: Vec<u8>)
        ensures
            digest@ == sha512(inp@),
            digest@.len() == 64,
    {
        self.pog.hash(inp)
    }

    /// The digest of `inp` under the suite's hash.
    pub fn h3(&self, inp: Vec<u8>) -> (digest: Vec<u8>)
        ensures
            digest@ == sha512(inp@),
            digest@.len() == 64,
    {
        self.hash_generic(inp)
    }

    /// The digest of `inp` under the suite's hash.
    pub fn h4(&self, inp: Vec<u8>) -> (digest: Vec<u8>)
        ensures
            digest@ == sha512(inp@),
            digest@.len() == 64,
    {
        self.hash_generic(inp)
    }

    /// A handle on the suite's key derivation function.
    pub fn h5(&self) -> (kdf: Hkdf)
        ensures
            kdf == (Hkdf {  }),
    {
        Hkdf {  }
    }
}

} // verus!
