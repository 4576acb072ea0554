//! Random bytes from the operating system, and byte-string helpers.

pub mod bytes;
pub mod hkdf;

use vstd::prelude::*;
use byteorder::{LittleEndian, WriteBytesExt};
use rand_core::{OsRng, RngCore};
use crate::utils::bytes::u32_le_bytes;

verus! {

/// `RngCore::next_u32` of `rand_core::OsRng`: the next 32 bits of the
/// operating system's random source. Nothing is known of them. The call
/// panics where the operating system gives no random bytes.
#[verifier::external_body]
fn os_random_u32() -> (word: u32) {
    let mut rng = OsRng;
    rng.next_u32()
}

/// `WriteBytesExt::write_u32::<LittleEndian>` of byteorder, into an empty
/// `Vec`: the four bytes of `word`, least significant first.
#[verifier::external_body]
pub(crate) fn u32_to_le_vec(word: u32) -> (out: Vec<u8>)
    ensures
        out@ == u32_le_bytes(word),
{
    let mut out = Vec::new();
    out.write_u32::<LittleEndian>(word).unwrap();
    out
}

/// How many bytes of a four-byte word are still wanted by a buffer that holds
/// `have` bytes and is to hold `want`.
pub open spec fn wanted_of_word(have: nat, want: nat) -> nat {
    if want <= have {
        0
    } else if want - have >= 4 {
        4
    } else {
        (want - have) as nat
    }
}

/// Appends to `concat` the little-endian bytes of `word`, as many of them as
/// `concat` still lacks to hold `byte_length` bytes.
pub fn fill_from_word(concat: &mut Vec<u8>, word: u32, byte_length: usize)
    ensures
        final(concat)@ == old(concat)@ + u32_le_bytes(word).subrange(
            0,
            wanted_of_word(old(concat)@.len(), byte_length as nat) as int,
        ),
{
    let vec = u32_to_le_vec(word);
    let mut ctr: usize = 0;
    while concat.len() < byte_length && ctr < 4
        invariant
            ctr <= 4,
            vec@ == u32_le_bytes(word),
            concat@ == old(concat)@ + vec@.subrange(0, ctr as int),
            ctr <= wanted_of_word(old(concat)@.len(), byte_length as nat),
            ctr < 4 && concat.len() >= byte_length ==> ctr == wanted_of_word(
                old(concat)@.len(),
                byte_length as nat,
            ),
        decreases 4 - ctr,
    {
        concat.push(vec[ctr]);
        ctr = ctr + 1;
        assert(vec@.subrange(0, ctr as int) =~= vec@.subrange(0, ctr - 1).push(vec@[ctr - 1]));
    }
}

/// `byte_length` bytes from the operating system's random source: 32-bit
/// words, each written least significant byte first, the last one cut where
/// the length is reached.
pub fn rand_bytes(byte_length: usize) -> (concat: Vec<u8>)
    ensures
        concat@.len() == byte_length,
{
    let mut concat: Vec<u8> = Vec::new();
    while concat.len() < byte_length
        invariant
            concat.len() <= byte_length,
        decreases byte_length - concat.len(),
    {
        let u: u32 = os_random_u32();
        fill_from_word(&mut concat, u, byte_length);
    }
    concat
}

} // verus!
