//! ristretto255: group elements held as their canonical 32-byte encoding, the
//! operations of the group, and proofs of discrete-log equality over it. The
//! curve arithmetic is that of `curve25519_dalek`, the hash is SHA-512.

use vstd::prelude::*;
use vstd::arithmetic::div_mod::{lemma_add_mod_noop, lemma_small_mod};
use vstd::slice::slice_to_vec;
use curve25519_dalek::constants::RISTRETTO_BASEPOINT_POINT;
use curve25519_dalek::ristretto::{CompressedRistretto, RistrettoPoint};
use rand_core::OsRng;
use sha2::{Digest, Sha512};
use crate::errors::{err_deserialization, ErrorKind, OprfError};
use crate::oprf::groups::PrimeOrderGroup;
use crate::oprf::groups::scalar::{
    group_order, lemma_scalar_encoding_round_trip, scalar_encoding, scalar_inverse, scalar_value,
    Scalar,
};
use crate::utils::bytes::{append_bytes, bytes_equal, clone_bytes, concat_all, le_nat};
use crate::utils::hkdf::{hkdf_extract_sha512, Hkdf};
use crate::utils::bytes::u32_le_bytes;
use crate::utils::{rand_bytes, u32_to_le_vec};

verus! {

/// The length in bytes of an encoded element of ristretto255.
pub const RISTRETTO_BYTE_LENGTH: usize = 32;

/// Whether `bytes` decompress to a point: whether they are the canonical
/// encoding of an element of ristretto255.
pub uninterp spec fn ristretto_decodes(bytes: Seq<u8>) -> bool;

/// The encoding of the product of the element encoded by `p` and the scalar `k`.
pub uninterp spec fn ristretto_mul(p: Seq<u8>, k: nat) -> Seq<u8>;

/// The encoding of the sum of the elements encoded by `p` and `q`.
pub uninterp spec fn ristretto_add(p: Seq<u8>, q: Seq<u8>) -> Seq<u8>;

/// The encoding of the element that `input` is hashed to.
pub uninterp spec fn ristretto_hash_to_group(input: Seq<u8>) -> Seq<u8>;

/// The SHA-512 digest of `data`.
pub uninterp spec fn sha512(data: Seq<u8>) -> Seq<u8>;

/// The canonical encoding of the ristretto255 base point.
pub open spec fn basepoint_encoding() -> Seq<u8> {
    seq![
        0xe2u8, 0xf2u8, 0xaeu8, 0x0au8, 0x6au8, 0xbcu8, 0x4eu8, 0x71u8,
        0xa8u8, 0x84u8, 0xa9u8, 0x61u8, 0xc5u8, 0x00u8, 0x51u8, 0x5fu8,
        0x58u8, 0xe3u8, 0x0bu8, 0x6au8, 0xa5u8, 0x82u8, 0xddu8, 0x8du8,
        0xb6u8, 0xa6u8, 0x59u8, 0x45u8, 0xe0u8, 0x8du8, 0x2du8, 0x76u8,
    ]
}

/// Whether `bytes` encode an element: 32 bytes that decompress.
pub open spec fn is_element_encoding(bytes: Seq<u8>) -> bool {
    bytes.len() == 32 && ristretto_decodes(bytes)
}

/// `CompressedRistretto::decompress`: whether it yields a point, which it
/// does for the canonical encoding of a point and for nothing else.
#[verifier::external_body]
fn dalek_decodes(bytes: &[u8; 32]) -> (ok: bool)
    ensures
        ok == ristretto_decodes(bytes@),
{
    CompressedRistretto(*bytes).decompress().is_some()
}

/// `RISTRETTO_BASEPOINT_POINT`, compressed: the encoding that the crate also
/// holds as `RISTRETTO_BASEPOINT_COMPRESSED`.
#[verifier::external_body]
fn dalek_basepoint() -> (out: [u8; 32])
    ensures
        out@ == basepoint_encoding(),
        ristretto_decodes(out@),
{
    RISTRETTO_BASEPOINT_POINT.compress().to_bytes()
}

/// `Mul` of a `RistrettoPoint` and a `Scalar`, between `decompress` and
/// `compress`; the scalar is read with `Scalar::from_bytes_mod_order`. The
/// result is a point's encoding, so it decompresses.
#[verifier::external_body]
fn dalek_mul(p: &[u8; 32], k: &[u8; 32]) -> (out: [u8; 32])
    requires
        ristretto_decodes(p@),
    ensures
        out@ == ristretto_mul(p@, le_nat(k@) % group_order()),
        ristretto_decodes(out@),
{
    let point = CompressedRistretto(*p).decompress().unwrap();
    let scalar = curve25519_dalek::scalar::Scalar::from_bytes_mod_order(*k);
    (point * scalar).compress().to_bytes()
}

/// `Add` of two `RistrettoPoint`s, between `decompress` and `compress`. The
/// result is a point's encoding, so it decompresses.
#[verifier::external_body]
fn dalek_add(p: &[u8; 32], q: &[u8; 32]) -> (out: [u8; 32])
    requires
        ristretto_decodes(p@),
        ristretto_decodes(q@),
    ensures
        out@ == ristretto_add(p@, q@),
        ristretto_decodes(out@),
{
    let a = CompressedRistretto(*p).decompress().unwrap();
    let b = CompressedRistretto(*q).decompress().unwrap();
    (a + b).compress().to_bytes()
}

/// `PartialEq` of `RistrettoPoint`, which is its constant-time equality, after
/// `decompress`. The encoding is canonical: two points are equal exactly when
/// their encodings are.
#[verifier::external_body]
fn dalek_points_equal(p: &[u8; 32], q: &[u8; 32]) -> (same: bool)
    requires
        ristretto_decodes(p@),
        ristretto_decodes(q@),
    ensures
        same == (p@ == q@),
{
    let a = CompressedRistretto(*p).decompress().unwrap();
    let b = CompressedRistretto(*q).decompress().unwrap();
    a == b
}

/// `RistrettoPoint::hash_from_bytes` with SHA-512, compressed: a function of
/// the input alone, and a point's encoding.
#[verifier::external_body]
fn dalek_hash_to_group(input: &[u8]) -> (out: [u8; 32])
    ensures
        out@ == ristretto_hash_to_group(input@),
        ristretto_decodes(out@),
{
    RistrettoPoint::hash_from_bytes::<Sha512>(input).compress().to_bytes()
}

/// `RistrettoPoint::random` with `rand_core::OsRng`, compressed: the encoding
/// of some point. The call panics where the operating system gives no random
/// bytes.
#[verifier::external_body]
fn dalek_random_point() -> (out: [u8; 32])
    ensures
        ristretto_decodes(out@),
{
    let mut rng = OsRng;
    RistrettoPoint::random(&mut rng).compress().to_bytes()
}

/// `Digest::input` and `Digest::result` of a fresh `sha2::Sha512`: the
/// 64-byte digest of `data`.
#[verifier::external_body]
fn sha512_digest(data: &[u8]) -> (out: Vec<u8>)
    ensures
        out@ == sha512(data@),
        out@.len() == 64,
{
    let mut hash = Sha512::new();
    hash.input(data);
    hash.result().to_vec()
}

/// An element of ristretto255, held as its canonical encoding.
#[derive(Clone, Copy, Debug, PartialEq, Eq)]
pub struct GroupElement {
    bytes: [u8; 32],
}

impl View for GroupElement {
    type V = Seq<u8>;

    closed spec fn view(&self) -> Seq<u8> {
        self.bytes@
    }
}

impl GroupElement {
    #[verifier::type_invariant]
    spec fn encodes_point(self) -> bool {
        ristretto_decodes(self.bytes@)
    }

    /// The canonical encoding of this element.
    pub fn to_bytes(&self) -> (bytes: [u8; 32])
        ensures
            bytes@ == self@,
            is_element_encoding(self@),
    {
        proof {
            use_type_invariant(self);
        }
        self.bytes
    }

    /// The element that `bytes` encode, if they encode one.
    pub fn from_bytes(bytes: [u8; 32]) -> (element: Option<GroupElement>)
        ensures
            element is Some <==> ristretto_decodes(bytes@),
            element matches Some(p) ==> p@ == bytes@,
    {
        if dalek_decodes(&bytes) {
            Some(GroupElement { bytes })
        } else {
            None
        }
    }
}

/// The first 32 bytes of `x`.
pub fn ristretto_convert_vec_to_fixed(x: Vec<u8>) -> (fixed: [u8; 32])
    requires
        x@.len() >= 32,
    ensures
        fixed@ == x@.subrange(0, 32),
{
    let mut inp_bytes: [u8; 32] = [0u8; 32];
    let mut i: usize = 0;
    while i < 32
        invariant
            i <= 32,
            x@.len() >= 32,
            forall|j: int| 0 <= j < i ==> inp_bytes@[j] == x@[j],
        decreases 32 - i,
    {
        inp_bytes[i] = x[i];
        i = i + 1;
    }
    assert(inp_bytes@ =~= x@.subrange(0, 32));
    inp_bytes
}

/// The scalar that the first 32 bytes of `x` stand for.
pub fn ristretto_scalar_from_vec(x: Vec<u8>) -> (s: Scalar)
    requires
        x@.len() >= 32,
    ensures
        s@ == scalar_value(x@),
        s@ < group_order(),
{
    Scalar::from_bytes_mod_order(ristretto_convert_vec_to_fixed(x))
}

/// 32 bytes of scalar material from the operating system's random source.
pub fn ristretto_sample_uniform_bytes() -> (bytes: Vec<u8>)
    ensures
        bytes@.len() == 32,
{
    let random_vec = rand_bytes(RISTRETTO_BYTE_LENGTH);
    let fixed = ristretto_convert_vec_to_fixed(random_vec);
    slice_to_vec(fixed.as_slice())
}

/// The canonical encoding of `p`, as a vector of 32 bytes.
pub fn ristretto_serialize(p: GroupElement) -> (bytes: Vec<u8>)
    ensures
        bytes@ == p@,
        is_element_encoding(p@),
{
    let fixed = p.to_bytes();
    slice_to_vec(fixed.as_slice())
}

/// The SHA-512 digest of `data`: 64 bytes.
pub fn ristretto_hash(data: &Vec<u8>) -> (digest: Vec<u8>)
    ensures
        digest@ == sha512(data@),
        digest@.len() == 64,
{
    sha512_digest(data.as_slice())
}

/// The base point, as an element.
pub fn ristretto_generator() -> (g: GroupElement)
    ensures
        g@ == basepoint_encoding(),
{
    GroupElement { bytes: dalek_basepoint() }
}

/// The product of the element `p` and the scalar `k`.
fn element_mul(p: GroupElement, k: &Scalar) -> (out: GroupElement)
    ensures
        out@ == ristretto_mul(p@, k@),
{
    proof {
        use_type_invariant(p);
    }
    let encoded = k.to_bytes();
    GroupElement { bytes: dalek_mul(&p.bytes, &encoded) }
}

/// The sum of the elements `p` and `q`.
fn element_add(p: GroupElement, q: GroupElement) -> (out: GroupElement)
    ensures
        out@ == ristretto_add(p@, q@),
{
    proof {
        use_type_invariant(p);
        use_type_invariant(q);
    }
    GroupElement { bytes: dalek_add(&p.bytes, &q.bytes) }
}

/// The encodings of `points`, in their order.
pub open spec fn encodings(points: Seq<GroupElement>) -> Seq<Seq<u8>> {
    points.map_values(|p: GroupElement| p@)
}

/// The two byte strings of a proof, in their order.
pub open spec fn proof_encoding(proof: [Vec<u8>; 2]) -> Seq<Seq<u8>> {
    seq![proof@[0]@, proof@[1]@]
}

/// The digest that binds a proof to `points`: SHA-512 of the generator's
/// encoding followed by the encodings of `points`.
pub open spec fn dleq_hash_spec(points: Seq<Seq<u8>>) -> Seq<u8> {
    sha512(basepoint_encoding() + concat_all(points))
}

/// The challenge of a proof for the public key `y`, the pair `m`, `z` and the
/// commitments `a`, `b`: the transcript digest, read as a scalar.
pub open spec fn dleq_challenge(
    y: Seq<u8>,
    m: Seq<u8>,
    z: Seq<u8>,
    a: Seq<u8>,
    b: Seq<u8>,
) -> nat {
    scalar_value(dleq_hash_spec(seq![y, m, z, a, b]))
}

/// The response to the challenge `c` for the nonce `t` and the key `k`:
/// `t - c * k` modulo the group order.
pub open spec fn dleq_response(t: nat, c: nat, k: nat) -> nat {
    ((t - (c * k) % group_order()) % (group_order() as int)) as nat
}

/// The proof, made with the nonce `t`, that the key `k` takes the generator
/// to `y` and `m` to `z`: the encodings of the challenge and of the response.
pub open spec fn dleq_proof(t: nat, k: nat, y: Seq<u8>, m: Seq<u8>, z: Seq<u8>) -> Seq<Seq<u8>> {
    let a = ristretto_mul(basepoint_encoding(), t);
    let b = ristretto_mul(m, t);
    let c = dleq_challenge(y, m, z, a, b);
    seq![scalar_encoding(c), scalar_encoding(dleq_response(t, c, k))]
}

/// Whether `proof` is accepted for the public key `y` and the pair `m`, `z`:
/// two strings of 32 bytes, the first of which is the canonical encoding of
/// the challenge recomputed from the commitments `s*G + c*Y` and `s*M + c*Z`.
pub open spec fn dleq_verifies(y: Seq<u8>, m: Seq<u8>, z: Seq<u8>, proof: Seq<Seq<u8>>) -> bool {
    &&& proof.len() == 2
    &&& proof[0].len() == 32
    &&& proof[1].len() == 32
    &&& {
        let c = scalar_value(proof[0]);
        let s = scalar_value(proof[1]);
        let a = ristretto_add(ristretto_mul(basepoint_encoding(), s), ristretto_mul(y, c));
        let b = ristretto_add(ristretto_mul(m, s), ristretto_mul(z, c));
        proof[0] == scalar_encoding(dleq_challenge(y, m, z, a, b))
    }
}

/// The response and the challenge times the key add up to the nonce again.
pub proof fn lemma_response_recombines(t: nat, c: nat, k: nat)
    requires
        t < group_order(),
    ensures
        dleq_response(t, c, k) < group_order(),
        (dleq_response(t, c, k) + (c * k) % group_order()) % group_order() == t,
{
    let l = group_order() as int;
    let p = ((c * k) % group_order()) as int;
    lemma_small_mod(p as nat, group_order());
    lemma_small_mod(t, group_order());
    lemma_add_mod_noop(t - p, p, l);
}

/// A proof is accepted wherever the commitments that the verifier puts
/// together from the response and the challenge are the ones that the prover
/// made from the nonce: both then hash the same transcript, and the challenge
/// is read back from its encoding unchanged.
pub proof fn lemma_dleq_accepts_when_commitments_agree(
    t: nat,
    k: nat,
    y: Seq<u8>,
    m: Seq<u8>,
    z: Seq<u8>,
)
    requires
        ({
            let a = ristretto_mul(basepoint_encoding(), t);
            let b = ristretto_mul(m, t);
            let c = dleq_challenge(y, m, z, a, b);
            let s = dleq_response(t, c, k);
            &&& ristretto_add(ristretto_mul(basepoint_encoding(), s), ristretto_mul(y, c)) == a
            &&& ristretto_add(ristretto_mul(m, s), ristretto_mul(z, c)) == b
        }),
    ensures
        dleq_verifies(y, m, z, dleq_proof(t, k, y, m, z)),
{
    let a = ristretto_mul(basepoint_encoding(), t);
    let b = ristretto_mul(m, t);
    let c = dleq_challenge(y, m, z, a, b);
    let s = dleq_response(t, c, k);
    lemma_scalar_encoding_round_trip(c);
    lemma_scalar_encoding_round_trip(s);
}

/// The transcript digest of `to_hash`: SHA-512 over the generator and then
/// each element, serialized.
pub fn ristretto_dleq_hash(to_hash: Vec<GroupElement>) -> (digest: Vec<u8>)
    ensures
        digest@ == dleq_hash_spec(encodings(to_hash@)),
        digest@.len() == 64,
{
    let mut buf = ristretto_serialize(ristretto_generator());
    let mut i: usize = 0;
    assert(encodings(to_hash@).subrange(0, 0) =~= Seq::<Seq<u8>>::empty());
    assert(buf@ =~= basepoint_encoding() + concat_all(Seq::<Seq<u8>>::empty()));
    while i < to_hash.len()
        invariant
            i <= to_hash.len(),
            buf@ == basepoint_encoding() + concat_all(encodings(to_hash@).subrange(0, i as int)),
        decreases to_hash.len() - i,
    {
        let part = ristretto_serialize(to_hash[i]);
        append_bytes(&mut buf, &part);
        proof {
            let all = encodings(to_hash@);
            let next = all.subrange(0, i + 1);
            assert(next.drop_last() =~= all.subrange(0, i as int));
            assert(next.last() == part@);
            assert(buf@ =~= basepoint_encoding() + concat_all(next));
        }
        i = i + 1;
    }
    assert(encodings(to_hash@).subrange(0, i as int) =~= encodings(to_hash@));
    ristretto_hash(&buf)
}

/// The challenge scalar for the public key, the pair and the commitments.
fn ristretto_dleq_challenge(
    pub_key: GroupElement,
    input: GroupElement,
    eval: GroupElement,
    a: GroupElement,
    b: GroupElement,
) -> (c: Scalar)
    ensures
        c@ == dleq_challenge(pub_key@, input@, eval@, a@, b@),
        c@ < group_order(),
{
    let to_hash: Vec<GroupElement> = vec![pub_key, input, eval, a, b];
    assert(encodings(to_hash@) =~= seq![pub_key@, input@, eval@, a@, b@]);
    ristretto_scalar_from_vec(ristretto_dleq_hash(to_hash))
}

/// The proof that `key` takes the generator to `pub_key` and `input` to
/// `eval`, made with the scalar that `nonce` stands for.
pub fn ristretto_dleq_gen_with_nonce(
    key: Vec<u8>,
    pub_key: GroupElement,
    input: GroupElement,
    eval: GroupElement,
    nonce: Vec<u8>,
) -> (proof: [Vec<u8>; 2])
    requires
        key@.len() >= 32,
        nonce@.len() >= 32,
    ensures
        proof_encoding(proof) == dleq_proof(
            scalar_value(nonce@),
            scalar_value(key@),
            pub_key@,
            input@,
            eval@,
        ),
{
    let t = ristretto_scalar_from_vec(nonce);
    let a = element_mul(ristretto_generator(), &t);
    let b = element_mul(input, &t);
    let c_sc = ristretto_dleq_challenge(pub_key, input, eval, a, b);
    let s_sc = t.sub(&c_sc.mul(&ristretto_scalar_from_vec(key)));
    let c = slice_to_vec(c_sc.to_bytes().as_slice());
    let s = slice_to_vec(s_sc.to_bytes().as_slice());
    let proof = [c, s];
    assert(proof_encoding(proof) =~= dleq_proof(
        scalar_value(nonce@),
        scalar_value(key@),
        pub_key@,
        input@,
        eval@,
    ));
    proof
}

/// A proof that `key` takes the generator to `pub_key` and `input` to `eval`,
/// made with a fresh random nonce.
pub fn ristretto_dleq_gen(
    key: Vec<u8>,
    pub_key: GroupElement,
    input: GroupElement,
    eval: GroupElement,
) -> (proof: [Vec<u8>; 2])
    requires
        key@.len() >= 32,
    ensures
        exists|nonce: Seq<u8>|
            nonce.len() == 32 && proof_encoding(proof) == #[trigger] dleq_proof(
                scalar_value(nonce),
                scalar_value(key@),
                pub_key@,
                input@,
                eval@,
            ),
{
    let nonce = ristretto_sample_uniform_bytes();
    let ghost drawn = nonce@;
    let proof = ristretto_dleq_gen_with_nonce(key, pub_key, input, eval, nonce);
    assert(drawn.len() == 32 && proof_encoding(proof) == dleq_proof(
        scalar_value(drawn),
        scalar_value(key@),
        pub_key@,
        input@,
        eval@,
    ));
    proof
}

/// Whether `proof` shows that one scalar takes the generator to `pub_key` and
/// `input` to `eval`.
pub fn ristretto_dleq_vrf(
    pub_key: GroupElement,
    input: GroupElement,
    eval: GroupElement,
    proof: [Vec<u8>; 2],
) -> (ok: bool)
    ensures
        ok == dleq_verifies(pub_key@, input@, eval@, proof_encoding(proof)),
{
    if proof[0].len() != 32 || proof[1].len() != 32 {
        return false;
    }
    let g = ristretto_generator();
    let c_proof = clone_bytes(&proof[0]);
    let c_sc = ristretto_scalar_from_vec(clone_bytes(&c_proof));
    let s_sc = ristretto_scalar_from_vec(clone_bytes(&proof[1]));
    let s_g = element_mul(g, &s_sc);
    let c_pk = element_mul(pub_key, &c_sc);
    let a = element_add(s_g, c_pk);
    let s_m = element_mul(input, &s_sc);
    let c_z = element_mul(eval, &c_sc);
    let b = element_add(s_m, c_z);
    let c_vrf = ristretto_dleq_challenge(pub_key, input, eval, a, b);
    let c_bytes = slice_to_vec(c_vrf.to_bytes().as_slice());
    bytes_equal(&c_proof, &c_bytes)
}

/// The seed of the batch coefficients: the transcript digest of the public
/// key `y`, then every input, then every evaluation.
pub open spec fn batch_seed(y: Seq<u8>, ms: Seq<Seq<u8>>, zs: Seq<Seq<u8>>) -> Seq<u8> {
    dleq_hash_spec(seq![y] + ms + zs)
}

/// The coefficient of the pair at index `i`: HKDF-Extract with the seed as
/// salt and the little-endian 32-bit index as keying material, read as a scalar.
pub open spec fn composite_coefficient(seed: Seq<u8>, i: nat) -> nat {
    scalar_value(hkdf_extract_sha512(seed, u32_le_bytes(i as u32)))
}

/// The combination of the first `n` of `points`, each multiplied by its
/// coefficient. The first term starts the sum; with no term at all the
/// generator stands in.
pub open spec fn composite(seed: Seq<u8>, points: Seq<Seq<u8>>, n: nat) -> Seq<u8>
    decreases n,
{
    if n == 0 {
        basepoint_encoding()
    } else if n == 1 {
        ristretto_mul(points[0], composite_coefficient(seed, 0))
    } else {
        ristretto_add(
            composite(seed, points, (n - 1) as nat),
            ristretto_mul(points[n - 1], composite_coefficient(seed, (n - 1) as nat)),
        )
    }
}

/// The proof, made with the nonce `t`, that the key `k` takes the generator
/// to `y` and every one of `ms` to the one of `zs` at its index: the single
/// proof over the two composites.
pub open spec fn batch_dleq_proof(
    t: nat,
    k: nat,
    y: Seq<u8>,
    ms: Seq<Seq<u8>>,
    zs: Seq<Seq<u8>>,
) -> Seq<Seq<u8>> {
    let seed = batch_seed(y, ms, zs);
    dleq_proof(t, k, y, composite(seed, ms, ms.len()), composite(seed, zs, zs.len()))
}

/// Whether `proof` is accepted for the public key `y` and the batch `ms`,
/// `zs`: the batch is of one length, its indices fit in 32 bits, and the
/// single proof over the two composites is accepted.
pub open spec fn batch_dleq_verifies(
    y: Seq<u8>,
    ms: Seq<Seq<u8>>,
    zs: Seq<Seq<u8>>,
    proof: Seq<Seq<u8>>,
) -> bool {
    let seed = batch_seed(y, ms, zs);
    &&& ms.len() == zs.len()
    &&& ms.len() <= u32::MAX
    &&& dleq_verifies(y, composite(seed, ms, ms.len()), composite(seed, zs, zs.len()), proof)
}

/// A batched proof is accepted wherever the single proof over the two
/// composites is, for a batch of one length whose indices fit in 32 bits.
pub proof fn lemma_batch_dleq_accepts_when_commitments_agree(
    t: nat,
    k: nat,
    y: Seq<u8>,
    ms: Seq<Seq<u8>>,
    zs: Seq<Seq<u8>>,
)
    requires
        ms.len() == zs.len(),
        ms.len() <= u32::MAX,
        ({
            let seed = batch_seed(y, ms, zs);
            let m = composite(seed, ms, ms.len());
            let z = composite(seed, zs, zs.len());
            let a = ristretto_mul(basepoint_encoding(), t);
            let b = ristretto_mul(m, t);
            let c = dleq_challenge(y, m, z, a, b);
            let s = dleq_response(t, c, k);
            &&& ristretto_add(ristretto_mul(basepoint_encoding(), s), ristretto_mul(y, c)) == a
            &&& ristretto_add(ristretto_mul(m, s), ristretto_mul(z, c)) == b
        }),
    ensures
        batch_dleq_verifies(y, ms, zs, batch_dleq_proof(t, k, y, ms, zs)),
{
    let seed = batch_seed(y, ms, zs);
    lemma_dleq_accepts_when_commitments_agree(
        t,
        k,
        y,
        composite(seed, ms, ms.len()),
        composite(seed, zs, zs.len()),
    );
}

/// The two composites of a batch: the inputs and the evaluations, each
/// combined with the coefficients that `seed` gives.
pub fn ristretto_compute_composites(
    seed: Vec<u8>,
    inputs: Vec<GroupElement>,
    evals: Vec<GroupElement>,
) -> (composites: [GroupElement; 2])
    requires
        inputs@.len() == evals@.len(),
        inputs@.len() <= u32::MAX,
    ensures
        composites@[0]@ == composite(seed@, encodings(inputs@), inputs@.len()),
        composites@[1]@ == composite(seed@, encodings(evals@), evals@.len()),
{
    let mut comp_m: GroupElement = ristretto_generator();
    let mut comp_z: GroupElement = ristretto_generator();
    let mut i: usize = 0;
    while i < inputs.len()
        invariant
            i <= inputs.len(),
            inputs@.len() == evals@.len(),
            inputs@.len() <= u32::MAX,
            comp_m@ == composite(seed@, encodings(inputs@), i as nat),
            comp_z@ == composite(seed@, encodings(evals@), i as nat),
        decreases inputs.len() - i,
    {
        let m_i = inputs[i];
        let z_i = evals[i];
        let i_vec = u32_to_le_vec(i as u32);
        let d_i = ristretto_scalar_from_vec(Hkdf {  }.extract(clone_bytes(&seed), i_vec));
        let dm_i = element_mul(m_i, &d_i);
        let dz_i = element_mul(z_i, &d_i);
        if i == 0 {
            comp_m = dm_i;
            comp_z = dz_i;
        } else {
            comp_m = element_add(comp_m, dm_i);
            comp_z = element_add(comp_z, dz_i);
        }
        i = i + 1;
    }
    [comp_m, comp_z]
}

/// The seed of a batch: the transcript digest of the public key, the inputs
/// and the evaluations.
pub fn ristretto_batch_dleq_seed(y: GroupElement, m: Vec<GroupElement>, z: Vec<GroupElement>) -> (seed:
    Vec<u8>)
    ensures
        seed@ == batch_seed(y@, encodings(m@), encodings(z@)),
        seed@.len() == 64,
{
    let mut inputs: Vec<GroupElement> = vec![y];
    let mut i: usize = 0;
    while i < m.len()
        invariant
            i <= m.len(),
            inputs@ == seq![y] + m@.subrange(0, i as int),
        decreases m.len() - i,
    {
        inputs.push(m[i]);
        i = i + 1;
        assert(inputs@ =~= seq![y] + m@.subrange(0, i as int));
    }
    let mut j: usize = 0;
    assert(m@.subrange(0, i as int) =~= m@);
    assert(inputs@ =~= seq![y] + m@ + z@.subrange(0, 0));
    while j < z.len()
        invariant
            j <= z.len(),
            inputs@ == seq![y] + m@ + z@.subrange(0, j as int),
        decreases z.len() - j,
    {
        inputs.push(z[j]);
        j = j + 1;
        assert(inputs@ =~= seq![y] + m@ + z@.subrange(0, j as int));
    }
    assert(z@.subrange(0, j as int) =~= z@);
    assert(encodings(inputs@) =~= seq![y@] + encodings(m@) + encodings(z@));
    ristretto_dleq_hash(inputs)
}

/// The batched proof for `inputs` and `evals`, made with the scalar that
/// `nonce` stands for.
pub fn ristretto_batch_dleq_gen_with_nonce(
    key: Vec<u8>,
    pub_key: GroupElement,
    inputs: Vec<GroupElement>,
    evals: Vec<GroupElement>,
    nonce: Vec<u8>,
) -> (proof: [Vec<u8>; 2])
    requires
        key@.len() >= 32,
        nonce@.len() >= 32,
        inputs@.len() == evals@.len(),
        inputs@.len() <= u32::MAX,
    ensures
        proof_encoding(proof) == batch_dleq_proof(
            scalar_value(nonce@),
            scalar_value(key@),
            pub_key@,
            encodings(inputs@),
            encodings(evals@),
        ),
{
    let seed = ristretto_batch_dleq_seed(pub_key, inputs.clone(), evals.clone());
    let composites = ristretto_compute_composites(seed, inputs, evals);
    ristretto_dleq_gen_with_nonce(key, pub_key, composites[0], composites[1], nonce)
}

/// Whether `proof` is accepted for the batch `inputs`, `evals` under `pub_key`.
pub fn ristretto_batch_dleq_vrf(
    pub_key: GroupElement,
    inputs: Vec<GroupElement>,
    evals: Vec<GroupElement>,
    proof: [Vec<u8>; 2],
) -> (ok: bool)
    ensures
        ok == batch_dleq_verifies(
            pub_key@,
            encodings(inputs@),
            encodings(evals@),
            proof_encoding(proof),
        ),
{
    if inputs.len() != evals.len() || inputs.len() > 0xffff_ffff {
        return false;
    }
    let seed = ristretto_batch_dleq_seed(pub_key, inputs.clone(), evals.clone());
    let composites = ristretto_compute_composites(seed, inputs, evals);
    ristretto_dleq_vrf(pub_key, composites[0], composites[1], proof)
}

/// An element is known by its encoding: two elements with one encoding are
/// the same element.
pub proof fn lemma_element_is_its_encoding(p: GroupElement, q: GroupElement)
    requires
        p@ == q@,
    ensures
        p == q,
{
    assert(p.bytes =~= q.bytes);
}

/// What reading `buf` as an element gives: the encoding itself where it is
/// one, nothing otherwise.
pub open spec fn deserialized(buf: Seq<u8>) -> Option<Seq<u8>> {
    if is_element_encoding(buf) {
        Some(buf)
    } else {
        None
    }
}

/// Reading back the serialization of an element gives that element.
pub proof fn lemma_serialization_round_trip(p: GroupElement)
    requires
        is_element_encoding(p@),
    ensures
        deserialized(p@) == Some(p@),
{
}

impl PrimeOrderGroup {
    /// Whether this record names ristretto255: the generator is the base
    /// point, and the length is that of an encoded element.
    pub open spec fn wf(&self) -> bool {
        self.generator@ == basepoint_encoding() && self.byte_length == RISTRETTO_BYTE_LENGTH
    }

    /// The group ristretto255, with SHA-512 as its hash.
    pub fn ristretto_255() -> (pog: PrimeOrderGroup)
        ensures
            pog.wf(),
    {
        PrimeOrderGroup { generator: ristretto_generator(), byte_length: RISTRETTO_BYTE_LENGTH }
    }

    /// The digest of `data` under the group's hash, SHA-512.
    pub fn hash(&self, data: Vec<u8>) -> (digest: Vec<u8>)
        ensures
            digest@ == sha512(data@),
            digest@.len() == 64,
    {
        ristretto_hash(&data)
    }

    /// The element that `buf` encodes. Fails on a buffer that is not 32 bytes
    /// long or is not the canonical encoding of an element.
    pub fn deserialize(&self, buf: Vec<u8>) -> (res: Result<GroupElement, OprfError>)
        ensures
            match res {
                Ok(p) => deserialized(buf@) == Some(p@),
                Err(e) => deserialized(buf@) is None && e.kind == ErrorKind::Deserialization,
            },
    {
        if buf.len() != RISTRETTO_BYTE_LENGTH {
            return Err(err_deserialization());
        }
        let ghost encoded = buf@;
        let fixed = ristretto_convert_vec_to_fixed(buf);
        assert(fixed@ =~= encoded);
        match GroupElement::from_bytes(fixed) {
            Some(rp) => Ok(rp),
            None => Err(err_deserialization()),
        }
    }

    /// The element that `buf` is hashed to.
    pub fn encode_to_group(&self, buf: Vec<u8>) -> (p: GroupElement)
        ensures
            p@ == ristretto_hash_to_group(buf@),
    {
        GroupElement { bytes: dalek_hash_to_group(buf.as_slice()) }
    }

    /// Whether `p` is an element of the group: every value of the type is.
    pub fn is_valid(&self, p: GroupElement) -> (valid: bool)
        ensures
            valid,
            is_element_encoding(p@),
    {
        proof {
            use_type_invariant(p);
        }
        true
    }

    /// Whether `p1` and `p2` are the same element, decided in constant time.
    pub fn is_equal(&self, p1: GroupElement, p2: GroupElement) -> (same: bool)
        ensures
            same == (p1@ == p2@),
    {
        proof {
            use_type_invariant(p1);
            use_type_invariant(p2);
        }
        dalek_points_equal(&p1.bytes, &p2.bytes)
    }

    /// The sum of `p1` and `p2`.
    pub fn add(&self, p1: GroupElement, p2: GroupElement) -> (sum: GroupElement)
        ensures
            sum@ == ristretto_add(p1@, p2@),
    {
        element_add(p1, p2)
    }

    /// The product of `p` and the scalar that `r` stands for.
    pub fn scalar_mult(&self, p: GroupElement, r: Vec<u8>) -> (product: GroupElement)
        requires
            r@.len() >= 32,
        ensures
            product@ == ristretto_mul(p@, scalar_value(r@)),
    {
        element_mul(p, &ristretto_scalar_from_vec(r))
    }

    /// The product of `p` and the inverse of the scalar that `r` stands for.
    pub fn inverse_mult(&self, p: GroupElement, r: Vec<u8>) -> (product: GroupElement)
        requires
            r@.len() >= 32,
        ensures
            scalar_value(r@) != 0 ==> product@ == ristretto_mul(
                p@,
                scalar_inverse(scalar_value(r@)),
            ),
    {
        let inv_sc = ristretto_scalar_from_vec(r).invert();
        element_mul(p, &inv_sc)
    }

    /// The canonical encoding of `p`: 32 bytes.
    pub fn serialize(&self, p: GroupElement) -> (bytes: Vec<u8>)
        ensures
            bytes@ == p@,
            is_element_encoding(p@),
    {
        ristretto_serialize(p)
    }

    /// An element drawn at random.
    pub fn random_element(&self) -> (p: GroupElement)
        ensures
            is_element_encoding(p@),
    {
        GroupElement { bytes: dalek_random_point() }
    }

    /// Fresh random scalar material: 32 bytes.
    pub fn uniform_bytes(&self) -> (bytes: Vec<u8>)
        ensures
            bytes@.len() == RISTRETTO_BYTE_LENGTH,
    {
        ristretto_sample_uniform_bytes()
    }

    /// A proof that `key` takes the generator to `pub_key` and `input` to `eval`.
    pub fn dleq_generate(
        &self,
        key: Vec<u8>,
        pub_key: GroupElement,
        input: GroupElement,
        eval: GroupElement,
    ) -> (proof: [Vec<u8>; 2])
        requires
            key@.len() >= 32,
        ensures
            exists|nonce: Seq<u8>|
                nonce.len() == 32 && proof_encoding(proof) == #[trigger] dleq_proof(
                    scalar_value(nonce),
                    scalar_value(key@),
                    pub_key@,
                    input@,
                    eval@,
                ),
    {
        ristretto_dleq_gen(key, pub_key, input, eval)
    }

    /// Whether `proof` shows that one scalar takes the generator to `pub_key`
    /// and `input` to `eval`.
    pub fn dleq_verify(
        &self,
        pub_key: GroupElement,
        input: GroupElement,
        eval: GroupElement,
        proof: [Vec<u8>; 2],
    ) -> (ok: bool)
        ensures
            ok == dleq_verifies(pub_key@, input@, eval@, proof_encoding(proof)),
    {
        ristretto_dleq_vrf(pub_key, input, eval, proof)
    }

    /// One proof that `key` takes the generator to `pub_key` and each of
    /// `inputs` to the one of `evals` at its index.
    pub fn batch_dleq_generate(
        &self,
        key: Vec<u8>,
        pub_key: GroupElement,
        inputs: Vec<GroupElement>,
        evals: Vec<GroupElement>,
    ) -> (proof: [Vec<u8>; 2])
        requires
            key@.len() >= 32,
            inputs@.len() == evals@.len(),
            inputs@.len() <= u32::MAX,
        ensures
            exists|nonce: Seq<u8>|
                nonce.len() == 32 && proof_encoding(proof) == #[trigger] batch_dleq_proof(
                    scalar_value(nonce),
                    scalar_value(key@),
                    pub_key@,
                    encodings(inputs@),
                    encodings(evals@),
                ),
    {
        let nonce = ristretto_sample_uniform_bytes();
        let ghost drawn = nonce@;
        let ghost ms = encodings(inputs@);
        let ghost zs = encodings(evals@);
        let proof = ristretto_batch_dleq_gen_with_nonce(key, pub_key, inputs, evals, nonce);
        assert(drawn.len() == 32 && proof_encoding(proof) == batch_dleq_proof(
            scalar_value(drawn),
            scalar_value(key@),
            pub_key@,
            ms,
            zs,
        ));
        proof
    }

    /// Whether `proof` is accepted for the whole batch `inputs`, `evals`
    /// under `pub_key`. A batch whose two parts differ in length is refused.
    pub fn batch_dleq_verify(
        &self,
        pub_key: GroupElement,
        inputs: Vec<GroupElement>,
        evals: Vec<GroupElement>,
        proof: [Vec<u8>; 2],
    ) -> (ok: bool)
        ensures
            ok == batch_dleq_verifies(
                pub_key@,
                encodings(inputs@),
                encodings(evals@),
                proof_encoding(proof),
            ),
    {
        ristretto_batch_dleq_vrf(pub_key, inputs, evals, proof)
    }
}

} // verus!
