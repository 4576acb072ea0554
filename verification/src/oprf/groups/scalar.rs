//! Scalars of ristretto255: integers modulo the group order, held as their
//! canonical little-endian encoding. The arithmetic is that of
//! `curve25519_dalek::scalar::Scalar`.

use vstd::prelude::*;
use vstd::arithmetic::div_mod::{lemma_mul_mod_noop_left, lemma_mul_mod_noop_right, lemma_small_mod};
use crate::utils::bytes::{
    le_bytes, le_nat, lemma_le_bytes_len, lemma_le_bytes_of_le_nat, lemma_le_nat_of_le_bytes,
    pow256,
};

verus! {

/// The order of the ristretto255 group: 2^252 + 27742317777372353535851937790883648493.
pub open spec fn group_order() -> nat {
    7237005577332262213973186563042994240857116359379907606001950938285454250989nat
}

/// The scalar that the first 32 bytes of `bytes` stand for: their
/// little-endian value, reduced modulo the group order.
pub open spec fn scalar_value(bytes: Seq<u8>) -> nat
    recommends
        bytes.len() >= 32,
{
    le_nat(bytes.subrange(0, 32)) % group_order()
}

/// The canonical encoding of the scalar `v`: 32 bytes, little-endian.
pub open spec fn scalar_encoding(v: nat) -> Seq<u8> {
    le_bytes(v, 32)
}

/// The canonical encoding of a scalar has 32 bytes and stands for that scalar.
pub proof fn lemma_scalar_encoding_round_trip(v: nat)
    requires
        v < group_order(),
    ensures
        scalar_encoding(v).len() == 32,
        scalar_value(scalar_encoding(v)) == v,
{
    lemma_le_bytes_len(v, 32);
    assert(group_order() < pow256(32)) by {
        reveal_with_fuel(pow256, 33);
    }
    lemma_le_nat_of_le_bytes(v, 32);
    assert(scalar_encoding(v).subrange(0, 32) =~= scalar_encoding(v));
    lemma_small_mod(v, group_order());
}

/// Whether `x` is the multiplicative inverse of `a` modulo the group order.
pub open spec fn is_inverse_of(x: nat, a: nat) -> bool {
    x < group_order() && (x * a) % group_order() == 1
}

/// The multiplicative inverse of `a` modulo the group order, where `a` has one.
pub open spec fn scalar_inverse(a: nat) -> nat {
    choose|x: nat| is_inverse_of(x, a)
}

/// A scalar has at most one inverse.
pub proof fn lemma_inverse_unique(x: nat, y: nat, a: nat)
    requires
        is_inverse_of(x, a),
        is_inverse_of(y, a),
    ensures
        x == y,
{
    let l = group_order() as int;
    let xi = x as int;
    let yi = y as int;
    let ai = a as int;
    assert((xi * ai) % l == 1);
    assert((ai * yi) % l == 1) by (nonlinear_arith)
        requires
            (yi * ai) % l == 1,
    ;
    lemma_mul_mod_noop_left(xi * ai, yi, l);
    lemma_mul_mod_noop_right(xi, ai * yi, l);
    assert((xi * ai) * yi == xi * (ai * yi)) by (nonlinear_arith);
    lemma_small_mod(x, group_order());
    lemma_small_mod(y, group_order());
    assert((1 * yi) % l == yi);
    assert((xi * 1) % l == xi);
}

/// `Scalar::from_bytes_mod_order`, then `Scalar::to_bytes`: the canonical
/// encoding of the 256-bit little-endian integer `bytes` reduced modulo the
/// group order.
#[verifier::external_body]
fn dalek_scalar_reduce(bytes: &[u8; 32]) -> (out: [u8; 32])
    ensures
        le_nat(out@) == le_nat(bytes@) % group_order(),
{
    curve25519_dalek::scalar::Scalar::from_bytes_mod_order(*bytes).to_bytes()
}

/// `Add` of two `Scalar`s, each read with `from_bytes_mod_order`: the
/// canonical encoding of their sum modulo the group order.
#[verifier::external_body]
fn dalek_scalar_add(a: &[u8; 32], b: &[u8; 32]) -> (out: [u8; 32])
    ensures
        le_nat(out@) == (le_nat(a@) % group_order() + le_nat(b@) % group_order()) % group_order(),
{
    let x = curve25519_dalek::scalar::Scalar::from_bytes_mod_order(*a);
    let y = curve25519_dalek::scalar::Scalar::from_bytes_mod_order(*b);
    (x + y).to_bytes()
}

/// `Sub` of two `Scalar`s, each read with `from_bytes_mod_order`: the
/// canonical encoding of their difference modulo the group order.
#[verifier::external_body]
fn dalek_scalar_sub(a: &[u8; 32], b: &[u8; 32]) -> (out: [u8; 32])
    ensures
        le_nat(out@) == (le_nat(a@) % group_order() - le_nat(b@) % group_order()) % (
        group_order() as int),
{
    let x = curve25519_dalek::scalar::Scalar::from_bytes_mod_order(*a);
    let y = curve25519_dalek::scalar::Scalar::from_bytes_mod_order(*b);
    (x - y).to_bytes()
}

/// `Mul` of two `Scalar`s, each read with `from_bytes_mod_order`: the
/// canonical encoding of their product modulo the group order.
#[verifier::external_body]
fn dalek_scalar_mul(a: &[u8; 32], b: &[u8; 32]) -> (out: [u8; 32])
    ensures
        le_nat(out@) == ((le_nat(a@) % group_order()) * (le_nat(b@) % group_order()))
            % group_order(),
{
    let x = curve25519_dalek::scalar::Scalar::from_bytes_mod_order(*a);
    let y = curve25519_dalek::scalar::Scalar::from_bytes_mod_order(*b);
    (x * y).to_bytes()
}

/// `Scalar::invert` of a `Scalar` read with `from_bytes_mod_order`: a
/// canonical encoding, and for a scalar that is not zero that of its
/// multiplicative inverse modulo the group order.
#[verifier::external_body]
fn dalek_scalar_invert(a: &[u8; 32]) -> (out: [u8; 32])
    ensures
        le_nat(out@) < group_order(),
        le_nat(a@) % group_order() != 0 ==> (le_nat(out@) * (le_nat(a@) % group_order()))
            % group_order() == 1,
{
    curve25519_dalek::scalar::Scalar::from_bytes_mod_order(*a).invert().to_bytes()
}

/// An integer modulo the group order.
#[derive(Clone, Copy, Debug)]
pub struct Scalar {
    bytes: [u8; 32],
}

impl View for Scalar {
    type V = nat;

    closed spec fn view(&self) -> nat {
        le_nat(self.bytes@)
    }
}

impl Scalar {
    #[verifier::type_invariant]
    spec fn reduced(self) -> bool {
        le_nat(self.bytes@) < group_order()
    }

    /// The scalar that the 256-bit little-endian integer `bytes` stands for.
    pub fn from_bytes_mod_order(bytes: [u8; 32]) -> (s: Scalar)
        ensures
            s@ == le_nat(bytes@) % group_order(),
            s@ < group_order(),
    {
        let reduced = dalek_scalar_reduce(&bytes);
        Scalar { bytes: reduced }
    }

    /// The canonical encoding: 32 bytes, little-endian.
    pub fn to_bytes(&self) -> (b: [u8; 32])
        ensures
            b@ == scalar_encoding(self@),
            le_nat(b@) == self@,
            self@ < group_order(),
    {
        proof {
            use_type_invariant(self);
            lemma_le_bytes_of_le_nat(self.bytes@);
        }
        self.bytes
    }

    /// The sum modulo the group order.
    pub fn add(&self, rhs: &Scalar) -> (sum: Scalar)
        ensures
            sum@ == (self@ + rhs@) % group_order(),
            sum@ < group_order(),
    {
        proof {
            use_type_invariant(self);
            use_type_invariant(rhs);
        }
        Scalar { bytes: dalek_scalar_add(&self.bytes, &rhs.bytes) }
    }

    /// The difference modulo the group order.
    pub fn sub(&self, rhs: &Scalar) -> (diff: Scalar)
        ensures
            diff@ == (self@ - rhs@) % (group_order() as int),
            diff@ < group_order(),
    {
        proof {
            use_type_invariant(self);
            use_type_invariant(rhs);
        }
        Scalar { bytes: dalek_scalar_sub(&self.bytes, &rhs.bytes) }
    }

    /// The product modulo the group order.
    pub fn mul(&self, rhs: &Scalar) -> (product: Scalar)
        ensures
            product@ == (self@ * rhs@) % group_order(),
            product@ < group_order(),
    {
        proof {
            use_type_invariant(self);
            use_type_invariant(rhs);
        }
        Scalar { bytes: dalek_scalar_mul(&self.bytes, &rhs.bytes) }
    }

    /// The multiplicative inverse of a scalar that is not zero.
    pub fn invert(&self) -> (inverse: Scalar)
        ensures
            self@ != 0 ==> is_inverse_of(inverse@, self@) && inverse@ == scalar_inverse(self@),
            inverse@ < group_order(),
    {
        proof {
            use_type_invariant(self);
        }
        let inverse = Scalar { bytes: dalek_scalar_invert(&self.bytes) };
        proof {
            if self@ != 0 {
                assert(is_inverse_of(inverse@, self@));
                lemma_inverse_unique(inverse@, scalar_inverse(self@), self@);
            }
        }
        inverse
    }
}

} // verus!
