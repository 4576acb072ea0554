//! Byte strings as numbers: little-endian values, and comparison that does not
//! stop at the first difference.

use vstd::prelude::*;

verus! {

/// The number that `s` spells in little-endian base 256.
pub open spec fn le_nat(s: Seq<u8>) -> nat
    decreases s.len(),
{
    if s.len() == 0 {
        0
    } else {
        s[0] as nat + 256 * le_nat(s.drop_first())
    }
}

/// Two byte strings of one length that spell the same number are the same string.
pub proof fn lemma_le_nat_injective(a: Seq<u8>, b: Seq<u8>)
    requires
        a.len() == b.len(),
        le_nat(a) == le_nat(b),
    ensures
        a == b,
    decreases a.len(),
{
    if a.len() > 0 {
        let ta = le_nat(a.drop_first());
        let tb = le_nat(b.drop_first());
        assert(a[0] as nat + 256 * ta == b[0] as nat + 256 * tb);
        assert(a[0] == b[0] && ta == tb) by (nonlinear_arith)
            requires
                a[0] as nat + 256 * ta == b[0] as nat + 256 * tb,
                a[0] < 256,
                b[0] < 256,
        ;
        lemma_le_nat_injective(a.drop_first(), b.drop_first());
        assert(a =~= seq![a[0]] + a.drop_first());
        assert(b =~= seq![b[0]] + b.drop_first());
    }
    assert(a =~= b);
}

/// The `len` low bytes of `v`, least significant first.
pub open spec fn le_bytes(v: nat, len: nat) -> Seq<u8>
    decreases len,
{
    if len == 0 {
        Seq::empty()
    } else {
        seq![(v % 256) as u8] + le_bytes(v / 256, (len - 1) as nat)
    }
}

/// A byte string is the little-endian spelling, at its own length, of the
/// number that it spells.
pub proof fn lemma_le_bytes_of_le_nat(s: Seq<u8>)
    ensures
        le_bytes(le_nat(s), s.len()) == s,
    decreases s.len(),
{
    if s.len() > 0 {
        let tail = s.drop_first();
        let t = le_nat(tail);
        let v = le_nat(s);
        assert(v == s[0] as nat + 256 * t);
        assert(v % 256 == s[0] as nat && v / 256 == t) by (nonlinear_arith)
            requires
                v == s[0] as nat + 256 * t,
                s[0] < 256,
        ;
        lemma_le_bytes_of_le_nat(tail);
        assert(le_bytes(v, s.len()) =~= seq![s[0]] + tail);
        assert(s =~= seq![s[0]] + tail);
    } else {
        assert(le_bytes(le_nat(s), s.len()) =~= s);
    }
}

/// 256 to the power `n`: the number of byte strings of length `n`.
pub open spec fn pow256(n: nat) -> nat
    decreases n,
{
    if n == 0 {
        1
    } else {
        256 * pow256((n - 1) as nat)
    }
}

/// The little-endian spelling at length `len` has `len` bytes.
pub proof fn lemma_le_bytes_len(v: nat, len: nat)
    ensures
        le_bytes(v, len).len() == len,
    decreases len,
{
    if len > 0 {
        lemma_le_bytes_len(v / 256, (len - 1) as nat);
    }
}

/// A number that fits in `len` bytes is the number that its little-endian
/// spelling at that length spells.
pub proof fn lemma_le_nat_of_le_bytes(v: nat, len: nat)
    requires
        v < pow256(len),
    ensures
        le_nat(le_bytes(v, len)) == v,
    decreases len,
{
    if len > 0 {
        let rest = le_bytes(v / 256, (len - 1) as nat);
        let s = le_bytes(v, len);
        assert(v / 256 < pow256((len - 1) as nat)) by (nonlinear_arith)
            requires
                v < 256 * pow256((len - 1) as nat),
        ;
        lemma_le_nat_of_le_bytes(v / 256, (len - 1) as nat);
        assert(s[0] == (v % 256) as u8);
        assert(s.drop_first() =~= rest);
        assert(v == v % 256 + 256 * (v / 256)) by (nonlinear_arith);
    }
}

/// The four bytes of `x`, least significant first.
pub open spec fn u32_le_bytes(x: u32) -> Seq<u8> {
    seq![
        (x % 256) as u8,
        (x / 256 % 256) as u8,
        (x / 65536 % 256) as u8,
        (x / 16777216) as u8,
    ]
}

/// A copy of `v`.
pub fn clone_bytes(v: &Vec<u8>) -> (copy: Vec<u8>)
    ensures
        copy@ == v@,
{
    vstd::slice::slice_to_vec(v.as_slice())
}

/// Appends the bytes of `part` to `buf`.
pub fn append_bytes(buf: &mut Vec<u8>, part: &Vec<u8>)
    ensures
        final(buf)@ == old(buf)@ + part@,
{
    let mut i: usize = 0;
    while i < part.len()
        invariant
            i <= part.len(),
            buf@ == old(buf)@ + part@.subrange(0, i as int),
        decreases part.len() - i,
    {
        buf.push(part[i]);
        i = i + 1;
        assert(part@.subrange(0, i as int) =~= part@.subrange(0, i - 1).push(part@[i - 1]));
    }
    assert(part@.subrange(0, i as int) =~= part@);
}

/// All of `parts`, one after another.
pub open spec fn concat_all(parts: Seq<Seq<u8>>) -> Seq<u8>
    decreases parts.len(),
{
    if parts.len() == 0 {
        Seq::empty()
    } else {
        concat_all(parts.drop_last()) + parts.last()
    }
}

/// Whether `a` and `b` hold the same bytes. Strings of one length are compared
/// to their end whatever differs, so the time taken does not tell where.
pub fn bytes_equal(a: &Vec<u8>, b: &Vec<u8>) -> (same: bool)
    ensures
        same == (a@ == b@),
{
    if a.len() != b.len() {
        return false;
    }
    let mut diff: u8 = 0;
    let mut i: usize = 0;
    assert(a@.subrange(0, 0) =~= b@.subrange(0, 0));
    while i < a.len()
        invariant
            a.len() == b.len(),
            i <= a.len(),
            diff == 0 <==> a@.subrange(0, i as int) == b@.subrange(0, i as int),
        decreases a.len() - i,
    {
        let x: u8 = a[i];
        let y: u8 = b[i];
        let d: u8 = x ^ y;
        let next: u8 = diff | d;
        proof {
            assert((d == 0) == (x == y)) by (bit_vector)
                requires
                    d == x ^ y,
            ;
            assert((next == 0) == (diff == 0 && d == 0)) by (bit_vector)
                requires
                    next == diff | d,
            ;
            let pa = a@.subrange(0, i as int);
            let pb = b@.subrange(0, i as int);
            let qa = a@.subrange(0, i + 1);
            let qb = b@.subrange(0, i + 1);
            assert(qa =~= pa.push(x));
            assert(qb =~= pb.push(y));
            if qa == qb {
                assert(pa =~= qa.subrange(0, i as int));
                assert(pb =~= qb.subrange(0, i as int));
                assert(qa[i as int] == qb[i as int]);
            }
        }
        diff = next;
        i = i + 1;
    }
    proof {
        assert(a@.subrange(0, i as int) =~= a@);
        assert(b@.subrange(0, i as int) =~= b@);
    }
    diff == 0
}

} // verus!
