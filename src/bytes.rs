//! Big-endian integers and byte ranges, with their mathematical meaning.
use vstd::arithmetic::div_mod::{lemma_div_denominator, lemma_fundamental_div_mod};
use vstd::prelude::*;

verus! {

/// `256` raised to the power `n`.
pub open spec fn pow256(n: nat) -> nat
    decreases n,
{
    if n == 0 {
        1
    } else {
        256 * pow256((n - 1) as nat)
    }
}

/// The unsigned integer that `s` spells in big-endian order (most significant byte first).
pub open spec fn be_value(s: Seq<u8>) -> nat
    decreases s.len(),
{
    if s.len() == 0 {
        0
    } else {
        be_value(s.drop_last()) * 256 + s.last() as nat
    }
}

/// The eight big-endian bytes of `v`.
pub open spec fn be_bytes(v: u64) -> Seq<u8> {
    Seq::new(8, |i: int| ((v as nat / pow256((7 - i) as nat)) % 256) as u8)
}

pub proof fn lemma_pow256_positive(n: nat)
    ensures
        pow256(n) > 0,
    decreases n,
{
    if n > 0 {
        lemma_pow256_positive((n - 1) as nat);
    }
}

pub proof fn lemma_pow256_eight()
    ensures
        pow256(8) == 0x1_0000_0000_0000_0000,
{
    reveal_with_fuel(pow256, 9);
}

/// A big-endian value of `n` bytes is below `256^n`.
pub proof fn lemma_be_value_bound(s: Seq<u8>)
    ensures
        be_value(s) < pow256(s.len()),
    decreases s.len(),
{
    if s.len() > 0 {
        let p = s.drop_last();
        lemma_be_value_bound(p);
        let a = be_value(p);
        let b = s.last() as nat;
        let q = pow256(p.len());
        assert(a * 256 + b < 256 * q) by (nonlinear_arith)
            requires
                a < q,
                b < 256,
        ;
    }
}

/// The first `k` bytes of `be_bytes(v)` spell `v / 256^(8-k)`.
proof fn lemma_be_bytes_prefix(v: u64, k: nat)
    requires
        k <= 8,
    ensures
        be_value(be_bytes(v).take(k as int)) == v as nat / pow256((8 - k) as nat),
    decreases k,
{
    let s = be_bytes(v);
    if k == 0 {
        lemma_pow256_eight();
        assert(s.take(0) =~= Seq::<u8>::empty());
        let x = v as int;
        assert(x / 0x1_0000_0000_0000_0000int == 0) by (nonlinear_arith)
            requires
                0 <= x < 0x1_0000_0000_0000_0000int,
        ;
    } else {
        let j = (k - 1) as nat;
        lemma_be_bytes_prefix(v, j);
        assert(s.take(k as int).drop_last() =~= s.take(j as int));
        let d = pow256((7 - j) as nat);
        lemma_pow256_positive((7 - j) as nat);
        assert(pow256((8 - j) as nat) == 256 * d);
        let x = v as nat;
        lemma_div_denominator(x as int, d as int, 256);
        assert(x / (256 * d) == (x / d) / 256) by (nonlinear_arith)
            requires
                (x as int / d as int) / 256 == x as int / (d as int * 256),
        ;
        lemma_fundamental_div_mod((x / d) as int, 256);
        assert(s[j as int] as nat == (x / d) % 256);
        assert(be_value(s.take(k as int)) == be_value(s.take(j as int)) * 256 + s[j as int] as nat);
        assert(be_value(s.take(k as int)) == x / d);
        assert((8 - k) as nat == (7 - j) as nat);
    }
}

/// Reading back the eight bytes of `v` gives `v`.
pub proof fn lemma_be_bytes_value(v: u64)
    ensures
        be_value(be_bytes(v)) == v,
        be_bytes(v).len() == 8,
{
    lemma_be_bytes_prefix(v, 8);
    assert(be_bytes(v).take(8) =~= be_bytes(v));
    assert(pow256(0) == 1);
    assert(v as nat / 1 == v as nat);
}

/// Reads the big-endian `u64` stored in `b[start..start + 8]`.
pub fn read_u64_be(b: &[u8], start: usize) -> (r: u64)
    requires
        start + 8 <= b@.len(),
    ensures
        r == be_value(b@.subrange(start as int, start + 8)),
{
    let n: usize = b.len();
    let mut acc: u64 = 0;
    let mut i: usize = 0;
    while i < 8
        invariant
            i <= 8,
            n == b@.len(),
            start + 8 <= b@.len(),
            acc == be_value(b@.subrange(start as int, start + i)),
        decreases 8 - i,
    {
        let ghost prefix = b@.subrange(start as int, start + i);
        let ghost next = b@.subrange(start as int, start + i + 1);
        proof {
            assert(next.drop_last() =~= prefix);
            lemma_be_value_bound(next);
            reveal_with_fuel(pow256, 9);
            assert(pow256(next.len()) <= pow256(8));
            lemma_pow256_eight();
        }
        acc = acc * 256 + b[start + i] as u64;
        i = i + 1;
    }
    acc
}

/// Appends the eight big-endian bytes of `v` to `out`.
pub fn write_u64_be(out: &mut Vec<u8>, v: u64)
    ensures
        final(out)@ == old(out)@ + be_bytes(v),
{
    let ghost start = out@;
    let mut d: u64 = 0x0100_0000_0000_0000;
    let mut k: usize = 0;
    proof {
        reveal_with_fuel(pow256, 8);
    }
    while k < 8
        invariant
            k <= 8,
            k < 8 ==> d as nat == pow256((7 - k) as nat),
            out@ == start + be_bytes(v).take(k as int),
        decreases 8 - k,
    {
        proof {
            lemma_pow256_positive((7 - k) as nat);
        }
        let byte = ((v / d) % 256) as u8;
        proof {
            assert(byte == be_bytes(v)[k as int]);
            assert(be_bytes(v).take(k + 1) =~= be_bytes(v).take(k as int).push(byte));
        }
        out.push(byte);
        proof {
            assert(out@ =~= start + be_bytes(v).take(k + 1));
            if k < 7 {
                assert(pow256((7 - k) as nat) == 256 * pow256((6 - k) as nat));
            }
        }
        d = d / 256;
        k = k + 1;
    }
    proof {
        assert(be_bytes(v).take(8) =~= be_bytes(v));
    }
}

/// Appends all of `b` to `out`.
pub fn append_bytes(out: &mut Vec<u8>, b: &[u8])
    ensures
        final(out)@ == old(out)@ + b@,
{
    let ghost start = out@;
    let mut i: usize = 0;
    while i < b.len()
        invariant
            i <= b@.len(),
            out@ == start + b@.take(i as int),
        decreases b@.len() - i,
    {
        out.push(b[i]);
        proof {
            assert(out@ =~= start + b@.take(i + 1));
        }
        i = i + 1;
    }
    proof {
        assert(b@.take(b@.len() as int) =~= b@);
    }
}

/// A fresh copy of `b[start..end]`.
pub fn copy_range(b: &[u8], start: usize, end: usize) -> (r: Vec<u8>)
    requires
        start <= end <= b@.len(),
    ensures
        r@ == b@.subrange(start as int, end as int),
{
    let mut r: Vec<u8> = Vec::new();
    let mut i: usize = start;
    while i < end
        invariant
            start <= i <= end <= b@.len(),
            r@ == b@.subrange(start as int, i as int),
        decreases end - i,
    {
        r.push(b[i]);
        proof {
            assert(r@ =~= b@.subrange(start as int, i + 1));
        }
        i = i + 1;
    }
    r
}

} // verus!
