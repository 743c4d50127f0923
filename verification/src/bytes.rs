//! Fixed-width integers in byte buffers.

use vstd::prelude::*;

verus! {

/// The number written by the bytes `s`, least significant first.
pub open spec fn le_value(s: Seq<u8>) -> nat
    decreases s.len(),
{
    if s.len() == 0 {
        0
    } else {
        s[0] as nat + 256 * le_value(s.drop_first())
    }
}

/// The number written by the bytes `s`, most significant first.
pub open spec fn be_value(s: Seq<u8>) -> nat
    decreases s.len(),
{
    if s.len() == 0 {
        0
    } else {
        be_value(s.drop_last()) * 256 + s.last() as nat
    }
}

pub open spec fn pow256(n: nat) -> nat
    decreases n,
{
    if n == 0 {
        1
    } else {
        256 * pow256((n - 1) as nat)
    }
}

proof fn lemma_pow256_monotone(a: nat, b: nat)
    requires
        a <= b,
    ensures
        pow256(a) <= pow256(b),
    decreases b,
{
    if a < b {
        lemma_pow256_monotone(a, (b - 1) as nat);
    }
}

proof fn lemma_pow256_8()
    ensures
        pow256(8) == 0x1_0000_0000_0000_0000,
{
    reveal_with_fuel(pow256, 9);
}

proof fn lemma_step_bound(acc: nat, byte: nat, p: nat)
    by (nonlinear_arith)
    requires
        acc < p,
        byte < 256,
    ensures
        byte + 256 * acc < 256 * p,
        acc * 256 + byte < 256 * p,
{
}

/// Reads `n <= 8` bytes of `b` from `off` as a little-endian number.
pub fn read_le(b: &[u8], off: usize, n: usize) -> (r: u64)
    requires
        n <= 8,
        off + n <= b.len(),
    ensures
        r as nat == le_value(b@.subrange(off as int, off + n)),
{
    let mut acc: u64 = 0;
    let mut k: usize = n;
    assert(b@.subrange(off + n, off + n) =~= Seq::<u8>::empty());
    while k > 0
        invariant
            k <= n <= 8,
            off + n <= b.len(),
            acc as nat == le_value(b@.subrange(off + k, off + n)),
            (acc as nat) < pow256((n - k) as nat),
        decreases k,
    {
        k -= 1;
        let byte = b[off + k];
        proof {
            let tail = b@.subrange(off + k, off + n);
            assert(tail.drop_first() =~= b@.subrange(off + k + 1, off + n));
            lemma_step_bound(acc as nat, byte as nat, pow256((n - k - 1) as nat));
            lemma_pow256_monotone((n - k) as nat, 8);
            lemma_pow256_8();
        }
        acc = byte as u64 + 256 * acc;
    }
    acc
}

/// Reads `n <= 8` bytes of `b` from `off` as a big-endian number.
pub fn read_be(b: &[u8], off: usize, n: usize) -> (r: u64)
    requires
        n <= 8,
        off + n <= b.len(),
    ensures
        r as nat == be_value(b@.subrange(off as int, off + n)),
{
    let mut acc: u64 = 0;
    let mut k: usize = 0;
    assert(b@.subrange(off as int, off as int) =~= Seq::<u8>::empty());
    while k < n
        invariant
            k <= n <= 8,
            off + n <= b.len(),
            acc as nat == be_value(b@.subrange(off as int, off + k)),
            (acc as nat) < pow256(k as nat),
        decreases n - k,
    {
        let byte = b[off + k];
        proof {
            let head = b@.subrange(off as int, off + k + 1);
            assert(head.drop_last() =~= b@.subrange(off as int, off + k));
            lemma_step_bound(acc as nat, byte as nat, pow256(k as nat));
            lemma_pow256_monotone((k + 1) as nat, 8);
            lemma_pow256_8();
        }
        acc = acc * 256 + byte as u64;
        k += 1;
    }
    acc
}

/// A big-endian number of `n` bytes is below `256^n`.
pub proof fn lemma_be_value_bound(s: Seq<u8>)
    ensures
        be_value(s) < pow256(s.len()),
        s.len() == 2 ==> be_value(s) < 0x10000,
        s.len() == 4 ==> be_value(s) < 0x1_0000_0000,
    decreases s.len(),
{
    if s.len() > 0 {
        lemma_be_value_bound(s.drop_last());
        lemma_step_bound(be_value(s.drop_last()), s.last() as nat, pow256((s.len() - 1) as nat));
    }
    reveal_with_fuel(pow256, 5);
}

} // verus!
