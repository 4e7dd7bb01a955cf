//! Byte-level helpers: little-endian integers and exact comparisons.

use vstd::prelude::*;

verus! {

/// `256^n`.
pub open spec fn pow256(n: nat) -> nat
    decreases n,
{
    if n == 0 {
        1
    } else {
        256 * pow256((n - 1) as nat)
    }
}

/// The number that the bytes `s` encode, least significant byte first.
pub open spec fn le_value(s: Seq<u8>) -> nat
    decreases s.len(),
{
    if s.len() == 0 {
        0
    } else {
        (s[0] + 256 * le_value(s.subrange(1, s.len() as int))) as nat
    }
}

/// `le_value(s)` fits in `s.len()` bytes.
pub proof fn lemma_le_value_bound(s: Seq<u8>)
    ensures
        le_value(s) < pow256(s.len()),
    decreases s.len(),
{
    if s.len() > 0 {
        lemma_le_value_bound(s.subrange(1, s.len() as int));
    }
}

/// Reads eight bytes as a little-endian `u64`, as `u64::from_le_bytes` does.
pub fn le_u64(b: &[u8]) -> (r: u64)
    requires
        b@.len() == 8,
    ensures
        r == le_value(b@),
{
    let mut acc: u64 = 0;
    let mut k: usize = 8;
    proof {
        reveal_with_fuel(pow256, 9);
        assert(b@.subrange(8, 8) =~= Seq::<u8>::empty());
    }
    while k > 0
        invariant
            b@.len() == 8,
            k <= 8,
            acc == le_value(b@.subrange(k as int, 8)),
            pow256(8) == 0x1_0000_0000_0000_0000,
        decreases k,
    {
        let ghost tail = b@.subrange(k as int, 8);
        let ghost next = b@.subrange(k - 1, 8);
        proof {
            assert(next.subrange(1, next.len() as int) =~= tail);
            lemma_le_value_bound(tail);
            lemma_pow256_mono(tail.len(), 7);
            assert(pow256(8) == 256 * pow256(7));
        }
        let byte = b[k - 1];
        assert(acc * 256 + byte < 0x1_0000_0000_0000_0000) by (nonlinear_arith)
            requires
                acc < pow256(7),
                pow256(8) == 256 * pow256(7),
                pow256(8) == 0x1_0000_0000_0000_0000,
                byte < 256,
        ;
        acc = acc * 256 + byte as u64;
        k = k - 1;
    }
    assert(b@.subrange(0, 8) =~= b@);
    acc
}

/// `pow256` grows with its exponent.
pub proof fn lemma_pow256_mono(m: nat, n: nat)
    requires
        m <= n,
    ensures
        pow256(m) <= pow256(n),
    decreases n,
{
    if m < n {
        lemma_pow256_mono(m, (n - 1) as nat);
    }
}

/// Whether two byte strings are the same, length included.
pub fn bytes_eq(a: &[u8], b: &[u8]) -> (r: bool)
    ensures
        r == (a@ == b@),
{
    if a.len() != b.len() {
        return false;
    }
    let mut i: usize = 0;
    while i < a.len()
        invariant
            a@.len() == b@.len(),
            i <= a@.len(),
            forall|j: int| 0 <= j < i ==> a@[j] == b@[j],
        decreases a@.len() - i,
    {
        if a[i] != b[i] {
            return false;
        }
        i = i + 1;
    }
    assert(a@ =~= b@);
    true
}

/// Whether every byte of `b` is zero.
pub fn all_zero(b: &[u8]) -> (r: bool)
    ensures
        r == (forall|j: int| 0 <= j < b@.len() ==> b@[j] == 0),
{
    let mut i: usize = 0;
    while i < b.len()
        invariant
            i <= b@.len(),
            forall|j: int| 0 <= j < i ==> b@[j] == 0,
        decreases b@.len() - i,
    {
        if b[i] != 0 {
            return false;
        }
        i = i + 1;
    }
    true
}

} // verus!
