//! 256-bit unsigned integers as four little-endian 64-bit limbs, and their
//! byte encodings.

use vstd::prelude::*;

verus! {

/// 256 to the power `n`.
pub open spec fn pow256(n: nat) -> nat
    decreases n,
{
    if n == 0 {
        1
    } else {
        256 * pow256((n - 1) as nat)
    }
}

/// The number that a byte string denotes, least significant byte first.
pub open spec fn le_value(s: Seq<u8>) -> nat
    decreases s.len(),
{
    if s.len() == 0 {
        0
    } else {
        (s[0] as nat) + 256 * le_value(s.skip(1))
    }
}

/// The number that four limbs denote, least significant limb first.
pub open spec fn limbs_value(l: [u64; 4]) -> nat {
    (l[0] as nat) + (l[1] as nat) * 0x1_0000_0000_0000_0000
        + (l[2] as nat) * 0x1_0000_0000_0000_0000_0000_0000_0000_0000
        + (l[3] as nat) * 0x1_0000_0000_0000_0000_0000_0000_0000_0000_0000_0000_0000_0000
}

/// The first nine powers of 256.
pub proof fn lemma_pow256_values()
    ensures
        pow256(0) == 1,
        pow256(1) == 0x100,
        pow256(2) == 0x1_0000,
        pow256(3) == 0x100_0000,
        pow256(4) == 0x1_0000_0000,
        pow256(5) == 0x100_0000_0000,
        pow256(6) == 0x1_0000_0000_0000,
        pow256(7) == 0x100_0000_0000_0000,
        pow256(8) == 0x1_0000_0000_0000_0000,
{
    reveal_with_fuel(pow256, 9);
}

/// A byte string splits at any position into a low and a high part.
pub proof fn lemma_le_value_split(s: Seq<u8>, k: nat)
    requires
        k <= s.len(),
    ensures
        le_value(s) == le_value(s.take(k as int)) + pow256(k) * le_value(s.skip(k as int)),
    decreases k,
{
    if k == 0 {
        assert(s.skip(0) =~= s);
        assert(le_value(s.take(0)) == 0);
        assert(pow256(0) == 1);
    } else {
        let t = s.skip(1);
        let lo = s.take(k as int);
        let hi = le_value(s.skip(k as int));
        let p = pow256((k - 1) as nat);
        lemma_le_value_split(t, (k - 1) as nat);
        assert(t.take(k - 1) =~= lo.skip(1));
        assert(t.skip(k - 1) =~= s.skip(k as int));
        assert(le_value(t) == le_value(lo.skip(1)) + p * hi);
        assert(le_value(s) == (s[0] as nat) + 256 * le_value(t));
        assert(le_value(lo) == (lo[0] as nat) + 256 * le_value(lo.skip(1)));
        assert(lo[0] == s[0]);
        assert(pow256(k) == 256 * p);
        assert(256 * (p * hi) == (256 * p) * hi) by (nonlinear_arith);
    }
}

/// A byte string of length `n` denotes a number below `256^n`.
pub proof fn lemma_le_value_bound(s: Seq<u8>)
    ensures
        le_value(s) < pow256(s.len()),
    decreases s.len(),
{
    if s.len() == 0 {
    } else {
        lemma_le_value_bound(s.skip(1));
    }
}

/// A range of a byte string splits at any position inside it.
pub proof fn lemma_le_value_subrange_split(s: Seq<u8>, a: int, m: int, e: int)
    requires
        0 <= a <= m <= e <= s.len(),
    ensures
        le_value(s.subrange(a, e)) == le_value(s.subrange(a, m)) + pow256((m - a) as nat)
            * le_value(s.subrange(m, e)),
{
    let r = s.subrange(a, e);
    lemma_le_value_split(r, (m - a) as nat);
    assert(r.take(m - a) =~= s.subrange(a, m));
    assert(r.skip(m - a) =~= s.subrange(m, e));
}

/// One word-sized step of a split: the part from `m` on either starts a full
/// word later or is empty.
proof fn lemma_le_value_step(s: Seq<u8>, a: int, m: int, e: int)
    requires
        0 <= a <= m <= e <= s.len(),
        m == a + 8 || (m < a + 8 && m == e),
    ensures
        le_value(s.subrange(a, e)) == le_value(s.subrange(a, m)) + 0x1_0000_0000_0000_0000
            * le_value(s.subrange(m, e)),
{
    lemma_le_value_subrange_split(s, a, m, e);
    lemma_pow256_values();
    let hi = le_value(s.subrange(m, e));
    let p = pow256((m - a) as nat);
    if m == a + 8 {
        assert(p == 0x1_0000_0000_0000_0000);
    } else {
        assert(s.subrange(m, e).len() == 0);
        assert(hi == 0);
        assert(p * hi == 0) by (nonlinear_arith)
            requires
                hi == 0,
        ;
    }
}

/// Limbs are digits: equal values have equal limbs.
pub proof fn lemma_limbs_value_injective(a: [u64; 4], b: [u64; 4])
    requires
        limbs_value(a) == limbs_value(b),
    ensures
        a == b,
{
    assert(a[3] == b[3]);
    assert(a[2] == b[2]);
    assert(a[1] == b[1]);
    assert(a[0] == b[0]);
    assert(a =~= b);
}

/// Reads at most eight bytes as one little-endian word.
fn word_from_le_bytes(bytes: &[u8], start: usize, end: usize) -> (w: u64)
    requires
        start <= end <= bytes.len(),
        end - start <= 8,
    ensures
        w as nat == le_value(bytes@.subrange(start as int, end as int)),
{
    let mut acc: u64 = 0;
    let mut j: usize = end;
    proof {
        lemma_pow256_values();
    }
    while j > start
        invariant
            start <= j <= end <= bytes.len(),
            end - start <= 8,
            acc as nat == le_value(bytes@.subrange(j as int, end as int)),
            acc < pow256((end - j) as nat),
        decreases j - start,
    {
        j = j - 1;
        proof {
            let cur = bytes@.subrange(j as int, end as int);
            assert(cur.skip(1) =~= bytes@.subrange(j + 1, end as int));
            assert(cur[0] == bytes@[j as int]);
            lemma_pow256_values();
            reveal_with_fuel(pow256, 9);
        }
        acc = acc * 256 + bytes[j] as u64;
    }
    acc
}

/// Reads at most 32 bytes, least significant first, as four limbs; missing
/// high bytes count as zero.
pub fn limbs_from_le_bytes(bytes: &[u8]) -> (l: [u64; 4])
    requires
        bytes.len() <= 32,
    ensures
        limbs_value(l) == le_value(bytes@),
{
    let n: usize = bytes.len();
    let c1: usize = if n < 8 { n } else { 8 };
    let c2: usize = if n < 16 { n } else { 16 };
    let c3: usize = if n < 24 { n } else { 24 };
    let w0: u64 = word_from_le_bytes(bytes, 0, c1);
    let w1: u64 = word_from_le_bytes(bytes, c1, c2);
    let w2: u64 = word_from_le_bytes(bytes, c2, c3);
    let w3: u64 = word_from_le_bytes(bytes, c3, n);
    let l: [u64; 4] = [w0, w1, w2, w3];
    proof {
        let s = bytes@;
        let t1 = le_value(s.subrange(c1 as int, n as int));
        let t2 = le_value(s.subrange(c2 as int, n as int));
        let t3 = le_value(s.subrange(c3 as int, n as int));
        assert(s.subrange(0, n as int) =~= s);
        assert(le_value(s) == w0 + 0x1_0000_0000_0000_0000 * t1) by {
            lemma_le_value_step(s, 0, c1 as int, n as int);
        }
        assert(t1 == w1 + 0x1_0000_0000_0000_0000 * t2) by {
            lemma_le_value_step(s, c1 as int, c2 as int, n as int);
        }
        assert(t2 == w2 + 0x1_0000_0000_0000_0000 * t3) by {
            lemma_le_value_step(s, c2 as int, c3 as int, n as int);
        }
        assert(t3 == w3);
        assert(l[0] == w0 && l[1] == w1 && l[2] == w2 && l[3] == w3);
    }
    l
}

/// A byte string with one more byte at its high end.
pub proof fn lemma_le_value_push(s: Seq<u8>, b: u8)
    ensures
        le_value(s.push(b)) == le_value(s) + pow256(s.len()) * (b as nat),
{
    let t = s.push(b);
    lemma_le_value_split(t, s.len());
    assert(t.take(s.len() as int) =~= s);
    assert(t.skip(s.len() as int) =~= seq![b]);
    assert(le_value(seq![b]) == b as nat) by {
        reveal_with_fuel(le_value, 2);
        assert(seq![b].skip(1).len() == 0);
    }
}

/// Byte strings of one length that denote the same number are the same.
pub proof fn lemma_le_value_injective(a: Seq<u8>, b: Seq<u8>)
    requires
        a.len() == b.len(),
        le_value(a) == le_value(b),
    ensures
        a == b,
    decreases a.len(),
{
    if a.len() == 0 {
        assert(a =~= b);
    } else {
        lemma_le_value_injective(a.skip(1), b.skip(1));
        assert(a =~= seq![a[0]] + a.skip(1));
        assert(b =~= seq![b[0]] + b.skip(1));
    }
}

/// Writes a word as eight bytes, least significant first, at `start`.
fn put_word(out: &mut [u8; 32], start: usize, w: u64)
    requires
        start + 8 <= 32,
    ensures
        le_value(final(out)@.subrange(start as int, start + 8)) == w,
        forall|k: int|
            0 <= k < 32 && !(start <= k < start + 8) ==> final(out)@[k] == old(out)@[k],
{
    let mut rest: u64 = w;
    let mut j: usize = 0;
    proof {
        assert(out@.subrange(start as int, start as int).len() == 0);
        assert(le_value(out@.subrange(start as int, start as int)) == 0);
        assert(pow256(0) == 1);
        assert(pow256(0) * rest == rest);
    }
    while j < 8
        invariant
            0 <= j <= 8,
            start + 8 <= 32,
            le_value(out@.subrange(start as int, start + j)) + pow256(j as nat) * rest == w,
            forall|k: int| 0 <= k < 32 && !(start <= k < start + 8) ==> out@[k] == old(out)@[k],
        decreases 8 - j,
    {
        let ghost before = out@.subrange(start as int, start + j);
        let ghost low = le_value(before);
        let byte: u8 = (rest % 256) as u8;
        let next: u64 = rest / 256;
        out[start + j] = byte;
        proof {
            assert(out@.subrange(start as int, start + j + 1) =~= before.push(byte));
            lemma_le_value_push(before, byte);
            let p = pow256(j as nat);
            assert(pow256((j + 1) as nat) == 256 * p);
            assert(p * (byte as nat) + (256 * p) * next == p * rest) by (nonlinear_arith)
                requires
                    rest == 256 * next + byte,
            ;
        }
        rest = next;
        j = j + 1;
    }
    proof {
        lemma_pow256_values();
        assert(rest == 0) by {
            lemma_le_value_bound(out@.subrange(start as int, start + 8));
            assert(pow256(8) * rest <= w);
        }
    }
}

/// The 32 bytes, least significant first, that denote the same number as the
/// limbs.
pub fn limbs_to_le_bytes(l: &[u64; 4]) -> (bytes: [u8; 32])
    ensures
        le_value(bytes@) == limbs_value(*l),
{
    let mut bytes: [u8; 32] = [0u8; 32];
    put_word(&mut bytes, 0, l[0]);
    let ghost first = bytes@.subrange(0, 8);
    put_word(&mut bytes, 8, l[1]);
    let ghost second = bytes@.subrange(8, 16);
    put_word(&mut bytes, 16, l[2]);
    let ghost third = bytes@.subrange(16, 24);
    put_word(&mut bytes, 24, l[3]);
    proof {
        let s = bytes@;
        assert(s.subrange(0, 8) =~= first);
        assert(s.subrange(8, 16) =~= second);
        assert(s.subrange(16, 24) =~= third);
        assert(s.subrange(0, 32) =~= s);
        lemma_le_value_step(s, 0, 8, 32);
        lemma_le_value_step(s, 8, 16, 32);
        lemma_le_value_step(s, 16, 24, 32);
    }
    bytes
}

/// Whether the first number is smaller than the second.
pub fn limbs_lt(a: &[u64; 4], b: &[u64; 4]) -> (r: bool)
    ensures
        r == (limbs_value(*a) < limbs_value(*b)),
{
    if a[3] != b[3] {
        a[3] < b[3]
    } else if a[2] != b[2] {
        a[2] < b[2]
    } else if a[1] != b[1] {
        a[1] < b[1]
    } else {
        a[0] < b[0]
    }
}

/// Whether two numbers are equal.
pub fn limbs_eq(a: &[u64; 4], b: &[u64; 4]) -> (r: bool)
    ensures
        r == (limbs_value(*a) == limbs_value(*b)),
        r == (*a == *b),
{
    let r = a[0] == b[0] && a[1] == b[1] && a[2] == b[2] && a[3] == b[3];
    proof {
        if r {
            assert(*a =~= *b);
        }
        if limbs_value(*a) == limbs_value(*b) {
            lemma_limbs_value_injective(*a, *b);
        }
    }
    r
}

} // verus!
