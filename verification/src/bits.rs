//! Word-level groundwork: guarded shifts, bit masks, population count and its
//! parity, and the lemmas about them that the parity engines build on.

use vstd::prelude::*;

verus! {

/// Left shift by `s`, zero once the whole word has been shifted out.
pub open spec fn shl64(x: u64, s: u64) -> u64 {
    if s >= 64 {
        0u64
    } else {
        x << s
    }
}

/// Right shift by `s`, zero once the whole word has been shifted out.
pub open spec fn shr64(x: u64, s: u64) -> u64 {
    if s >= 64 {
        0u64
    } else {
        x >> s
    }
}

/// Mask of the lowest `n` bits (all ones for `n >= 64`).
pub open spec fn low64(n: u64) -> u64 {
    if n >= 64 {
        !0u64
    } else if n == 0 {
        0u64
    } else {
        !0u64 >> ((64 - n) as u64)
    }
}

/// Bit `i` of `x`.
pub open spec fn bit64(x: u64, i: u64) -> bool {
    (x >> i) & 1 == 1
}

/// Number of set bits of `x`.
pub open spec fn pop64(x: u64) -> nat
    decreases x,
{
    if x == 0 {
        0
    } else {
        (x % 2 + pop64(x / 2)) as nat
    }
}

/// Population-count parity: true iff `x` has an odd number of set bits.
pub open spec fn parity64(x: u64) -> bool {
    pop64(x) % 2 == 1
}

/// Bit-scanning parity: peels one bit per step instead of summing a count.
pub open spec fn scan_parity(x: u64) -> bool
    decreases x,
{
    if x == 0 {
        false
    } else {
        (x % 2 == 1) != scan_parity(x / 2)
    }
}

pub proof fn bv_xor_basics(x: u64, y: u64)
    by (bit_vector)
    ensures
        x ^ 0 == x,
        0 ^ x == x,
        x ^ x == 0,
        x ^ y == y ^ x,
        x & 0 == 0,
        x & !0 == x,
        x & x == x,
        x & y == y & x,
        (x ^ y) / 2 == (x / 2) ^ (y / 2),
        ((x ^ y) % 2 == 1) == ((x % 2 == 1) != (y % 2 == 1)),
        (x & y) / 2 == (x / 2) & (y / 2),
        ((x & y) % 2 == 1) == ((x % 2 == 1) && (y % 2 == 1)),
{
}

/// AND distributes over XOR and is associative.
pub proof fn bv_and_xor(x: u64, y: u64, z: u64)
    by (bit_vector)
    ensures
        (x ^ y) & z == (x & z) ^ (y & z),
        z & (x ^ y) == (z & x) ^ (z & y),
        (x & y) & z == x & (y & z),
{
}

/// Shifts of zero, shifts by zero, and halving as a shift.
pub proof fn bv_shift_basics(x: u64, s: u64)
    by (bit_vector)
    ensures
        shl64(x, 0) == x,
        shr64(x, 0) == x,
        shl64(0, s) == 0,
        shr64(0, s) == 0,
        bit64(0, s) == false,
        x / 2 == shr64(x, 1),
        shr64(x / 2, 63) == 0,
{
}

/// XOR is associative and self-cancelling.
pub proof fn bv_xor_assoc(x: u64, y: u64, z: u64)
    by (bit_vector)
    ensures
        (x ^ y) ^ z == x ^ (y ^ z),
        x ^ (x ^ y) == y,
        (x & y) ^ x == x & !y,
{
}

/// Left shift distributes over XOR and composes with a further shift.
pub proof fn bv_xor_shl(x: u64, y: u64, s: u64)
    by (bit_vector)
    ensures
        shl64(x ^ y, s) == shl64(x, s) ^ shl64(y, s),
        s < 64 ==> shl64(shl64(x, s), 1) == shl64(x, (s + 1) as u64),
{
}

/// Right shift distributes over XOR and composes with a further shift.
pub proof fn bv_xor_shr(x: u64, y: u64, s: u64)
    by (bit_vector)
    ensures
        shr64(x ^ y, s) == shr64(x, s) ^ shr64(y, s),
        s < 64 ==> shr64(shr64(x, s), 1) == shr64(x, (s + 1) as u64),
{
}

/// Composing halving with a right shift.
pub proof fn bv_shr_half(x: u64, s: u64)
    by (bit_vector)
    requires
        s < 64,
    ensures
        shr64(x / 2, s) == shr64(x, (s + 1) as u64),
{
}

/// A word confined to its low `k` bits vanishes under a shift by `k` or more.
pub proof fn bv_shr_high(a: u64, k: u64, s: u64)
    by (bit_vector)
    requires
        a & low64(k) == a,
        k <= s,
    ensures
        shr64(a, s) == 0,
{
}

/// A left shift against a mask equals the shift of the mask pulled down.
pub proof fn bv_transpose(x: u64, c: u64)
    by (bit_vector)
    ensures
        shl64(x, 1) & c == shl64(x & shr64(c, 1), 1),
        x & shr64(c, 1) <= shr64(!0u64, 1),
{
}

/// Isolating the lowest set bit by two's complement.
pub proof fn bv_lsb_facts(b: u64)
    by (bit_vector)
    requires
        b != 0,
    ensures
        !b + 1 <= 0xFFFF_FFFF_FFFF_FFFFu64,
        b & ((!b + 1) as u64) != 0,
        (b & ((!b + 1) as u64)) & (((b & ((!b + 1) as u64)) - 1) as u64) == 0,
        b ^ (b & ((!b + 1) as u64)) < b,
        (b & ((!b + 1) as u64)) ^ (b ^ (b & ((!b + 1) as u64))) == b,
{
}

/// Parity of an XOR of 32-bit counters, read off their low bits.
pub proof fn bv_u32_xor_parity(p: u32, c: u32)
    by (bit_vector)
    ensures
        ((p ^ c) & 1 != 0) == ((p & 1 != 0) != (c & 1 != 0)),
        0u32 & 1 == 0,
{
}

/// How single bits, halving and guarded shifts interact.
pub proof fn bv_bit_ops(x: u64, y: u64, j: u64)
    by (bit_vector)
    ensures
        bit64(x ^ y, j) == (bit64(x, j) != bit64(y, j)),
        bit64(x & y, j) == (bit64(x, j) && bit64(y, j)),
        (x & shl64(1, j) != 0) == bit64(x, j),
        j < 64 ==> bit64(x / 2, j) == bit64(x, (j + 1) as u64),
        j < 64 ==> shr64(x / 2, (j + 1) as u64) == shr64(x, (j + 2) as u64),
        j < 64 ==> (shr64(x, j) % 2 == 1) == bit64(x, j),
        j < 64 ==> shr64(x, j) / 2 == shr64(x, (j + 1) as u64),
        bit64(x / 2, 63) == false,
{
}

/// Splitting the low `n` bits into the low `n - 1` bits and bit `n - 1`.
pub proof fn bv_low_split(x: u64, n: u64)
    by (bit_vector)
    requires
        1 <= n <= 64,
    ensures
        x & low64(n) == (x & low64((n - 1) as u64)) ^ (x & shl64(1, (n - 1) as u64)),
        shl64(1, (n - 1) as u64) != 0,
        shl64(1, (n - 1) as u64) & ((shl64(1, (n - 1) as u64) - 1) as u64) == 0,
{
}

/// Halving a power of two and intersections with it.
proof fn bv_pow2_half(x: u64, l: u64)
    by (bit_vector)
    requires
        l != 0,
        l & ((l - 1) as u64) == 0,
    ensures
        l == 1 ==> x & l == x % 2,
        l != 1 ==> l % 2 == 0,
        l != 1 ==> l / 2 != 0,
        l != 1 ==> (l / 2) & (((l / 2) - 1) as u64) == 0,
        l != 1 ==> (x & l) % 2 == 0,
        (x & l) / 2 == (x / 2) & (l / 2),
        ((x & l) != 0) == (((x / 2) & (l / 2)) != 0 || (l == 1 && x % 2 == 1)),
{
}

/// Decomposing a shift by `s` into a shift by `s - 1` and a doubling.
proof fn bv_shl_step(x: u64, s: u64)
    by (bit_vector)
    requires
        1 <= s,
        x <= shr64(!0u64, s),
    ensures
        shl64(x, s) == shl64(shl64(x, (s - 1) as u64), 1),
        x <= shr64(!0u64, (s - 1) as u64),
        shl64(x, (s - 1) as u64) <= shr64(!0u64, 1),
        shl64(shl64(x, (s - 1) as u64), 1) % 2 == 0,
        shl64(shl64(x, (s - 1) as u64), 1) / 2 == shl64(x, (s - 1) as u64),
{
}

/// Unfolding of the popcount parity one bit at a time.
pub proof fn lemma_parity_unfold(x: u64)
    ensures
        parity64(x) == ((x % 2 == 1) != parity64(x / 2)),
{
    if x == 0 {
    } else {
        let a = (x % 2) as nat;
        let m = pop64(x / 2);
        assert(pop64(x) == a + m);
        assert(a + m == 2 * (m / 2) + (a + m % 2));
        if a + m % 2 >= 2 {
            assert((a + m) % 2 == (a + m % 2 - 2) as nat % 2);
        }
    }
}

/// The bit-scanning parity and the popcount parity agree on every word.
pub proof fn lemma_scan_parity_agrees(x: u64)
    ensures
        scan_parity(x) == parity64(x),
    decreases x,
{
    if x == 0 {
    } else {
        lemma_parity_unfold(x);
        lemma_scan_parity_agrees(x / 2);
    }
}

/// Parity is XOR-linear: the parity of an XOR is the XOR of the parities.
pub proof fn lemma_parity_xor(x: u64, y: u64)
    ensures
        parity64(x ^ y) == (parity64(x) != parity64(y)),
    decreases x,
{
    bv_xor_basics(x, y);
    bv_xor_basics(y, x);
    if x == 0 {
        assert(parity64(0u64) == false);
    } else {
        lemma_parity_xor(x / 2, y / 2);
        lemma_parity_unfold(x);
        lemma_parity_unfold(y);
        lemma_parity_unfold(x ^ y);
    }
}

/// The intersection with a single-bit mask has odd parity exactly when it is
/// non-empty.
pub proof fn lemma_parity_pow2(x: u64, l: u64)
    requires
        l != 0,
        l & ((l - 1) as u64) == 0,
    ensures
        parity64(x & l) == (x & l != 0),
    decreases l,
{
    bv_pow2_half(x, l);
    if l == 1 {
        assert(pop64(0u64) == 0);
        assert(pop64(1u64) == 1);
        if x % 2 == 1 {
            assert(parity64(x & l));
        } else {
            assert(parity64(x & l) == false);
        }
    } else {
        lemma_parity_pow2(x / 2, l / 2);
        lemma_parity_unfold(x & l);
    }
}

/// Relies on `u64::count_ones` from std: it returns the number of set bits of
/// its argument, which `pop64` counts one bit per step.
pub assume_specification[ u64::count_ones ](x: u64) -> (r: u32)
    ensures
        r == pop64(x),
;

/// An odd population count shows in the low bit of the counter.
pub proof fn lemma_odd_count(c: u32, x: u64)
    requires
        c == pop64(x),
    ensures
        (c & 1 != 0) == parity64(x),
{
    assert(c & 1 == c % 2) by (bit_vector);
}

/// Shifting left does not change the parity while no set bit is lost.
pub proof fn lemma_parity_shl(x: u64, s: u64)
    requires
        x <= shr64(!0u64, s),
    ensures
        parity64(shl64(x, s)) == parity64(x),
    decreases s,
{
    if s == 0 {
        assert(shl64(x, 0) == x) by (bit_vector);
    } else {
        bv_shl_step(x, s);
        let y = shl64(x, (s - 1) as u64);
        lemma_parity_shl(x, (s - 1) as u64);
        lemma_parity_unfold(shl64(y, 1));
    }
}

} // verus!
