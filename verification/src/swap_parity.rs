//! The swap-parity engine: metric-free transposition parity of two blades, in
//! five algorithmically distinct but provably equivalent formulations.

use vstd::prelude::*;

use crate::Mask;
use crate::bits::bv_and_xor;
use crate::bits::bv_lsb_facts;
use crate::bits::bv_shift_basics;
use crate::bits::bv_transpose;
use crate::bits::bv_u32_xor_parity;
use crate::bits::bv_xor_assoc;
use crate::bits::bv_xor_basics;
use crate::bits::bv_xor_shl;
use crate::bits::lemma_odd_count;
use crate::bits::lemma_parity_shl;
use crate::bits::lemma_parity_xor;
use crate::bits::parity64;
use crate::bits::shl64;
use crate::bits::shr64;
use crate::model::lemma_sab_pow2;
use crate::model::lemma_swap_is_sab;
use crate::model::sab;
use crate::model::swap_parity_spec;

verus! {

/// XOR of the right shifts of `a` by `1` up to `k - 1` (and by `0`, which is
/// `a` itself): the accumulate-and-pop loop, as a value.
pub open spec fn xr(a: u64, k: u64) -> u64
    decreases k,
{
    if k == 0 {
        0u64
    } else {
        xr(a, (k - 1) as u64) ^ shr64(a, (k - 1) as u64)
    }
}

/// One doubling step of the shift-XOR spread chain.
pub open spec fn spread_step(t: u64, h: u64) -> u64 {
    t ^ shl64(t, h)
}

/// The unrolled spread chain applied to `b`: each bit of the result is the
/// XOR of the bits of `b` at or below it.
pub open spec fn spread_chain(b: u64) -> u64 {
    spread_step(
        spread_step(spread_step(spread_step(spread_step(spread_step(b, 32), 16), 8), 4), 2),
        1,
    )
}

/// XOR of the first `k` left shifts of `b`, in Horner form.
pub open spec fn slx3(b: u64, s: u64, k: u64) -> u64
    decreases k,
{
    if k == 0 {
        0u64
    } else {
        b ^ shl64(slx3(b, s, (k - 1) as u64), s)
    }
}

/// Parity sum of `b` against successively deeper right shifts of `c`.
pub open spec fn gsum2(b: u64, c: u64, k: u64) -> bool
    decreases k,
{
    if k == 0 {
        false
    } else {
        (parity64(b & c) != gsum2(b, shr64(c, 1), (k - 1) as u64))
    }
}

pub(crate) proof fn lemma_xr_zero(k: u64)
    ensures
        xr(0, k) == 0,
    decreases k,
{
    if k == 0 {
    } else {
        lemma_xr_zero((k - 1) as u64);
        bv_shift_basics(0, (k - 1) as u64);
        bv_xor_basics(0, 0);
    }
}

pub(crate) proof fn lemma_xr_half(a: u64, k: u64)
    requires
        1 <= k <= 64,
    ensures
        xr(a, k) == a ^ xr(a / 2, (k - 1) as u64),
    decreases k,
{
    if k == 1 {
        bv_shift_basics(a, 0);
        bv_xor_basics(a, 0);
        assert(xr(a, 0) == 0);
        assert(xr(a / 2, 0) == 0);
        assert(xr(a, 1) == xr(a, 0) ^ shr64(a, 0));
        assert(xr(a, k) == a ^ xr(a / 2, (k - 1) as u64));
    } else {
        lemma_xr_half(a, (k - 1) as u64);
        crate::bits::bv_shr_half(a, (k - 2) as u64);
        assert(xr(a, k) == xr(a, (k - 1) as u64) ^ shr64(a, (k - 1) as u64));
        assert(xr(a / 2, (k - 1) as u64) == xr(a / 2, (k - 2) as u64) ^ shr64(
            a / 2,
            (k - 2) as u64,
        ));
        assert(shr64(a / 2, (k - 2) as u64) == shr64(a, (k - 1) as u64));
        bv_xor_assoc(a, xr(a / 2, (k - 2) as u64), shr64(a / 2, (k - 2) as u64));
    }
}

/// The accumulate-and-pop value over the full word equals `a ^ sab(a)`.
pub(crate) proof fn lemma_xr_sab(a: u64)
    ensures
        xr(a, 64) == a ^ sab(a),
    decreases a,
{
    if a == 0 {
        lemma_xr_zero(64);
        bv_xor_basics(0, 0);
    } else {
        let h = a / 2;
        lemma_xr_sab(h);
        lemma_xr_half(a, 64);
        bv_shift_basics(a, 0);
        assert(xr(h, 64) == xr(h, 63) ^ shr64(h, 63));
        assert(shr64(h, 63) == 0);
        bv_xor_basics(xr(h, 63), 0);
    }
}

proof fn bv_double_step(b: u64, h: u64, y: u64)
    by (bit_vector)
    requires
        1 <= h <= 32,
    ensures
        b ^ shl64(b ^ shl64(y ^ shl64(y, h), h), h) == (b ^ shl64(y, (2 * h) as u64)) ^ shl64(
            b ^ shl64(y, (2 * h) as u64),
            h,
        ),
{
}

/// Doubling the stride of a spread: one shift-XOR step turns the `2h`-stride
/// spread of `k` terms into the `h`-stride spread of `2k` terms.
proof fn lemma_spread_double(b: u64, h: u64, k: u64)
    requires
        1 <= h <= 32,
        k <= 32,
    ensures
        slx3(b, h, (2 * k) as u64) == spread_step(slx3(b, (2 * h) as u64, k), h),
    decreases k,
{
    if k == 0 {
        bv_shift_basics(0, h);
        bv_xor_basics(0, 0);
    } else {
        let y = slx3(b, (2 * h) as u64, (k - 1) as u64);
        lemma_spread_double(b, h, (k - 1) as u64);
        assert(slx3(b, h, (2 * k) as u64) == b ^ shl64(slx3(b, h, (2 * k - 1) as u64), h));
        assert(slx3(b, h, (2 * k - 1) as u64) == b ^ shl64(slx3(b, h, (2 * k - 2) as u64), h));
        assert(slx3(b, h, (2 * k - 2) as u64) == y ^ shl64(y, h));
        assert(slx3(b, (2 * h) as u64, k) == b ^ shl64(y, (2 * h) as u64));
        bv_double_step(b, h, y);
    }
}

/// The six unrolled shift-XOR steps compute the stride-one spread of the
/// whole word.
pub(crate) proof fn lemma_spread_chain(b: u64)
    ensures
        spread_chain(b) == slx3(b, 1, 64),
{
    assert(slx3(b, 32, 0) == 0);
    assert(slx3(b, 32, 1) == b ^ shl64(0, 32));
    bv_shift_basics(0, 32);
    bv_xor_basics(b, 0);
    assert(slx3(b, 32, 2) == b ^ shl64(b, 32));
    assert(slx3(b, 64, 1) == b ^ shl64(slx3(b, 64, 0), 64));
    bv_shift_basics(0, 64);
    assert(slx3(b, 64, 1) == b);
    assert(spread_step(b, 32) == slx3(b, 32, 2));
    lemma_spread_double(b, 16, 2);
    lemma_spread_double(b, 8, 4);
    lemma_spread_double(b, 4, 8);
    lemma_spread_double(b, 2, 16);
    lemma_spread_double(b, 1, 32);
}

/// Peeling one shift-XOR layer off the spread turns its parity against `c`
/// into one row term plus the same sum against a deeper shift of `c`.
pub(crate) proof fn lemma_slx_parity(b: u64, c: u64, k: u64)
    requires
        k <= 64,
    ensures
        parity64(slx3(b, 1, k) & c) == gsum2(b, c, k),
    decreases k,
{
    if k == 0 {
        bv_xor_basics(c, 0);
        assert(parity64(0u64) == false);
    } else {
        let p1 = slx3(b, 1, (k - 1) as u64);
        assert(slx3(b, 1, k) == b ^ shl64(p1, 1));
        bv_and_xor(b, shl64(p1, 1), c);
        lemma_parity_xor(b & c, shl64(p1, 1) & c);
        bv_transpose(p1, c);
        lemma_parity_shl(p1 & shr64(c, 1), 1);
        lemma_slx_parity(b, shr64(c, 1), (k - 1) as u64);
    }
}

proof fn bv_gsum_step(a: u64, k: u64)
    by (bit_vector)
    requires
        1 <= k,
        k >= 64 || a < shl64(1, k),
    ensures
        (k - 1) as u64 >= 64 || a / 2 < shl64(1, (k - 1) as u64),
        shr64(shr64(a, 1), 1) == shr64(a / 2, 1),
        shr64(a, 1) == a / 2,
        shl64(1, 0) == 1,
{
}

/// The row-by-row parity sum against `a >> 1` equals the parity of
/// `sab(a) & b`, by induction over halvings of `a`.
pub(crate) proof fn lemma_gsum2_sab(a: u64, b: u64, k: u64)
    requires
        k >= 64 || a < shl64(1, k),
    ensures
        gsum2(b, shr64(a, 1), k) == parity64(sab(a) & b),
    decreases k,
{
    if k == 0 {
        assert(shl64(1, 0) == 1) by (bit_vector);
        assert(a == 0);
        bv_shift_basics(a, 1);
        bv_xor_basics(b, 0);
        assert(parity64(0u64) == false);
    } else {
        bv_gsum_step(a, k);
        lemma_gsum2_sab(a / 2, b, (k - 1) as u64);
        assert(sab(a) == (a / 2) ^ sab(a / 2)) by {
            if a == 0 {
                bv_xor_basics(0, 0);
            }
        }
        bv_and_xor(a / 2, sab(a / 2), b);
        lemma_parity_xor((a / 2) & b, sab(a / 2) & b);
        bv_xor_basics(b, a / 2);
    }
}

/// The spread of a pre-shifted word is the shifted spread.
proof fn lemma_slx_shift(b: u64, k: u64)
    ensures
        slx3(shl64(b, 1), 1, k) == shl64(slx3(b, 1, k), 1),
    decreases k,
{
    if k == 0 {
        bv_shift_basics(0, 1);
    } else {
        let p1 = slx3(b, 1, (k - 1) as u64);
        lemma_slx_shift(b, (k - 1) as u64);
        bv_xor_shl(b, shl64(p1, 1), 1);
    }
}

/// The spread-chain transform of `b`, against `a >> 1`, has the swap parity.
pub(crate) proof fn lemma_spread_parity(a: u64, b: u64)
    ensures
        parity64(spread_chain(b) & shr64(a, 1)) == swap_parity_spec(a, b),
{
    lemma_spread_chain(b);
    lemma_slx_parity(b, shr64(a, 1), 64);
    lemma_gsum2_sab(a, b, 64);
    lemma_swap_is_sab(a, b);
}

/// Count transpositions needed to merge two basis elements, peeling one
/// generator of `b` per iteration: the reference formulation.
pub fn naive_swap(a: Mask, b: Mask) -> (r: bool)
    ensures
        r == swap_parity_spec(a, b),
{
    let mut b = b;
    let ghost b0 = b;
    let mut p: u32 = 0;
    proof {
        lemma_swap_is_sab(a, b0);
        bv_u32_xor_parity(0, 0);
    }
    while b != 0
        invariant
            swap_parity_spec(a, b0) == ((p & 1 != 0) != parity64(sab(a) & b)),
        decreases b,
    {
        let ghost b_old = b;
        let ghost p_old = p;
        proof {
            bv_lsb_facts(b);
        }
        let lsb = b & (!b + 1);  // least significant bit of rhs
        b ^= lsb;  // clear least significant bit
        let mask_lower = lsb - 1;  // mask for bits below lsb
        let mask_upper = !mask_lower ^ lsb;  // mask for bits above
        let a_upper = a & mask_upper;  // bits lsb needs to move past
        let c = a_upper.count_ones();
        p ^= c;  // flip parity if odd number of swaps
        proof {
            lemma_sab_pow2(a, lsb, mask_upper);
            assert(b_old == lsb ^ b);
            bv_and_xor(lsb, b, sab(a));
            lemma_parity_xor(sab(a) & lsb, sab(a) & b);
            lemma_odd_count(c, a_upper);
            bv_u32_xor_parity(p_old, c);
        }
    }
    proof {
        bv_xor_basics(sab(a), 0);
        assert(parity64(0u64) == false);
    }
    p & 1 != 0
}

/// Accumulate-and-pop: XOR every right shift of `a` against `b` into one
/// accumulator, then take the popcount parity — branch-free.
pub fn aap_swap(a: Mask, b: Mask) -> (r: bool)
    ensures
        r == swap_parity_spec(a, b),
{
    let mut s = a & b;
    let mut k: u64 = 0;
    proof {
        bv_xor_basics(b, 0);
        bv_xor_basics(a & b, 0);
    }
    while k < 64
        invariant
            k <= 64,
            s == (a & b) ^ (xr(a, k) & b),
        decreases 64 - k,
    {
        let ghost k0 = k;
        s ^= (a >> k) & b;
        k += 1;
        proof {
            assert(shr64(a, k0) == a >> k0);
            assert(xr(a, k) == xr(a, k0) ^ shr64(a, k0));
            bv_and_xor(xr(a, k0), shr64(a, k0), b);
            bv_xor_assoc(a & b, xr(a, k0) & b, shr64(a, k0) & b);
        }
    }
    proof {
        lemma_xr_sab(a);
        bv_and_xor(a, sab(a), b);
        bv_xor_assoc(a & b, sab(a) & b, 0);
        lemma_swap_is_sab(a, b);
    }
    let c = s.count_ones();
    proof {
        lemma_odd_count(c, s);
    }
    c & 1 != 0
}

/// The accumulate-and-pop reduction written as a single fold over the shift
/// amounts rather than a mutating loop.
pub fn fun_aap_swap(a: Mask, b: Mask) -> (r: bool)
    ensures
        r == swap_parity_spec(a, b),
{
    let mut s = a & b;
    let mut k: u64 = 0;
    proof {
        bv_xor_basics(b, 0);
        bv_xor_basics(a & b, 0);
    }
    while k < 64
        invariant
            k <= 64,
            s == (a & b) ^ (xr(a, k) & b),
        decreases 64 - k,
    {
        let ghost k0 = k;
        s = s ^ ((a >> k) & b);
        k += 1;
        proof {
            assert(shr64(a, k0) == a >> k0);
            assert(xr(a, k) == xr(a, k0) ^ shr64(a, k0));
            bv_and_xor(xr(a, k0), shr64(a, k0), b);
            bv_xor_assoc(a & b, xr(a, k0) & b, shr64(a, k0) & b);
        }
    }
    proof {
        lemma_xr_sab(a);
        bv_and_xor(a, sab(a), b);
        bv_xor_assoc(a & b, sab(a) & b, 0);
        lemma_swap_is_sab(a, b);
    }
    let c = s.count_ones();
    proof {
        lemma_odd_count(c, s);
    }
    c & 1 != 0
}

/// Unrolled bitwise version of swap parity: spread `b` by a shift-XOR chain,
/// intersect with `a >> 1`, take the popcount parity.
pub fn gerenuk_swap(a: Mask, b: Mask) -> (r: bool)
    ensures
        r == swap_parity_spec(a, b),
{
    let ghost b0 = b;
    let mut a = a;
    let mut b = b;
    let ghost a0 = a;
    a >>= 1;
    b ^= b << 32;
    b ^= b << 16;
    b ^= b << 8;
    b ^= b << 4;
    b ^= b << 2;
    b ^= b << 1;
    b &= a;
    proof {
        assert(b == spread_chain(b0) & shr64(a0, 1));
        lemma_spread_parity(a0, b0);
    }
    let c = b.count_ones();
    proof {
        lemma_odd_count(c, b);
    }
    c & 1 != 0
}

/// Unrolled bitwise version of swap parity with the shift of `a` done late.
pub fn gerenuk_late_a_rsh_swap(a: Mask, b: Mask) -> (r: bool)
    ensures
        r == swap_parity_spec(a, b),
{
    let ghost b0 = b;
    let mut b = b;
    b ^= b << 32;
    b ^= b << 16;
    b ^= b << 8;
    b ^= b << 4;
    b ^= b << 2;
    b ^= b << 1;
    b &= a >> 1;
    proof {
        assert(b == spread_chain(b0) & shr64(a, 1));
        lemma_spread_parity(a, b0);
    }
    let c = b.count_ones();
    proof {
        lemma_odd_count(c, b);
    }
    c & 1 != 0
}

/// Unrolled bitwise version of swap parity with no shift of `a`: `b` is
/// pre-shifted instead, which moves the whole spread up one position.
pub fn gerenuk_no_a_rsh_swap(a: Mask, b: Mask) -> (r: bool)
    ensures
        r == swap_parity_spec(a, b),
{
    let ghost b0 = b;
    let mut b = b;
    b <<= 1;
    let ghost b1 = b;
    b ^= b << 32;
    b ^= b << 16;
    b ^= b << 8;
    b ^= b << 4;
    b ^= b << 2;
    b ^= b << 1;
    b &= a;
    proof {
        assert(b1 == shl64(b0, 1));
        assert(b == spread_chain(b1) & a);
        lemma_spread_chain(b1);
        lemma_spread_chain(b0);
        lemma_slx_shift(b0, 64);
        let z = slx3(b0, 1, 64);
        bv_transpose(z, a);
        lemma_parity_shl(z & shr64(a, 1), 1);
        lemma_slx_parity(b0, shr64(a, 1), 64);
        lemma_gsum2_sab(a, b0, 64);
        lemma_swap_is_sab(a, b0);
    }
    let c = b.count_ones();
    proof {
        lemma_odd_count(c, b);
    }
    c & 1 != 0
}

/// The equivalence harness for the swap engine: every variant returns the
/// same bit as the iterative reference on the given pair.
pub fn swap_variants_agree(a: Mask, b: Mask) -> (r: bool)
    ensures
        r,
{
    let np = naive_swap(a, b);
    let ap = aap_swap(a, b);
    let fp = fun_aap_swap(a, b);
    let gs = gerenuk_swap(a, b);
    let gl = gerenuk_late_a_rsh_swap(a, b);
    let gn = gerenuk_no_a_rsh_swap(a, b);
    np == ap && np == fp && np == gs && np == gl && np == gn
}

} // verus!
