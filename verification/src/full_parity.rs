//! The full-parity engine: the sign-flip bit of a geometric product, fusing
//! swap parity with the metric contribution of the shared negative-square
//! generators. Every variant is proved equal to the composed form
//! `swap_parity XOR metric_parity`.

use vstd::prelude::*;

use crate::Mask;
use crate::bits::bv_and_xor;
use crate::bits::bv_lsb_facts;
use crate::bits::bv_shift_basics;
use crate::bits::bv_transpose;
use crate::bits::bv_u32_xor_parity;
use crate::bits::bv_xor_assoc;
use crate::bits::bv_xor_basics;
use crate::bits::bv_xor_shl;
use crate::bits::bv_xor_shr;
use crate::bits::lemma_odd_count;
use crate::bits::lemma_parity_shl;
use crate::bits::lemma_parity_xor;
use crate::bits::low64;
use crate::bits::parity64;
use crate::bits::shl64;
use crate::bits::shr64;
use crate::model::full_parity_spec;
use crate::model::lemma_sab_pow2;
use crate::model::lemma_swap_is_sab;
use crate::model::sab;
use crate::swap_parity::lemma_spread_parity;
use crate::swap_parity::lemma_xr_sab;
use crate::swap_parity::spread_chain;
use crate::swap_parity::xr;

verus! {

/// Full multiplication parity by the reference bit-peeling loop, seeded with
/// the metric contribution of the shared generators.
pub fn naive_full(a: Mask, b: Mask, _pmask: Mask, qmask: Mask, _dims: u32) -> (r: bool)
    ensures
        r == full_parity_spec(a, b, qmask),
{
    let ghost b0 = b;
    let mut b = b;
    let mut p = (a & b & qmask).count_ones();
    proof {
        lemma_swap_is_sab(a, b0);
        lemma_odd_count(p, a & b0 & qmask);
    }
    while b != 0
        invariant
            full_parity_spec(a, b0, qmask) == ((p & 1 != 0) != parity64(sab(a) & b)),
        decreases b,
    {
        let ghost b_old = b;
        let ghost p_old = p;
        proof {
            bv_lsb_facts(b);
        }
        let lsb = b & (!b + 1);  // least significant bit of rhs
        b ^= lsb;  // clear least significant bit
        let mask_lower = lsb - 1;  // mask for bits below lsb
        let mask_upper = !mask_lower ^ lsb;  // mask for bits above
        let a_upper = a & mask_upper;  // bits lsb needs to move past
        let c = a_upper.count_ones();
        p ^= c;  // flip parity if odd number of swaps
        proof {
            lemma_sab_pow2(a, lsb, mask_upper);
            assert(b_old == lsb ^ b);
            bv_and_xor(lsb, b, sab(a));
            lemma_parity_xor(sab(a) & lsb, sab(a) & b);
            lemma_odd_count(c, a_upper);
            bv_u32_xor_parity(p_old, c);
        }
    }
    proof {
        bv_xor_basics(sab(a), 0);
        assert(parity64(0u64) == false);
    }
    p & 1 != 0
}

/// The accumulator of the fused accumulate-and-pop loop over `dims` shifts,
/// seeded with the positive-partition share of `a & b`, reduces to the
/// metric-seeded spread value once the blades fit the algebra.
proof fn lemma_aap_full_value(a: u64, b: u64, pmask: u64, qmask: u64, d: u64)
    requires
        d <= 64,
        pmask & low64(d) == pmask,
        qmask == low64(d) ^ pmask,
        a & low64(d) == a,
    ensures
        ((a & b) & pmask) ^ (xr(a, d) & b) == ((a & b) & qmask) ^ (sab(a) & b),
{
    lemma_xr_stable(a, d, 64);
    lemma_xr_sab(a);
    bv_and_xor(a, sab(a), b);
    bv_qmask(a, b, pmask, qmask, d);
    let seed = (a & b) & pmask;
    let ab = a & b;
    let sb = sab(a) & b;
    assert(seed ^ (ab ^ sb) == (seed ^ ab) ^ sb) by (bit_vector);
}

/// `xr` stops changing once every set bit of `a` has been shifted out.
proof fn lemma_xr_stable(a: u64, k: u64, j: u64)
    requires
        k <= j <= 64,
        a & low64(k) == a,
    ensures
        xr(a, j) == xr(a, k),
    decreases j,
{
    if j > k {
        lemma_xr_stable(a, k, (j - 1) as u64);
        crate::bits::bv_shr_high(a, k, (j - 1) as u64);
        bv_xor_basics(xr(a, (j - 1) as u64), 0);
    }
}

proof fn bv_qmask(a: u64, b: u64, pmask: u64, qmask: u64, d: u64)
    by (bit_vector)
    requires
        d <= 64,
        pmask & low64(d) == pmask,
        qmask == low64(d) ^ pmask,
        a & low64(d) == a,
    ensures
        ((a & b) & pmask) ^ (a & b) == (a & b) & qmask,
{
}

/// Fused accumulate-and-pop full parity: the positive-partition seed absorbs
/// the metric term, so one final popcount parity yields the full parity. The
/// blade `a` must lie within the algebra's `dims` generators.
pub fn aap_full(a: Mask, b: Mask, pmask: Mask, qmask: Mask, dims: u32) -> (r: bool)
    requires
        dims <= 64,
        pmask & low64(dims as u64) == pmask,
        qmask == low64(dims as u64) ^ pmask,
        a & low64(dims as u64) == a,
    ensures
        r == full_parity_spec(a, b, qmask),
{
    let d: u64 = dims as u64;
    let mut s = a & b & pmask;
    let mut k: u64 = 0;
    proof {
        bv_xor_basics(b, 0);
        bv_xor_basics(a & b & pmask, 0);
    }
    while k < d
        invariant
            k <= d,
            d <= 64,
            s == ((a & b) & pmask) ^ (xr(a, k) & b),
        decreases d - k,
    {
        let ghost k0 = k;
        s ^= (a >> k) & b;
        k += 1;
        proof {
            assert(shr64(a, k0) == a >> k0);
            assert(xr(a, k) == xr(a, k0) ^ shr64(a, k0));
            bv_and_xor(xr(a, k0), shr64(a, k0), b);
            bv_xor_assoc(a & b & pmask, xr(a, k0) & b, shr64(a, k0) & b);
        }
    }
    proof {
        lemma_aap_full_value(a, b, pmask, qmask, d);
        lemma_parity_xor((a & b) & qmask, sab(a) & b);
        lemma_swap_is_sab(a, b);
    }
    let c = s.count_ones();
    proof {
        lemma_odd_count(c, s);
    }
    c & 1 != 0
}

/// The fused accumulate-and-pop reduction written as a single fold over the
/// shift amounts rather than a mutating loop.
pub fn fun_aap_full(a: Mask, b: Mask, pmask: Mask, qmask: Mask, dims: u32) -> (r: bool)
    requires
        dims <= 64,
        pmask & low64(dims as u64) == pmask,
        qmask == low64(dims as u64) ^ pmask,
        a & low64(dims as u64) == a,
    ensures
        r == full_parity_spec(a, b, qmask),
{
    let d: u64 = dims as u64;
    let mut s = a & b & pmask;
    let mut k: u64 = 0;
    proof {
        bv_xor_basics(b, 0);
        bv_xor_basics(a & b & pmask, 0);
    }
    while k < d
        invariant
            k <= d,
            d <= 64,
            s == ((a & b) & pmask) ^ (xr(a, k) & b),
        decreases d - k,
    {
        let ghost k0 = k;
        s = s ^ ((a >> k) & b);
        k += 1;
        proof {
            assert(shr64(a, k0) == a >> k0);
            assert(xr(a, k) == xr(a, k0) ^ shr64(a, k0));
            bv_and_xor(xr(a, k0), shr64(a, k0), b);
            bv_xor_assoc(a & b & pmask, xr(a, k0) & b, shr64(a, k0) & b);
        }
    }
    proof {
        lemma_aap_full_value(a, b, pmask, qmask, d);
        lemma_parity_xor((a & b) & qmask, sab(a) & b);
        lemma_swap_is_sab(a, b);
    }
    let c = s.count_ones();
    proof {
        lemma_odd_count(c, s);
    }
    c & 1 != 0
}

/// Unrolled bitwise full parity: the metric term is folded into the spread
/// value before the single popcount.
pub fn gerenuk_full(a: Mask, b: Mask, _pmask: Mask, qmask: Mask, _dims: u32) -> (r: bool)
    ensures
        r == full_parity_spec(a, b, qmask),
{
    let ghost a0 = a;
    let ghost b0 = b;
    let mut a = a;
    let mut b = b;
    let negs = a & b & qmask;
    a >>= 1;
    b ^= b << 32;
    b ^= b << 16;
    b ^= b << 8;
    b ^= b << 4;
    b ^= b << 2;
    let t = ((b ^ (b << 1)) & a) ^ negs;
    proof {
        assert(t == (spread_chain(b0) & shr64(a0, 1)) ^ negs);
        lemma_spread_parity(a0, b0);
        lemma_parity_xor(spread_chain(b0) & shr64(a0, 1), negs);
    }
    let c = t.count_ones();
    proof {
        lemma_odd_count(c, t);
    }
    c & 1 != 0
}

/// Unrolled bitwise full parity with the shift of `a` done late.
pub fn gerenuk_late_a_rsh_full(a: Mask, b: Mask, _pmask: Mask, qmask: Mask, _dims: u32) -> (r:
    bool)
    ensures
        r == full_parity_spec(a, b, qmask),
{
    let ghost b0 = b;
    let mut b = b;
    let negs = a & b & qmask;
    b ^= b << 32;
    b ^= b << 16;
    b ^= b << 8;
    b ^= b << 4;
    b ^= b << 2;
    let t = ((b ^ (b << 1)) & (a >> 1)) ^ negs;
    proof {
        assert(t == (spread_chain(b0) & shr64(a, 1)) ^ negs);
        lemma_spread_parity(a, b0);
        lemma_parity_xor(spread_chain(b0) & shr64(a, 1), negs);
    }
    let c = t.count_ones();
    proof {
        lemma_odd_count(c, t);
    }
    c & 1 != 0
}

/// Unrolled bitwise full parity with no shift of `a`: the finished spread is
/// moved up one position instead.
pub fn gerenuk_no_a_rsh_full(a: Mask, b: Mask, _pmask: Mask, qmask: Mask, _dims: u32) -> (r: bool)
    ensures
        r == full_parity_spec(a, b, qmask),
{
    let ghost b0 = b;
    let mut b = b;
    let negs = a & b & qmask;
    b ^= b << 32;
    b ^= b << 16;
    b ^= b << 8;
    b ^= b << 4;
    b ^= b << 2;
    let t = (((b << 1) ^ (b << 2)) & a) ^ negs;
    proof {
        let z = spread_chain(b0);
        bv_xor_shl(b, shl64(b, 1), 1);
        assert(shl64(z, 1) == shl64(b, 1) ^ shl64(b, 2));
        assert(t == (shl64(z, 1) & a) ^ negs);
        bv_transpose(z, a);
        lemma_parity_shl(z & shr64(a, 1), 1);
        lemma_spread_parity(a, b0);
        lemma_parity_xor(shl64(z, 1) & a, negs);
    }
    let c = t.count_ones();
    proof {
        lemma_odd_count(c, t);
    }
    c & 1 != 0
}

/// Unrolled bitwise full parity, spelled out one operation per statement.
pub fn gerenuk_full_per(a: Mask, b: Mask, _pmask: Mask, qmask: Mask, _dims: u32) -> (r: bool)
    ensures
        r == full_parity_spec(a, b, qmask),
{
    let ghost a0 = a;
    let ghost b0 = b;
    let mut a = a;
    let mut b = b;
    let negs = a & b & qmask;
    a >>= 1;
    b ^= b << 32;
    b ^= b << 16;
    b ^= b << 8;
    b ^= b << 4;
    b ^= b << 2;
    b ^= b << 1;
    b &= a;
    b ^= negs;
    proof {
        assert(b == (spread_chain(b0) & shr64(a0, 1)) ^ negs);
        lemma_spread_parity(a0, b0);
        lemma_parity_xor(spread_chain(b0) & shr64(a0, 1), negs);
    }
    let c = b.count_ones();
    proof {
        lemma_odd_count(c, b);
    }
    c & 1 != 0
}

/// One-operation-per-statement unrolled full parity with the late `a` shift.
pub fn gerenuk_late_a_rsh_full_per(a: Mask, b: Mask, _pmask: Mask, qmask: Mask, _dims: u32) -> (r:
    bool)
    ensures
        r == full_parity_spec(a, b, qmask),
{
    let ghost b0 = b;
    let mut b = b;
    let negs = a & b & qmask;
    b ^= b << 32;
    b ^= b << 16;
    b ^= b << 8;
    b ^= b << 4;
    b ^= b << 2;
    b ^= b << 1;
    b &= a >> 1;
    b ^= negs;
    proof {
        assert(b == (spread_chain(b0) & shr64(a, 1)) ^ negs);
        lemma_spread_parity(a, b0);
        lemma_parity_xor(spread_chain(b0) & shr64(a, 1), negs);
    }
    let c = b.count_ones();
    proof {
        lemma_odd_count(c, b);
    }
    c & 1 != 0
}

/// One-operation-per-statement unrolled full parity with no shift of `a`.
pub fn gerenuk_no_a_rsh_full_per(a: Mask, b: Mask, _pmask: Mask, qmask: Mask, _dims: u32) -> (r:
    bool)
    ensures
        r == full_parity_spec(a, b, qmask),
{
    let ghost b0 = b;
    let mut b = b;
    let negs = a & b & qmask;
    b ^= b << 32;
    b ^= b << 16;
    b ^= b << 8;
    b ^= b << 4;
    b ^= b << 2;
    b ^= b << 1;
    b <<= 1;
    b &= a;
    b ^= negs;
    proof {
        let z = spread_chain(b0);
        assert(b == (shl64(z, 1) & a) ^ negs);
        bv_transpose(z, a);
        lemma_parity_shl(z & shr64(a, 1), 1);
        lemma_spread_parity(a, b0);
        lemma_parity_xor(shl64(z, 1) & a, negs);
    }
    let c = b.count_ones();
    proof {
        lemma_odd_count(c, b);
    }
    c & 1 != 0
}

/// A precomputed right-hand blade for the unrolled full parity: the spread of
/// `b` with the metric term folded in, ready to be applied to many `a`.
pub struct CurriedFull {
    cooked: u64,
    rhs: Ghost<u64>,
    negmask: Ghost<u64>,
}

impl CurriedFull {
    /// The right-hand blade this value was built from.
    pub closed spec fn rhs_spec(self) -> u64 {
        self.rhs@
    }

    /// The negative-square mask this value was built from.
    pub closed spec fn negmask_spec(self) -> u64 {
        self.negmask@
    }

    /// The cooked word is the up-shifted spread of the blade XOR its metric
    /// share.
    pub closed spec fn wf(self) -> bool {
        self.cooked == shl64(spread_chain(self.rhs@), 1) ^ (self.rhs@ & self.negmask@)
    }

    /// Apply the precomputed transform to a left-hand blade.
    pub fn apply(&self, a: Mask) -> (r: bool)
        requires
            self.wf(),
        ensures
            r == full_parity_spec(a, self.rhs_spec(), self.negmask_spec()),
    {
        let t = a & self.cooked;
        proof {
            let b = self.rhs@;
            let q = self.negmask@;
            let z = spread_chain(b);
            bv_and_xor(shl64(z, 1), b & q, a);
            assert(a & (shl64(z, 1) ^ (b & q)) == (a & shl64(z, 1)) ^ (a & (b & q)));
            lemma_parity_xor(a & shl64(z, 1), a & (b & q));
            bv_xor_basics(a, shl64(z, 1));
            bv_transpose(z, a);
            lemma_parity_shl(z & shr64(a, 1), 1);
            lemma_spread_parity(a, b);
            bv_and_xor(a, b, q);
        }
        let c = t.count_ones();
        proof {
            lemma_odd_count(c, t);
        }
        c & 1 != 0
    }
}

/// Precompute the spread of the right-hand blade `b`, with the metric share
/// of `b` folded in, for repeated application against left-hand blades.
pub fn gerenuk_curried(b: Mask, _pmask: Mask, qmask: Mask, _dims: u32) -> (r: CurriedFull)
    ensures
        r.wf(),
        r.rhs_spec() == b,
        r.negmask_spec() == qmask,
{
    let ghost b0 = b;
    let mut b = b;
    let negs = b & qmask;
    b ^= b << 32;
    b ^= b << 16;
    b ^= b << 8;
    b ^= b << 4;
    b ^= b << 2;
    b ^= b << 1;
    b <<= 1;
    b ^= negs;
    proof {
        assert(b == shl64(spread_chain(b0), 1) ^ (b0 & qmask));
    }
    CurriedFull { cooked: b, rhs: Ghost(b0), negmask: Ghost(qmask) }
}

/// One doubling step of the right-shift XOR suffix chain.
pub open spec fn rspread_step(t: u64, h: u64) -> u64 {
    t ^ shr64(t, h)
}

/// The unrolled right-shift chain applied to `a`: each bit of the result is
/// the XOR of the bits of `a` at or above it.
pub open spec fn rspread_chain(a: u64) -> u64 {
    rspread_step(
        rspread_step(rspread_step(rspread_step(rspread_step(rspread_step(a, 32), 16), 8), 4), 2),
        1,
    )
}

/// XOR of the first `k` right shifts of `b` at stride `s`, in Horner form.
pub open spec fn rslx(b: u64, s: u64, k: u64) -> u64
    decreases k,
{
    if k == 0 {
        0u64
    } else {
        b ^ shr64(rslx(b, s, (k - 1) as u64), s)
    }
}

proof fn bv_rdouble_step(b: u64, h: u64, y: u64)
    by (bit_vector)
    requires
        1 <= h <= 32,
    ensures
        b ^ shr64(b ^ shr64(y ^ shr64(y, h), h), h) == (b ^ shr64(y, (2 * h) as u64)) ^ shr64(
            b ^ shr64(y, (2 * h) as u64),
            h,
        ),
{
}

/// Doubling the stride of a suffix spread, mirror image of the left version.
proof fn lemma_rspread_double(b: u64, h: u64, k: u64)
    requires
        1 <= h <= 32,
        k <= 32,
    ensures
        rslx(b, h, (2 * k) as u64) == rspread_step(rslx(b, (2 * h) as u64, k), h),
    decreases k,
{
    if k == 0 {
        bv_shift_basics(0, h);
        bv_xor_basics(0, 0);
    } else {
        let y = rslx(b, (2 * h) as u64, (k - 1) as u64);
        lemma_rspread_double(b, h, (k - 1) as u64);
        assert(rslx(b, h, (2 * k) as u64) == b ^ shr64(rslx(b, h, (2 * k - 1) as u64), h));
        assert(rslx(b, h, (2 * k - 1) as u64) == b ^ shr64(rslx(b, h, (2 * k - 2) as u64), h));
        assert(rslx(b, h, (2 * k - 2) as u64) == y ^ shr64(y, h));
        assert(rslx(b, (2 * h) as u64, k) == b ^ shr64(y, (2 * h) as u64));
        bv_rdouble_step(b, h, y);
    }
}

/// The six unrolled right-shift XOR steps compute the stride-one suffix
/// spread of the whole word.
proof fn lemma_rspread_chain(b: u64)
    ensures
        rspread_chain(b) == rslx(b, 1, 64),
{
    assert(rslx(b, 32, 0) == 0);
    assert(rslx(b, 32, 1) == b ^ shr64(0, 32));
    bv_shift_basics(0, 32);
    bv_xor_basics(b, 0);
    assert(rslx(b, 32, 2) == b ^ shr64(b, 32));
    assert(rspread_step(b, 32) == rslx(b, 32, 2));
    lemma_rspread_double(b, 16, 2);
    lemma_rspread_double(b, 8, 4);
    lemma_rspread_double(b, 4, 8);
    lemma_rspread_double(b, 2, 16);
    lemma_rspread_double(b, 1, 32);
}

/// Horner view of the accumulate value: peel the unshifted term off.
proof fn lemma_xr_horner(a: u64, k: u64)
    requires
        1 <= k <= 64,
    ensures
        xr(a, k) == a ^ shr64(xr(a, (k - 1) as u64), 1),
    decreases k,
{
    if k == 1 {
        bv_shift_basics(a, 0);
        bv_shift_basics(0, 1);
        bv_xor_basics(a, 0);
        assert(xr(a, 0) == 0);
        assert(xr(a, 1) == xr(a, 0) ^ shr64(a, 0));
    } else {
        lemma_xr_horner(a, (k - 1) as u64);
        let x2 = xr(a, (k - 2) as u64);
        assert(xr(a, k) == xr(a, (k - 1) as u64) ^ shr64(a, (k - 1) as u64));
        assert(xr(a, (k - 1) as u64) == x2 ^ shr64(a, (k - 2) as u64));
        bv_xor_shr(x2, shr64(a, (k - 2) as u64), 1);
        bv_xor_shr(a, a, (k - 2) as u64);
        assert(shr64(shr64(a, (k - 2) as u64), 1) == shr64(a, (k - 1) as u64));
        bv_xor_assoc(a, shr64(x2, 1), shr64(a, (k - 1) as u64));
    }
}

/// The suffix spread at stride one is the accumulate-and-pop value.
proof fn lemma_rslx_xr(a: u64, k: u64)
    requires
        k <= 64,
    ensures
        rslx(a, 1, k) == xr(a, k),
    decreases k,
{
    if k == 0 {
    } else {
        lemma_rslx_xr(a, (k - 1) as u64);
        lemma_xr_horner(a, k);
    }
}

/// Halving commutes with the strictly-above parity word.
proof fn lemma_sab_half(a: u64)
    ensures
        shr64(sab(a), 1) == sab(a / 2),
    decreases a,
{
    bv_shift_basics(a, 1);
    if a == 0 {
        bv_shift_basics(0, 1);
    } else {
        let h = a / 2;
        lemma_sab_half(h);
        bv_xor_shr(h, sab(h), 1);
        bv_shift_basics(h, 1);
        if h == 0 {
            bv_xor_basics(0, 0);
            bv_shift_basics(sab(0), 1);
        }
    }
}

/// The right-shift chain, shifted once more, is exactly `sab`.
proof fn lemma_antelope_transform(a: u64)
    ensures
        shr64(rspread_chain(a), 1) == sab(a),
{
    lemma_rspread_chain(a);
    lemma_rslx_xr(a, 64);
    lemma_xr_sab(a);
    bv_xor_shr(a, sab(a), 1);
    lemma_sab_half(a);
    bv_shift_basics(a, 1);
    if a == 0 {
        bv_xor_basics(0, 0);
        bv_shift_basics(sab(0), 1);
    }
}

/// Splitting a word at `n` for the fold-down parity computation.
proof fn bv_fold_split(y: u64, n: u64)
    by (bit_vector)
    requires
        1 <= n <= 32,
    ensures
        y & low64((2 * n) as u64) == (y & low64(n)) ^ shl64(shr64(y, n) & low64(n), n),
        (y ^ shr64(y, n)) & low64(n) == (y & low64(n)) ^ (shr64(y, n) & low64(n)),
        shr64(y, n) & low64(n) <= shr64(!0u64, n),
        y & 0xFu64 < 16,
        low64(4) == 0xFu64,
{
}

/// One fold-down step halves the window without changing the parity.
proof fn lemma_fold_step(y: u64, n: u64)
    requires
        1 <= n <= 32,
    ensures
        parity64(y & low64((2 * n) as u64)) == parity64((y ^ shr64(y, n)) & low64(n)),
{
    bv_fold_split(y, n);
    let m = shr64(y, n) & low64(n);
    lemma_parity_shl(m, n);
    lemma_parity_xor(y & low64(n), shl64(m, n));
    lemma_parity_xor(y & low64(n), m);
}

proof fn bv_nibble(v: u64)
    by (bit_vector)
    requires
        v < 16,
    ensures
        ((0x6996u64 >> v) & 1 == 1) == ((((v % 2 == 1) != ((v / 2) % 2 == 1)) != ((v / 4) % 2
            == 1)) != ((v / 8) % 2 == 1)),
        ((0x6996u64 >> v) & 1 != 0) == ((0x6996u64 >> v) & 1 == 1),
        (v / 2) / 2 == v / 4,
        (v / 4) / 2 == v / 8,
        (v / 8) / 2 == 0,
{
}

/// The 16-entry magic-number table holds the parity of every nibble.
proof fn lemma_parity_nibble(v: u64)
    requires
        v < 16,
    ensures
        parity64(v) == ((0x6996u64 >> v) & 1 == 1),
        parity64(v) == ((0x6996u64 >> v) & 1 != 0),
{
    bv_nibble(v);
    crate::bits::lemma_parity_unfold(v);
    crate::bits::lemma_parity_unfold(v / 2);
    crate::bits::lemma_parity_unfold(v / 4);
    crate::bits::lemma_parity_unfold(v / 8);
    assert(parity64(0u64) == false);
}

/// A precomputed left-hand blade for the full parity: `sab` of the blade with
/// its metric share folded in, applied by a fold-down table-lookup parity.
pub struct AntelopeCurried {
    cooked: u64,
    lhs: Ghost<u64>,
    negmask: Ghost<u64>,
}

impl AntelopeCurried {
    /// The left-hand blade this value was built from.
    pub closed spec fn lhs_spec(self) -> u64 {
        self.lhs@
    }

    /// The negative-square mask this value was built from.
    pub closed spec fn negmask_spec(self) -> u64 {
        self.negmask@
    }

    /// The cooked word is the strictly-above parity word of the blade XOR its
    /// metric share.
    pub closed spec fn wf(self) -> bool {
        self.cooked == sab(self.lhs@) ^ (self.lhs@ & self.negmask@)
    }

    /// Apply the precomputed transform to a right-hand blade, reducing the
    /// intersection by a fold-down shift chain and a 16-entry parity table.
    pub fn apply(&self, b: Mask) -> (r: bool)
        requires
            self.wf(),
        ensures
            r == full_parity_spec(self.lhs_spec(), b, self.negmask_spec()),
    {
        let mut t = b & self.cooked;
        let ghost a = self.lhs@;
        let ghost q = self.negmask@;
        let ghost y0 = t;
        proof {
            bv_and_xor(sab(a), a & q, b);
            lemma_parity_xor(b & sab(a), b & (a & q));
            bv_xor_basics(b, sab(a));
            lemma_swap_is_sab(a, b);
            bv_and_xor(b, a, q);
            bv_xor_basics(a, b);
        }
        t ^= t >> 32;
        let ghost y1 = t;
        t ^= t >> 16;
        let ghost y2 = t;
        t ^= t >> 8;
        let ghost y3 = t;
        t ^= t >> 4;
        let ghost y4 = t;
        t &= 0xF;
        proof {
            assert(parity64(y0) == full_parity_spec(a, b, q));
            assert(low64(64) == !0u64);
            bv_xor_basics(y0, 0);
            lemma_fold_step(y0, 32);
            assert(parity64(y0) == parity64(y1 & low64(32)));
            lemma_fold_step(y1, 16);
            assert(parity64(y1 & low64(32)) == parity64(y2 & low64(16)));
            lemma_fold_step(y2, 8);
            assert(parity64(y2 & low64(16)) == parity64(y3 & low64(8)));
            lemma_fold_step(y3, 4);
            assert(parity64(y3 & low64(8)) == parity64(y4 & low64(4)));
            bv_fold_split(y4, 4);
            assert(t == y4 & low64(4));
            assert(t < 16);
            lemma_parity_nibble(t);
            assert(parity64(t) == ((0x6996u64 >> t) & 1 == 1));
        }
        (0x6996u64 >> t) & 1 != 0
    }
}

/// Precompute the strictly-above transform of the left-hand blade `a`, with
/// the metric share of `a` folded in, for repeated application against
/// right-hand blades.
pub fn antelope_curried(qmask: Mask, a: Mask) -> (r: AntelopeCurried)
    ensures
        r.wf(),
        r.lhs_spec() == a,
        r.negmask_spec() == qmask,
{
    let ghost a0 = a;
    let mut a = a;
    let negs = a & qmask;
    a ^= a >> 32;
    a ^= a >> 16;
    a ^= a >> 8;
    a ^= a >> 4;
    a ^= a >> 2;
    a ^= a >> 1;
    a >>= 1;
    a ^= negs;
    proof {
        lemma_antelope_transform(a0);
        assert(a == sab(a0) ^ (a0 & qmask));
    }
    AntelopeCurried { cooked: a, lhs: Ghost(a0), negmask: Ghost(qmask) }
}

/// The equivalence harness for the full-parity engine: every variant returns
/// the same bit as the seeded reference on the given inputs, for any valid
/// metric that `a` fits into.
pub fn full_variants_agree(a: Mask, b: Mask, pmask: Mask, qmask: Mask, dims: u32) -> (r: bool)
    requires
        dims <= 64,
        pmask & low64(dims as u64) == pmask,
        qmask == low64(dims as u64) ^ pmask,
        a & low64(dims as u64) == a,
    ensures
        r,
{
    let np = naive_full(a, b, pmask, qmask, dims);
    let ap = aap_full(a, b, pmask, qmask, dims);
    let fp = fun_aap_full(a, b, pmask, qmask, dims);
    let g1 = gerenuk_full(a, b, pmask, qmask, dims);
    let g2 = gerenuk_late_a_rsh_full(a, b, pmask, qmask, dims);
    let g3 = gerenuk_no_a_rsh_full(a, b, pmask, qmask, dims);
    let g4 = gerenuk_full_per(a, b, pmask, qmask, dims);
    let g5 = gerenuk_late_a_rsh_full_per(a, b, pmask, qmask, dims);
    let g6 = gerenuk_no_a_rsh_full_per(a, b, pmask, qmask, dims);
    let gc = gerenuk_curried(b, pmask, qmask, dims);
    let cp = gc.apply(a);
    let ac = antelope_curried(qmask, a);
    let acp = ac.apply(b);
    np == ap && np == fp && np == g1 && np == g2 && np == g3 && np == g4 && np == g5 && np == g6
        && np == cp && np == acp
}

/// The full-parity harness driven by a signature alone: builds the metric,
/// clamps the left blade to its supremum, and checks every variant.
pub fn full_variants_agree_clamped(a: Mask, b: Mask, positive: u32, negative: u32) -> (r: bool)
    requires
        positive + negative <= 64,
    ensures
        r,
{
    let m = crate::make_metric(positive, negative);
    let a2 = a & m.supremum;
    proof {
        crate::lemma_metric_partition(m);
        bv_and_xor(a, m.supremum, m.supremum);
        bv_xor_basics(m.supremum, m.supremum);
    }
    full_variants_agree(a2, b, m.hypermask, m.negmask, m.dimensions)
}

} // verus!
