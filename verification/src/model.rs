//! The mathematical model of blade multiplication parity.
//!
//! `swap_upto` renders the defining count: for every generator of `b`, the
//! number of generators of `a` strictly above it that it must hop over, summed
//! modulo two. `sab` packs the same information into a word — bit `j` of
//! `sab(a)` is the parity of `a`'s bits strictly above `j` — and the master
//! lemma `lemma_swap_is_sab` equates the two views. Every executable variant
//! in the crate is proved against these definitions.

use vstd::prelude::*;

use crate::bits::bit64;
use crate::bits::bv_and_xor;
use crate::bits::bv_bit_ops;
use crate::bits::bv_low_split;
use crate::bits::bv_shift_basics;
use crate::bits::bv_xor_basics;
use crate::bits::lemma_parity_pow2;
use crate::bits::lemma_parity_unfold;
use crate::bits::lemma_parity_xor;
use crate::bits::low64;
use crate::bits::parity64;
use crate::bits::pop64;
use crate::bits::shl64;
use crate::bits::shr64;

verus! {

/// Strictly-above parity word: bit `j` of `sab(a)` is the parity of the bits
/// of `a` strictly above position `j` (see `lemma_sab_bit`).
pub open spec fn sab(a: u64) -> u64
    decreases a,
{
    if a == 0 {
        0u64
    } else {
        (a / 2) ^ sab(a / 2)
    }
}

/// Transposition parity restricted to the generators of `b` below position
/// `n`: for each such generator, the parity of `a`'s generators strictly
/// above it, summed modulo two.
pub open spec fn swap_upto(a: u64, b: u64, n: u64) -> bool
    decreases n,
{
    if n == 0 {
        false
    } else {
        swap_upto(a, b, (n - 1) as u64) != (bit64(b, (n - 1) as u64) && parity64(
            shr64(a, n),
        ))
    }
}

/// Swap parity: whether canonically interleaving the generator lists of `a`
/// and `b` takes an odd number of transpositions.
pub open spec fn swap_parity_spec(a: u64, b: u64) -> bool {
    swap_upto(a, b, 64)
}

/// Metric parity: whether an odd number of the shared generators lie in the
/// negative-square partition.
pub open spec fn metric_parity_spec(shared: u64, negmask: u64) -> bool {
    parity64(shared & negmask)
}

/// Full multiplication parity: the sign-flip bit of the geometric product.
pub open spec fn full_parity_spec(a: u64, b: u64, negmask: u64) -> bool {
    swap_parity_spec(a, b) != metric_parity_spec(a & b, negmask)
}

/// The negative-square generator mask of the algebra with `p` positive and
/// `q` negative generators: the `q` bits directly above the low `p` bits.
pub open spec fn negmask_of(p: u64, q: u64) -> u64 {
    low64((p + q) as u64) ^ low64(p)
}

/// The shifted-mask construction of the generator partitions agrees with the
/// low-bits form used by the specifications.
pub proof fn lemma_mask_construction(p: u64, q: u64)
    by (bit_vector)
    requires
        p < 64,
        q < 64,
        p + q <= 64,
    ensures
        ((1u64 << p) - 1) as u64 == low64(p),
        ((((1u64 << q) - 1) as u64) << p) as u64 == negmask_of(p, q),
{
}

/// Bit `j` of `sab(a)` is the parity of the bits of `a` strictly above `j`.
pub proof fn lemma_sab_bit(a: u64)
    ensures
        forall|j: u64|
            j < 64 ==> (#[trigger] bit64(sab(a), j) == parity64(shr64(a, (j + 1) as u64))),
    decreases a,
{
    if a == 0 {
        assert forall|j: u64| j < 64 implies (#[trigger] bit64(sab(a), j) == parity64(
            shr64(a, (j + 1) as u64),
        )) by {
            bv_shift_basics(0, j);
            bv_shift_basics(0, (j + 1) as u64);
        }
    } else {
        let h = a / 2;
        lemma_sab_bit(h);
        assert forall|j: u64| j < 64 implies (#[trigger] bit64(sab(a), j) == parity64(
            shr64(a, (j + 1) as u64),
        )) by {
            let sh = sab(h);
            bv_bit_ops(h, sh, j);
            bv_bit_ops(a, sh, j);
            if j == 63 {
                bv_bit_ops(a, sh, 63);
                assert(bit64(h, 63) == false);
                assert(bit64(sh, 63) == parity64(shr64(h, 64)));
                assert(shr64(h, 64) == 0);
                assert(shr64(a, 64) == 0);
                assert(parity64(0u64) == false);
            } else {
                bv_bit_ops(a, sh, (j + 1) as u64);
                assert(bit64(h, j) == bit64(a, (j + 1) as u64));
                assert(bit64(sh, j) == parity64(shr64(h, (j + 1) as u64)));
                assert(shr64(h, (j + 1) as u64) == shr64(a, (j + 2) as u64));
                lemma_parity_unfold(shr64(a, (j + 1) as u64));
                assert((shr64(a, (j + 1) as u64) % 2 == 1) == bit64(a, (j + 1) as u64));
                assert(shr64(a, (j + 1) as u64) / 2 == shr64(a, (j + 2) as u64));
            }
        }
    }
}

/// Halving a word against a single-bit mask and the mask of everything above
/// it.
proof fn bv_sab_step(a: u64, l: u64, mu: u64)
    by (bit_vector)
    requires
        l != 0,
        l & ((l - 1) as u64) == 0,
        mu == !((l - 1) as u64) ^ l,
    ensures
        (a & mu) % 2 == 0,
        (a & mu) / 2 == ((a / 2) & l) ^ ((a / 2) & mu),
{
}

/// Against a single-bit mask `l`, `sab(a)` has the parity of `a`'s bits
/// strictly above the bit of `l`.
pub proof fn lemma_sab_pow2(a: u64, l: u64, mu: u64)
    requires
        l != 0,
        l & ((l - 1) as u64) == 0,
        mu == !((l - 1) as u64) ^ l,
    ensures
        parity64(sab(a) & l) == parity64(a & mu),
    decreases a,
{
    if a == 0 {
        bv_xor_basics(l, 0);
        bv_xor_basics(mu, 0);
    } else {
        let h = a / 2;
        let sh = sab(h);
        lemma_sab_pow2(h, l, mu);
        bv_and_xor(h, sh, l);
        lemma_parity_xor(h & l, sh & l);
        bv_sab_step(a, l, mu);
        lemma_parity_unfold(a & mu);
        lemma_parity_xor(h & l, h & mu);
    }
}

/// The master connection, by induction on the bit positions of `b`: the
/// transposition count below `n` equals the parity of `sab(a) & b` restricted
/// to the low `n` bits.
proof fn lemma_swap_low(a: u64, b: u64, n: u64)
    requires
        n <= 64,
    ensures
        swap_upto(a, b, n) == parity64(sab(a) & b & low64(n)),
    decreases n,
{
    if n == 0 {
        bv_xor_basics(sab(a) & b, 0);
        assert(low64(0) == 0);
    } else {
        let j = (n - 1) as u64;
        lemma_swap_low(a, b, j);
        let x = sab(a) & b;
        bv_low_split(x, n);
        let l = shl64(1, j);
        lemma_parity_xor(x & low64(j), x & l);
        lemma_parity_pow2(x, l);
        bv_bit_ops(x, x, j);
        bv_bit_ops(sab(a), b, j);
        lemma_sab_bit(a);
        assert(j < 64 && j + 1 == n);
        assert(bit64(sab(a), j) == parity64(shr64(a, n)));
    }
}

/// Master lemma: the defining transposition count equals the parity of
/// `sab(a) & b`.
pub proof fn lemma_swap_is_sab(a: u64, b: u64)
    ensures
        swap_parity_spec(a, b) == parity64(sab(a) & b),
{
    lemma_swap_low(a, b, 64);
    bv_xor_basics(sab(a) & b, 0);
    assert(low64(64) == !0u64);
}

/// Metric parity is symmetric in the operands: the shared generator set does
/// not depend on their order.
pub proof fn lemma_metric_parity_symmetric(a: u64, b: u64, negmask: u64)
    ensures
        metric_parity_spec(a & b, negmask) == metric_parity_spec(b & a, negmask),
{
    bv_xor_basics(a, b);
}

/// A product with the scalar blade needs no transpositions, on either side.
pub proof fn lemma_swap_zero(a: u64, b: u64)
    ensures
        swap_parity_spec(a, 0) == false,
        swap_parity_spec(0, b) == false,
{
    lemma_swap_upto_zero(a, b, 64);
}

proof fn lemma_swap_upto_zero(a: u64, b: u64, n: u64)
    requires
        n <= 64,
    ensures
        swap_upto(a, 0, n) == false,
        swap_upto(0, b, n) == false,
    decreases n,
{
    if n == 0 {
    } else {
        lemma_swap_upto_zero(a, b, (n - 1) as u64);
        bv_shift_basics(a, (n - 1) as u64);
        bv_shift_basics(b, n);
        assert(parity64(0u64) == false);
    }
}

/// In an algebra where all generators square to -1 and span the low 63 bits,
/// squaring a blade flips the sign exactly when its generator count is odd.
pub proof fn lemma_all_negative_square(a: u64)
    requires
        a & low64(63) == a,
    ensures
        metric_parity_spec(a & a, negmask_of(0, 63)) == (pop64(a) % 2 == 1),
{
    bv_xor_basics(a, low64(63));
    assert(negmask_of(0, 63) == low64(63) ^ low64(0));
    assert(low64(0) == 0);
    bv_xor_basics(low64(63), 0);
}

} // verus!
