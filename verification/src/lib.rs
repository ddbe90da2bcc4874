//! Sign parity of basis-blade products in Clifford algebras with a diagonal
//! metric.
//!
//! A basis blade is a `u64` bitmask: bit `i` set means generator `i` is a
//! factor of the blade. Multiplying two blades `a * b` may flip the sign of
//! the product; the flip is the XOR of two independent parities:
//!
//! * the *swap parity*: whether sorting the concatenated generator lists of
//!   `a` and `b` into canonical ascending order takes an odd number of
//!   transpositions, and
//! * the *metric parity*: whether an odd number of the shared generators
//!   (`a & b`) square to -1, i.e. lie in the negative-square partition of the
//!   metric.
//!
//! The crate offers several algorithmically distinct formulations of each
//! parity (iterative bit-peeling, a branch-free accumulate-and-pop loop, and
//! unrolled shift-XOR "bit spread" reductions); every one is verified against
//! the same mathematical definition, so they are proved to agree on all
//! inputs for which they are specified.

use vstd::prelude::*;

pub mod bits;
pub mod full_parity;
pub mod model;
pub mod swap_parity;

verus! {

/// The blade representation: one bit per generator.
pub type Mask = u64;

/// Generate the positive-square and negative-square generator masks for the
/// algebra with `p` positive and `q` negative generators: the low `p` bits,
/// and the `q` bits directly above them.
pub fn clifford_masks(p: u32, q: u32) -> (r: (Mask, Mask))
    requires
        p + q <= 64,
    ensures
        r.0 == crate::bits::low64(p as u64),
        r.1 == crate::model::negmask_of(p as u64, q as u64),
{
    if p == 64 {
        proof {
            crate::bits::bv_xor_basics(!0u64, 0u64);
        }
        (!0u64, 0u64)
    } else if q == 64 {
        proof {
            crate::bits::bv_xor_basics(!0u64, 0u64);
        }
        (0u64, !0u64)
    } else {
        let pw: u64 = p as u64;
        let qw: u64 = q as u64;
        proof {
            crate::model::lemma_mask_construction(pw, qw);
            assert(1u64 << pw >= 1 && 1u64 << qw >= 1) by (bit_vector)
                requires
                    pw < 64 && qw < 64,
            ;
        }
        (((1u64 << pw) - 1), ((1u64 << qw) - 1) << pw)
    }
}

/// A metric signature descriptor: `positive` generators squaring to +1 occupy
/// the low bits, `negative` generators squaring to -1 sit directly above
/// them, and `supremum` bounds every blade of the algebra.
#[derive(Clone, Copy)]
pub struct Metric {
    pub positive: u32,
    pub negative: u32,
    pub dimensions: u32,
    pub supremum: Mask,
    pub hypermask: Mask,
    pub negmask: Mask,
    pub emptymask: Mask,
}

impl Metric {
    /// Well-formed descriptor: the masks are the adjacent low-bit partitions
    /// derived from `(positive, negative)`.
    pub open spec fn wf(self) -> bool {
        &&& self.positive + self.negative <= 64
        &&& self.dimensions == self.positive + self.negative
        &&& self.hypermask == crate::bits::low64(self.positive as u64)
        &&& self.negmask == crate::model::negmask_of(
            self.positive as u64,
            self.negative as u64,
        )
        &&& self.supremum == crate::bits::low64(self.dimensions as u64)
        &&& self.emptymask == 0
    }
}

/// Build the metric descriptor of the algebra with `positive` generators
/// squaring to +1 and `negative` squaring to -1. A signature wider than the
/// mask carries no meaning, so it is rejected by precondition.
pub fn make_metric(positive: u32, negative: u32) -> (m: Metric)
    requires
        positive + negative <= 64,
    ensures
        m.wf(),
        m.positive == positive,
        m.negative == negative,
{
    let (hypermask, negmask) = clifford_masks(positive, negative);
    let dimensions = positive + negative;
    let supremum = if dimensions == 64 {
        !0u64
    } else {
        let dw: u64 = dimensions as u64;
        proof {
            crate::model::lemma_mask_construction(dw, 0);
            assert(1u64 << dw >= 1) by (bit_vector)
                requires
                    dw < 64,
            ;
        }
        (1u64 << dw) - 1
    };
    Metric { positive, negative, dimensions, supremum, hypermask, negmask, emptymask: 0u64 }
}

proof fn bv_metric(p: u64, q: u64)
    by (bit_vector)
    requires
        p + q <= 64,
    ensures
        crate::bits::low64(p) & crate::model::negmask_of(p, q) == 0,
        crate::bits::low64(p) | crate::model::negmask_of(p, q) == crate::bits::low64(
            (p + q) as u64,
        ),
        crate::bits::low64(p) & crate::bits::low64((p + q) as u64) == crate::bits::low64(p),
{
}

/// The two generator partitions of a well-formed metric are disjoint, stay
/// inside the algebra, and together exactly cover its low `dimensions` bits.
pub proof fn lemma_metric_partition(m: Metric)
    requires
        m.wf(),
    ensures
        m.hypermask & m.negmask == 0,
        m.hypermask | m.negmask == m.supremum,
        m.hypermask & m.supremum == m.hypermask,
{
    bv_metric(m.positive as u64, m.negative as u64);
}

/// Metric parity of a shared generator set: whether an odd number of its
/// generators lie in the negative-square partition.
pub fn metric_parity(shared: Mask, negmask: Mask) -> (r: bool)
    ensures
        r == crate::model::metric_parity_spec(shared, negmask),
{
    let c = (shared & negmask).count_ones();
    proof {
        crate::bits::lemma_odd_count(c, shared & negmask);
    }
    c & 1 != 0
}

/// Swap parity of two blades, by the iterative reference formulation.
pub fn swap_parity(a: Mask, b: Mask) -> (r: bool)
    ensures
        r == crate::model::swap_parity_spec(a, b),
{
    crate::swap_parity::naive_swap(a, b)
}

/// Full multiplication parity, as the straightforward composition of the
/// swap-parity and metric-parity engines.
pub fn full_parity(a: Mask, b: Mask, m: &Metric) -> (r: bool)
    ensures
        r == crate::model::full_parity_spec(a, b, m.negmask),
{
    let sp = swap_parity(a, b);
    let mp = metric_parity(a & b, m.negmask);
    sp != mp
}

} // verus!
