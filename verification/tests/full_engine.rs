use clifford_parity::clifford_masks;
use clifford_parity::full_parity::aap_full;
use clifford_parity::full_parity::antelope_curried;
use clifford_parity::full_parity::full_variants_agree;
use clifford_parity::full_parity::full_variants_agree_clamped;
use clifford_parity::full_parity::fun_aap_full;
use clifford_parity::full_parity::gerenuk_curried;
use clifford_parity::full_parity::gerenuk_full;
use clifford_parity::full_parity::gerenuk_full_per;
use clifford_parity::full_parity::gerenuk_late_a_rsh_full;
use clifford_parity::full_parity::gerenuk_late_a_rsh_full_per;
use clifford_parity::full_parity::gerenuk_no_a_rsh_full;
use clifford_parity::full_parity::gerenuk_no_a_rsh_full_per;
use clifford_parity::full_parity::naive_full;
use clifford_parity::full_parity;
use clifford_parity::make_metric;
use clifford_parity::metric_parity;
use clifford_parity::swap_parity::naive_swap;

fn lcg_next(s: u64) -> u64 {
    s.wrapping_mul(6364136223846793005).wrapping_add(1442695040888963407)
}

#[test]
fn textbook_cl30_sign() {
    // In Cl(3,0): e1e2 * e2e3 = e1e3 with a positive sign. The shared e2
    // squares to +1 and the interleaving needs no net transposition, so the
    // full parity is even.
    let m = make_metric(3, 0);
    assert_eq!(full_parity::full_variants_agree(0b011, 0b110, m.hypermask, m.negmask, 3), true);
    assert_eq!(clifford_parity::full_parity(0b011, 0b110, &m), false);
    assert_eq!(naive_full(0b011, 0b110, m.hypermask, m.negmask, m.dimensions), false);
    // e2 * e1 = -e1e2: one transposition, no metric term.
    assert_eq!(clifford_parity::full_parity(0b010, 0b001, &m), true);
    // e1 * e1 = +1 in Cl(3,0) but -1 in Cl(0,3).
    assert_eq!(clifford_parity::full_parity(0b001, 0b001, &m), false);
    let m03 = make_metric(0, 3);
    assert_eq!(clifford_parity::full_parity(0b001, 0b001, &m03), true);
}

#[test]
fn full_variants_exhaustive_4bit_metrics() {
    for p in 0..=4u32 {
        let q: u32 = 4 - p;
        let (pmask, qmask) = clifford_masks(p, q);
        for a in 0..16u64 {
            for b in 0..16u64 {
                assert!(full_variants_agree(a, b, pmask, qmask, 4));
                let composed: bool = naive_swap(a, b) != metric_parity(a & b, qmask);
                assert_eq!(naive_full(a, b, pmask, qmask, 4), composed);
                assert_eq!(aap_full(a, b, pmask, qmask, 4), composed);
                assert_eq!(fun_aap_full(a, b, pmask, qmask, 4), composed);
                assert_eq!(gerenuk_full(a, b, pmask, qmask, 4), composed);
                assert_eq!(gerenuk_late_a_rsh_full(a, b, pmask, qmask, 4), composed);
                assert_eq!(gerenuk_no_a_rsh_full(a, b, pmask, qmask, 4), composed);
                assert_eq!(gerenuk_full_per(a, b, pmask, qmask, 4), composed);
                assert_eq!(gerenuk_late_a_rsh_full_per(a, b, pmask, qmask, 4), composed);
                assert_eq!(gerenuk_no_a_rsh_full_per(a, b, pmask, qmask, 4), composed);
                let gc = gerenuk_curried(b, pmask, qmask, 4);
                assert_eq!(gc.apply(a), composed);
                let ac = antelope_curried(qmask, a);
                assert_eq!(ac.apply(b), composed);
            }
        }
    }
}

#[test]
fn full_variants_sampled_boundary_metrics() {
    let signatures: [(u32, u32); 7] = [(0, 0), (64, 0), (0, 64), (3, 0), (0, 63), (32, 32), (5, 7)];
    let mut s: u64 = 0x0123_4567_89AB_CDEF;
    for &(p, q) in signatures.iter() {
        let m = make_metric(p, q);
        for _i in 0..300u32 {
            s = lcg_next(s);
            let a: u64 = s & m.supremum;
            s = lcg_next(s);
            let b: u64 = s;
            assert!(full_variants_agree_clamped(a, b, p, q));
            let composed: bool = naive_swap(a, b) != metric_parity(a & b, m.negmask);
            assert_eq!(naive_full(a, b, m.hypermask, m.negmask, m.dimensions), composed);
            assert_eq!(clifford_parity::full_parity(a, b, &m), composed);
        }
    }
}

#[test]
fn curried_forms_reuse_one_precomputation() {
    let m = make_metric(4, 3);
    let b: u64 = 0b101_1010;
    let gc = gerenuk_curried(b, m.hypermask, m.negmask, m.dimensions);
    for a in 0..128u64 {
        assert_eq!(gc.apply(a), naive_full(a, b, m.hypermask, m.negmask, m.dimensions));
    }
    let a: u64 = 0b110_0101;
    let ac = antelope_curried(m.negmask, a);
    for b2 in 0..128u64 {
        assert_eq!(ac.apply(b2), naive_full(a, b2, m.hypermask, m.negmask, m.dimensions));
    }
}

#[test]
fn fused_seed_matches_composition_at_full_width() {
    // dims == 64: the accumulate-and-pop loop runs the whole word and its
    // positive-partition seed must still absorb the metric term exactly.
    let (pmask, qmask) = clifford_masks(20, 44);
    let mut s: u64 = 0xFEED_FACE_CAFE_BEEF;
    for _i in 0..200u32 {
        s = lcg_next(s);
        let a: u64 = s;
        s = lcg_next(s);
        let b: u64 = s;
        let composed: bool = naive_swap(a, b) != metric_parity(a & b, qmask);
        assert_eq!(aap_full(a, b, pmask, qmask, 64), composed);
        assert_eq!(fun_aap_full(a, b, pmask, qmask, 64), composed);
        assert_eq!(naive_full(a, b, pmask, qmask, 64), composed);
    }
}
