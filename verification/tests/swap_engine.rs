use clifford_parity::swap_parity::aap_swap;
use clifford_parity::swap_parity::fun_aap_swap;
use clifford_parity::swap_parity::gerenuk_late_a_rsh_swap;
use clifford_parity::swap_parity::gerenuk_no_a_rsh_swap;
use clifford_parity::swap_parity::gerenuk_swap;
use clifford_parity::swap_parity::naive_swap;
use clifford_parity::swap_parity::swap_variants_agree;
use clifford_parity::swap_parity;

/// Independent oracle: list the generators of `a` then of `b`, bubble-sort
/// the concatenation into ascending order, and count the swaps modulo two.
fn transposition_parity(a: u64, b: u64) -> bool {
    let mut gens: Vec<u32> = Vec::new();
    for i in 0..64u32 {
        if (a >> i) & 1 == 1 {
            gens.push(i);
        }
    }
    for i in 0..64u32 {
        if (b >> i) & 1 == 1 {
            gens.push(i);
        }
    }
    let n: usize = gens.len();
    let mut swaps: u64 = 0;
    for _pass in 0..n {
        for j in 0..n.saturating_sub(1) {
            if gens[j] > gens[j + 1] {
                gens.swap(j, j + 1);
                swaps += 1;
            }
        }
    }
    swaps % 2 == 1
}

fn lcg_next(s: u64) -> u64 {
    s.wrapping_mul(6364136223846793005).wrapping_add(1442695040888963407)
}

#[test]
fn swap_with_scalar_blade_is_even() {
    let samples: [u64; 6] = [0, 1, 0b1010, 0xDEAD_BEEF, u64::MAX, 1 << 63];
    for &a in samples.iter() {
        assert_eq!(naive_swap(a, 0), false);
        assert_eq!(naive_swap(0, a), false);
        assert_eq!(aap_swap(a, 0), false);
        assert_eq!(aap_swap(0, a), false);
        assert_eq!(fun_aap_swap(a, 0), false);
        assert_eq!(fun_aap_swap(0, a), false);
        assert_eq!(gerenuk_swap(a, 0), false);
        assert_eq!(gerenuk_swap(0, a), false);
        assert_eq!(gerenuk_late_a_rsh_swap(a, 0), false);
        assert_eq!(gerenuk_late_a_rsh_swap(0, a), false);
        assert_eq!(gerenuk_no_a_rsh_swap(a, 0), false);
        assert_eq!(gerenuk_no_a_rsh_swap(0, a), false);
    }
}

#[test]
fn swap_of_single_generators() {
    // e2 * e1 needs one transposition; e1 * e2 none.
    assert_eq!(naive_swap(0b010, 0b001), true);
    assert_eq!(naive_swap(0b001, 0b010), false);
    // A generator against itself needs none.
    assert_eq!(naive_swap(0b1, 0b1), false);
}

#[test]
fn swap_variants_agree_exhaustive_small() {
    for a in 0..64u64 {
        for b in 0..64u64 {
            assert!(swap_variants_agree(a, b));
            assert_eq!(naive_swap(a, b), transposition_parity(a, b));
        }
    }
}

#[test]
fn swap_variants_agree_sampled_wide() {
    let mut s: u64 = 0x9E37_79B9_7F4A_7C15;
    for _i in 0..2000u32 {
        s = lcg_next(s);
        let a: u64 = s;
        s = lcg_next(s);
        let b: u64 = s;
        assert!(swap_variants_agree(a, b));
        assert_eq!(naive_swap(a, b), transposition_parity(a, b));
    }
}

#[test]
fn swap_matches_named_module_path() {
    // The crate-level operation delegates to the reference formulation.
    let a: u64 = 0xF0F0_F0F0_1234_5678;
    let b: u64 = 0x0FF0_1111_8765_4321;
    assert_eq!(clifford_parity::swap_parity(a, b), swap_parity::naive_swap(a, b));
}
