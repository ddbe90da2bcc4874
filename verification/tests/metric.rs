use clifford_parity::clifford_masks;
use clifford_parity::make_metric;
use clifford_parity::metric_parity;

fn lcg_next(s: u64) -> u64 {
    s.wrapping_mul(6364136223846793005).wrapping_add(1442695040888963407)
}

#[test]
fn clifford_masks_small_signatures() {
    assert_eq!(clifford_masks(3, 2), (0b111, 0b11000));
    assert_eq!(clifford_masks(0, 0), (0, 0));
    assert_eq!(clifford_masks(1, 0), (1, 0));
    assert_eq!(clifford_masks(0, 1), (0, 1));
    assert_eq!(clifford_masks(4, 0), (0b1111, 0));
    assert_eq!(clifford_masks(0, 4), (0, 0b1111));
}

#[test]
fn clifford_masks_boundary_signatures() {
    assert_eq!(clifford_masks(64, 0), (u64::MAX, 0));
    assert_eq!(clifford_masks(0, 64), (0, u64::MAX));
    assert_eq!(clifford_masks(63, 1), ((1u64 << 63) - 1, 1u64 << 63));
    assert_eq!(clifford_masks(1, 63), (1, u64::MAX - 1));
    assert_eq!(clifford_masks(32, 32), ((1u64 << 32) - 1, !0u64 << 32));
}

#[test]
fn make_metric_derives_all_masks() {
    let m = make_metric(3, 2);
    assert_eq!(m.positive, 3);
    assert_eq!(m.negative, 2);
    assert_eq!(m.dimensions, 5);
    assert_eq!(m.hypermask, 0b111);
    assert_eq!(m.negmask, 0b11000);
    assert_eq!(m.supremum, 0b11111);
    assert_eq!(m.emptymask, 0);
    assert_eq!(m.hypermask & m.negmask, 0);
    assert_eq!(m.hypermask | m.negmask, m.supremum);
    let full = make_metric(64, 0);
    assert_eq!(full.supremum, u64::MAX);
    assert_eq!(full.hypermask, u64::MAX);
    assert_eq!(full.negmask, 0);
}

#[test]
fn metric_parity_is_symmetric_in_the_blades() {
    let mut s: u64 = 0xA5A5_5A5A_1357_9BDF;
    let m = make_metric(7, 9);
    for _i in 0..500u32 {
        s = lcg_next(s);
        let a: u64 = s;
        s = lcg_next(s);
        let b: u64 = s;
        assert_eq!(metric_parity(a & b, m.negmask), metric_parity(b & a, m.negmask));
    }
}

#[test]
fn popcount_parity_matches_bit_scan_low16_exhaustive() {
    for x in 0..=0xFFFFu64 {
        let mut v: u64 = x;
        let mut scan: bool = false;
        while v != 0 {
            scan = scan != (v & 1 == 1);
            v >>= 1;
        }
        assert_eq!(metric_parity(x, !0u64), scan);
    }
}

#[test]
fn popcount_parity_matches_bit_scan_32bit_strided() {
    // Stride co-prime with two so every residue class of the low bits is hit.
    let mut x: u64 = 0;
    while x <= u32::MAX as u64 {
        let mut v: u64 = x;
        let mut scan: bool = false;
        while v != 0 {
            scan = scan != (v & 1 == 1);
            v >>= 1;
        }
        assert_eq!(metric_parity(x, !0u64), scan);
        x += 65537;
    }
}

#[test]
fn all_negative_identical_blades_flip_on_odd_grade() {
    // Cl(0,63): every generator squares to -1, so squaring a blade flips the
    // sign exactly when its generator count is odd.
    let m = make_metric(0, 63);
    let mut s: u64 = 0x1111_2222_3333_4444;
    for _i in 0..500u32 {
        s = lcg_next(s);
        let a: u64 = s & m.supremum;
        if a == 0 {
            continue;
        }
        let odd: bool = a.count_ones() % 2 == 1;
        assert_eq!(metric_parity(a & a, m.negmask), odd);
    }
    assert_eq!(metric_parity(0b1 & 0b1, m.negmask), true);
    assert_eq!(metric_parity(0b11 & 0b11, m.negmask), false);
    let top: u64 = 1u64 << 62;
    assert_eq!(metric_parity(top & top, m.negmask), true);
}
