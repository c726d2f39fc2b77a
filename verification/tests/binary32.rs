use sdf::binary32::Binary32;
use sdf::binary32::MINUS_ONE_BITS;
use sdf::binary32::ONE_BITS;
use sdf::binary32::ZERO_BITS;

fn machine_conversion(n: u32) -> u32 {
    (n as f32).to_bits()
}

fn machine_reciprocal_of_half(x: f32) -> u32 {
    (1.0f32 / (x / 2.0f32)).to_bits()
}

fn scattered(seed: u64, count: usize) -> Vec<u32> {
    let mut state = seed;
    let mut out = Vec::new();
    while out.len() < count {
        state = state
            .wrapping_mul(6364136223846793005)
            .wrapping_add(1442695040888963407);
        out.push((state >> 32) as u32);
    }
    out
}

#[test]
fn constants_encode_zero_one_and_minus_one() {
    assert_eq!(f32::from_bits(ZERO_BITS), 0.0);
    assert_eq!(f32::from_bits(ONE_BITS), 1.0);
    assert_eq!(f32::from_bits(MINUS_ONE_BITS), -1.0);
    assert_eq!(ZERO_BITS, 0.0f32.to_bits());
}

#[test]
fn bits_round_trip() {
    for bits in [0u32, 1, ONE_BITS, MINUS_ONE_BITS, 0x7fc0_0000, u32::MAX] {
        assert_eq!(Binary32::from_bits(bits).to_bits(), bits);
        assert_eq!(Binary32::from_bits(bits).bits, bits);
    }
}

#[test]
fn negated_flips_the_sign_alone() {
    assert_eq!(Binary32::from_bits(ONE_BITS).negated().to_bits(), MINUS_ONE_BITS);
    assert_eq!(Binary32::from_bits(MINUS_ONE_BITS).negated().to_bits(), ONE_BITS);
    assert_eq!(Binary32::from_bits(0).negated().to_bits(), 0x8000_0000);
    for bits in scattered(7, 10_000) {
        let x = f32::from_bits(bits);
        assert_eq!(Binary32::from_bits(bits).negated().to_bits(), (-x).to_bits());
        assert_eq!(Binary32::from_bits(bits).negated().negated().to_bits(), bits);
    }
}

#[test]
fn from_u32_of_zero_is_positive_zero() {
    assert_eq!(Binary32::from_u32(0).to_bits(), ZERO_BITS);
}

#[test]
fn from_u32_gives_known_encodings() {
    assert_eq!(Binary32::from_u32(1).to_bits(), 0x3f80_0000);
    assert_eq!(Binary32::from_u32(2).to_bits(), 0x4000_0000);
    assert_eq!(Binary32::from_u32(3).to_bits(), 0x4040_0000);
    assert_eq!(Binary32::from_u32(640).to_bits(), 0x4420_0000);
    assert_eq!(Binary32::from_u32(480).to_bits(), 0x43f0_0000);
    assert_eq!(Binary32::from_u32(16_777_215).to_bits(), 0x4b7f_ffff);
    assert_eq!(Binary32::from_u32(16_777_216).to_bits(), 0x4b80_0000);
    assert_eq!(Binary32::from_u32(u32::MAX).to_bits(), 0x4f80_0000);
}

#[test]
fn from_u32_sends_midpoints_to_the_even_neighbour() {
    // 2^24 + 1 lies midway between 2^24 and 2^24 + 2.
    assert_eq!(Binary32::from_u32(16_777_217).to_bits(), 0x4b80_0000);
    // 2^24 + 3 lies midway between 2^24 + 2 and 2^24 + 4.
    assert_eq!(Binary32::from_u32(16_777_219).to_bits(), 0x4b80_0002);
    // 2^25 + 2 and 2^25 + 6 are midpoints one binade up.
    assert_eq!(Binary32::from_u32(33_554_434).to_bits(), 0x4c00_0000);
    assert_eq!(Binary32::from_u32(33_554_438).to_bits(), 0x4c00_0002);
    // Just off a midpoint the nearer neighbour wins.
    assert_eq!(Binary32::from_u32(33_554_435).to_bits(), 0x4c00_0001);
    assert_eq!(Binary32::from_u32(33_554_433).to_bits(), 0x4c00_0000);
}

#[test]
fn from_u32_carries_into_the_next_binade() {
    // 2^25 - 1 rounds up to 2^25.
    assert_eq!(Binary32::from_u32(33_554_431).to_bits(), 0x4c00_0000);
    // 2^32 - 128 is a midpoint whose even neighbour is 2^32.
    assert_eq!(Binary32::from_u32(0xffff_ff80).to_bits(), 0x4f80_0000);
    assert_eq!(Binary32::from_u32(0xffff_ff7f).to_bits(), 0x4f7f_ffff);
}

#[test]
fn from_u32_agrees_with_the_machine_on_small_counts() {
    for n in 0..=200_000u32 {
        assert_eq!(Binary32::from_u32(n).to_bits(), machine_conversion(n), "n = {}", n);
    }
}

#[test]
fn from_u32_agrees_with_the_machine_around_powers_of_two() {
    for k in 1..32u32 {
        let p = 1u32 << k;
        for d in 0..=300u32 {
            for n in [p.wrapping_sub(d), p.wrapping_add(d)] {
                assert_eq!(Binary32::from_u32(n).to_bits(), machine_conversion(n), "n = {}", n);
            }
        }
    }
    for d in 0..=1000u32 {
        let n = u32::MAX - d;
        assert_eq!(Binary32::from_u32(n).to_bits(), machine_conversion(n), "n = {}", n);
    }
}

#[test]
fn from_u32_agrees_with_the_machine_on_scattered_counts() {
    for n in scattered(1, 300_000) {
        assert_eq!(Binary32::from_u32(n).to_bits(), machine_conversion(n), "n = {}", n);
    }
}

#[test]
fn reciprocal_of_half_gives_known_encodings() {
    // 2 / 1, 2 / 2, 2 / 4
    assert_eq!(Binary32::from_bits(0x3f80_0000).reciprocal_of_half().to_bits(), 0x4000_0000);
    assert_eq!(Binary32::from_bits(0x4000_0000).reciprocal_of_half().to_bits(), 0x3f80_0000);
    assert_eq!(Binary32::from_bits(0x4080_0000).reciprocal_of_half().to_bits(), 0x3f00_0000);
    // 2 / 3 and 2 / 7
    assert_eq!(Binary32::from_bits(0x4040_0000).reciprocal_of_half().to_bits(), 0x3f2a_aaab);
    assert_eq!(Binary32::from_u32(7).reciprocal_of_half().to_bits(), 0x3e92_4925);
    // 2 / 640 and 2 / 480
    assert_eq!(Binary32::from_u32(640).reciprocal_of_half().to_bits(), 0x3b4c_cccd);
    assert_eq!(Binary32::from_u32(480).reciprocal_of_half().to_bits(), 0x3b88_8889);
}

#[test]
fn reciprocal_of_half_agrees_with_the_machine_on_pixel_counts() {
    for n in 1..=200_000u32 {
        let got = Binary32::from_u32(n).reciprocal_of_half().to_bits();
        assert_eq!(got, machine_reciprocal_of_half(n as f32), "n = {}", n);
    }
    for n in scattered(2, 300_000) {
        if n != 0 {
            let got = Binary32::from_u32(n).reciprocal_of_half().to_bits();
            assert_eq!(got, machine_reciprocal_of_half(n as f32), "n = {}", n);
        }
    }
}

#[test]
fn reciprocal_of_half_agrees_with_the_machine_over_its_domain() {
    let mut tried = 0;
    for bits in scattered(3, 600_000) {
        let bits = bits & 0x7fff_ffff;
        let exponent = bits >> 23;
        if 2 <= exponent && exponent <= 253 {
            let got = Binary32::from_bits(bits).reciprocal_of_half().to_bits();
            assert_eq!(got, machine_reciprocal_of_half(f32::from_bits(bits)), "bits = {:#x}", bits);
            tried += 1;
        }
    }
    assert!(tried > 500_000);
    // The ends of the domain, with the smallest and the largest fraction.
    for bits in [0x0100_0000u32, 0x0100_0001, 0x017f_ffff, 0x7e80_0000, 0x7e80_0001, 0x7eff_ffff] {
        let got = Binary32::from_bits(bits).reciprocal_of_half().to_bits();
        assert_eq!(got, machine_reciprocal_of_half(f32::from_bits(bits)), "bits = {:#x}", bits);
    }
}

#[test]
fn le_orders_known_numbers() {
    let n = |x: f32| Binary32::from_bits(x.to_bits());
    assert!(n(0.0).le(n(0.0)));
    assert!(n(0.0).le(n(-0.0)));
    assert!(n(-0.0).le(n(0.0)));
    assert!(n(0.0).le(n(1.0)));
    assert!(!n(1.0).le(n(0.0)));
    assert!(n(-1.0).le(n(0.0)));
    assert!(n(-2.0).le(n(-1.0)));
    assert!(!n(-1.0).le(n(-2.0)));
    assert!(n(0.5).le(n(0.5)));
    assert!(n(f32::MIN_POSITIVE / 2.0).le(n(f32::MIN_POSITIVE)));
    assert!(n(f32::MAX).le(n(f32::MAX)));
    assert!(n(f32::MIN).le(n(f32::MAX)));
}

#[test]
fn le_refuses_infinities_and_nan() {
    let n = |x: f32| Binary32::from_bits(x.to_bits());
    assert!(!n(f32::NAN).le(n(1.0)));
    assert!(!n(1.0).le(n(f32::NAN)));
    assert!(!n(f32::NAN).le(n(f32::NAN)));
    assert!(!n(1.0).le(n(f32::INFINITY)));
    assert!(!n(f32::NEG_INFINITY).le(n(1.0)));
    assert!(!Binary32::from_bits(0xffc0_0001).le(n(0.0)));
}

#[test]
fn le_agrees_with_the_machine_on_scattered_numbers() {
    let bits = scattered(5, 400_000);
    for pair in bits.chunks(2) {
        let (a, b) = (f32::from_bits(pair[0]), f32::from_bits(pair[1]));
        let expected = a.is_finite() && b.is_finite() && a <= b;
        let got = Binary32::from_bits(pair[0]).le(Binary32::from_bits(pair[1]));
        assert_eq!(got, expected, "{:#x} {:#x}", pair[0], pair[1]);
    }
    // Neighbours, where one encoding step decides.
    for a in scattered(6, 100_000) {
        for b in [a.wrapping_sub(1), a, a.wrapping_add(1), a ^ 0x8000_0000] {
            let (x, y) = (f32::from_bits(a), f32::from_bits(b));
            let expected = x.is_finite() && y.is_finite() && x <= y;
            assert_eq!(Binary32::from_bits(a).le(Binary32::from_bits(b)), expected, "{:#x} {:#x}", a, b);
        }
    }
}
