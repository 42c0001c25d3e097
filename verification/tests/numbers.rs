use gbfr_logs::bytes::{read_u32, read_u64, to_signed};
use gbfr_logs::cap_detection::{
    is_cap_known, is_capped, learn_crit_multipliers, CritMultiplier, UNAVAILABLE_DAMAGE_CAP,
};
use gbfr_logs::double::{divide, round, ONE};
use gbfr_logs::float32::{
    Float32, NINE_HUNDRED_BITS, ONE_HUNDRED_BITS, ONE_MILLION_BITS, ONE_THOUSAND_BITS,
    TEN_THOUSAND_BITS, ZERO_BITS,
};

fn float(value: f32) -> Float32 {
    Float32::from_bits(value.to_bits())
}

/// A number that looks random, from a seed.
fn scrambled(seed: u64) -> u64 {
    let mut value = seed.wrapping_mul(0x9E37_79B9_7F4A_7C15).wrapping_add(1);
    value ^= value >> 29;
    value = value.wrapping_mul(0xBF58_476D_1CE4_E5B9);
    value ^ (value >> 32)
}

fn curious_floats() -> Vec<f32> {
    let mut values = vec![
        0.0,
        -0.0,
        1.0,
        -1.0,
        0.5,
        1.5,
        2.5,
        -2.5,
        0.499_999_97,
        8_388_607.5,
        8_388_609.0,
        16_777_217.0,
        2_147_483_520.0,
        2_147_483_648.0,
        1.0e30,
        f32::MAX,
        f32::MIN,
        f32::MIN_POSITIVE,
        f32::INFINITY,
        f32::NEG_INFINITY,
        f32::NAN,
        f32::from_bits(1),
        f32::from_bits(0x007F_FFFF),
        f32::from_bits(0xFFFF_FFFF),
    ];
    values.extend((0..300).map(|seed| f32::from_bits(scrambled(seed) as u32)));
    values
}

#[test]
fn constants_are_the_numbers_they_are_named_after() {
    assert_eq!(f32::from_bits(ZERO_BITS), 0.0);
    assert_eq!(f32::from_bits(ONE_HUNDRED_BITS), 100.0);
    assert_eq!(f32::from_bits(NINE_HUNDRED_BITS), 900.0);
    assert_eq!(f32::from_bits(ONE_THOUSAND_BITS), 1_000.0);
    assert_eq!(f32::from_bits(TEN_THOUSAND_BITS), 10_000.0);
    assert_eq!(f32::from_bits(ONE_MILLION_BITS), 1_000_000.0);
    assert_eq!(Float32::zero(), float(0.0));
}

#[test]
fn comparisons_are_those_of_the_machine() {
    let values = curious_floats();
    for &a in &values {
        assert_eq!(float(a).is_finite(), a.is_finite(), "{a}");
        assert_eq!(float(a).is_nan(), a.is_nan(), "{a}");
        for &b in &values {
            assert_eq!(float(a).lt(float(b)), a < b, "{a} < {b}");
            assert_eq!(float(a).le(float(b)), a <= b, "{a} <= {b}");
        }
    }
}

#[test]
fn rounding_is_that_of_the_machine() {
    for value in curious_floats() {
        if value.is_finite() && value.is_sign_positive() {
            assert_eq!(float(value).round_to_i32(), value.round() as i32, "{value}");
        }
    }
    for step in 0..4_000u32 {
        let value = step as f32 / 8.0;
        assert_eq!(float(value).round_to_i32(), value.round() as i32, "{value}");
    }
    assert_eq!(float(0.499_999_97).round_to_i32(), 0);
    assert_eq!(float(2.5).round_to_i32(), 3);
}

#[test]
fn quotients_are_those_of_the_machine() {
    for seed in 0..2_000u64 {
        let n = scrambled(seed) >> 33;
        let d = (scrambled(seed + 50_000) >> 37) + 1;
        let quotient = n as f64 / d as f64;
        let units = divide(u128::from(n) * ONE, u128::from(d));
        if quotient >= 1.0 {
            assert_eq!(units as f64 / ONE as f64, quotient, "{n} / {d}");
        }
    }
    assert_eq!(divide(ONE, 3), 6_004_799_503_160_661 * 128);
    assert_eq!(round(0x20_0000_0000_0001), 0x20_0000_0000_0000);
    assert_eq!(round(0x20_0000_0000_0003), 0x20_0000_0000_0004);
    assert_eq!(round(12_345), 12_345);
}

fn multiplier(value: f64) -> CritMultiplier {
    CritMultiplier::from_bits(value.to_bits()).expect("a multiplier")
}

fn value_of(multiplier: &CritMultiplier) -> f64 {
    multiplier.units() as f64 / (1u64 << 61) as f64
}

#[test]
fn multipliers_hold_their_value() {
    for value in [1.0, 1.2, 1.32, 0.998, 2.0, 1.0 / 512.0, 34_359_738_367.5] {
        assert_eq!(value_of(&multiplier(value)), value);
    }
    assert_eq!(multiplier(1.0).units(), 1 << 61);
    for value in [0.0, -1.0, 1.0 / 513.0, 34_359_738_368.0, f64::NAN, f64::INFINITY] {
        assert!(CritMultiplier::from_bits(value.to_bits()).is_none());
    }
}

/// Damage and cap of many hits, some of them at a peak.
fn samples(count: u64) -> Vec<(i32, i32)> {
    (0..count)
        .map(|seed| {
            let cap = (scrambled(seed) % 3_000_000) as i32 - 10;
            let damage = match scrambled(seed + 7_000) % 5 {
                0 => cap,
                1 => (f64::from(cap) * 1.2) as i32,
                2 => (f64::from(cap) * 1.32) as i32,
                3 => (scrambled(seed + 9_000) % 4_000_000) as i32,
                _ => (f64::from(cap) * 1.05) as i32,
            };
            (damage, cap)
        })
        .collect()
}

fn learned_by_the_machine(samples: &[(i32, i32)]) -> Vec<f64> {
    let ratios: Vec<i64> = samples
        .iter()
        .filter(|(damage, cap)| *cap > 0 && *cap < UNAVAILABLE_DAMAGE_CAP && damage >= cap)
        .map(|(damage, cap)| (f64::from(*damage) / f64::from(*cap) / 0.002).round() as i64)
        .collect();
    let threshold = (ratios.len() / 100).max(3);
    let mut buckets = ratios.clone();
    buckets.sort_unstable();
    buckets.dedup();
    buckets
        .into_iter()
        .filter(|bucket| ratios.iter().filter(|other| *other == bucket).count() >= threshold)
        .map(|bucket| bucket as f64 * 0.002)
        .collect()
}

#[test]
fn multipliers_are_learned_as_the_machine_computes_them() {
    for count in [0, 1, 2, 10, 400, 1_500] {
        let samples = samples(count);
        let mut learned: Vec<f64> = learn_crit_multipliers(&samples)
            .iter()
            .map(value_of)
            .collect();
        learned.sort_by(f64::total_cmp);
        assert_eq!(learned, learned_by_the_machine(&samples), "{count} samples");
    }
}

#[test]
fn a_ratio_that_comes_back_three_times_is_learned() {
    assert!(learn_crit_multipliers(&[(1_200, 1_000); 2]).is_empty());
    let learned = learn_crit_multipliers(&[(1_200, 1_000); 3]);
    assert_eq!(learned.len(), 1);
    assert_eq!(value_of(&learned[0]), 600.0 * 0.002);
    // One hit in a hundred is needed once there are many.
    let mut many = vec![(1_000, 1_000); 396];
    many.extend([(1_200, 1_000); 4]);
    assert_eq!(learn_crit_multipliers(&many).len(), 2);
    many.extend([(1_000, 1_000); 100]);
    assert_eq!(learn_crit_multipliers(&many).len(), 1);
    // Hits below their cap, or without one, do not count.
    assert!(learn_crit_multipliers(&[(999, 1_000); 9]).is_empty());
    assert!(learn_crit_multipliers(&[(5, 0); 9]).is_empty());
    assert!(learn_crit_multipliers(&[(UNAVAILABLE_DAMAGE_CAP, UNAVAILABLE_DAMAGE_CAP); 9]).is_empty());
}

#[test]
fn caps_are_detected_as_the_machine_computes_them() {
    let values = [1.0, 1.2, 660.0 * 0.002, 525.0 * 0.002];
    let multipliers: Vec<CritMultiplier> = values.iter().map(|value| multiplier(*value)).collect();
    let mut capped = 0;
    for (damage, cap) in samples(3_000) {
        let tolerance = (0.003 * f64::from(damage)).max(2.0);
        let expected = cap > 0
            && cap < UNAVAILABLE_DAMAGE_CAP
            && damage >= cap
            && values
                .iter()
                .any(|value| (f64::from(cap) * value - f64::from(damage)).abs() <= tolerance);
        assert_eq!(
            is_capped(damage, Some(cap), &multipliers),
            expected,
            "{damage} of {cap}"
        );
        capped += usize::from(expected);
    }
    assert!(capped > 1_000);
}

#[test]
fn the_tolerance_is_two_or_three_in_a_thousand() {
    let one = [multiplier(1.0)];
    assert!(is_capped(102, Some(100), &one));
    assert!(!is_capped(103, Some(100), &one));
    assert!(is_capped(1_003, Some(1_000), &one));
    assert!(!is_capped(1_004, Some(1_000), &one));
    assert!(!is_capped(999, Some(1_000), &one));
}

#[test]
fn caps_are_known_between_zero_and_the_placeholder() {
    assert!(!is_cap_known(None));
    assert!(!is_cap_known(Some(0)));
    assert!(!is_cap_known(Some(-5)));
    assert!(is_cap_known(Some(1)));
    assert!(is_cap_known(Some(UNAVAILABLE_DAMAGE_CAP - 1)));
    assert!(!is_cap_known(Some(UNAVAILABLE_DAMAGE_CAP)));
    assert!(!is_cap_known(Some(i32::MAX)));
}

#[test]
fn numbers_are_read_little_end_first() {
    let bytes = [1, 2, 3, 4, 5, 6, 7, 8, 9];
    assert_eq!(read_u32(&bytes, 0), Some(0x0403_0201));
    assert_eq!(read_u32(&bytes, 5), Some(0x0908_0706));
    assert_eq!(read_u32(&bytes, 6), None);
    assert_eq!(read_u32(&bytes, usize::MAX), None);
    assert_eq!(read_u64(&bytes, 1), Some(0x0908_0706_0504_0302));
    assert_eq!(read_u64(&bytes, 2), None);
    assert_eq!(read_u64(&[], 0), None);
    assert_eq!(to_signed(0x7FFF_FFFF), i32::MAX);
    assert_eq!(to_signed(0x8000_0000), i32::MIN);
    assert_eq!(to_signed(0xFFFF_FFFF), -1);
}
