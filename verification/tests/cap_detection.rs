use gbfr_logs::cap_detection::{
    is_capped, learn_crit_multipliers, CritMultiplier, UNAVAILABLE_DAMAGE_CAP,
};

fn multiplier(value: f64) -> CritMultiplier {
    CritMultiplier::from_bits(value.to_bits()).expect("a multiplier")
}

fn value(multiplier: &CritMultiplier) -> f64 {
    multiplier.units() as f64 / (1u64 << 61) as f64
}

#[test]
fn learns_recurring_crit_multipliers() {
    let mut data = Vec::new();
    for _ in 0..50 {
        data.push((1000, 1000));
        data.push((1200, 1000));
        data.push((1320, 1000));
    }
    data.push((1037, 1000));
    data.push((1041, 1000));

    let multipliers: Vec<f64> = learn_crit_multipliers(&data).iter().map(value).collect();
    assert!(multipliers.iter().any(|value| (value - 1.0).abs() < 0.01));
    assert!(multipliers.iter().any(|value| (value - 1.2).abs() < 0.01));
    assert!(multipliers.iter().any(|value| (value - 1.32).abs() < 0.01));
    assert!(!multipliers
        .iter()
        .any(|value| (value - 1.037).abs() < 0.005));
}

#[test]
fn detects_caps_at_crit_peaks() {
    let multipliers = vec![multiplier(1.0), multiplier(1.2), multiplier(1.32)];
    assert!(is_capped(1000, Some(1000), &multipliers));
    assert!(is_capped(1200, Some(1000), &multipliers));
    assert!(is_capped(1319, Some(1000), &multipliers));
    assert!(!is_capped(1080, Some(1000), &multipliers));
}

#[test]
fn handles_missing_invalid_and_sparse_cap_data() {
    let multipliers = [multiplier(1.0), multiplier(1.2)];
    assert!(!is_capped(500, Some(1000), &multipliers));
    assert!(!is_capped(9999, Some(-1), &multipliers));
    assert!(!is_capped(9999, Some(0), &multipliers));
    assert!(!is_capped(9999, None, &multipliers));
    assert!(!is_capped(
        UNAVAILABLE_DAMAGE_CAP,
        Some(UNAVAILABLE_DAMAGE_CAP),
        &[]
    ));
    assert!(is_capped(1000, Some(1000), &[]));
}
