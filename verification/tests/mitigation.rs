use interference_mitigation::fuel::{
    add_fuel, can_mitigate, fuel_settings, fuel_used, initial_irq, wctpf_settings, Mitigator,
};
use interference_mitigation::records::Irq;

#[test]
fn fuel_used_is_given_minus_remaining() {
    assert_eq!(fuel_used(Some(30), Some(100)), Some(70));
    assert_eq!(fuel_used(None, Some(100)), None);
    assert_eq!(fuel_used(Some(3), None), None);
    assert_eq!(add_fuel(Some(5), Some(7)), Some(12));
    assert_eq!(add_fuel(None, Some(7)), None);
}

#[test]
fn average_above_threshold_freezes() {
    let m = Mitigator::new(Some(1000), 100);
    // 10 ns over 5 fuel: 10 * 1000 / 5 = 2000 > 1000
    assert_eq!(m.mitigate(10, Some(5)), Some(Irq::Freeze(1)));
}

#[test]
fn average_below_hysteresis_thaws() {
    let m = Mitigator::new(Some(1000), 100);
    // 4 ns over 5 fuel: 800 < 900
    assert_eq!(m.mitigate(4, Some(5)), Some(Irq::Unfreeze(1)));
}

#[test]
fn average_between_bounds_repeats_last() {
    let m = Mitigator::new(Some(1000), 100);
    // 19 ns over 20 fuel: 950, between 900 and 1000
    assert_eq!(m.mitigate(19, Some(20)), Some(Irq::Unfreeze(1)));
    // exactly at the threshold
    assert_eq!(m.mitigate(1, Some(1)), Some(Irq::Unfreeze(1)));
}

#[test]
fn no_threshold_or_no_fuel_no_request() {
    let m = Mitigator::new(None, 0);
    assert_eq!(m.mitigate(1000, Some(1)), None);
    let m = Mitigator::new(Some(5), 0);
    assert_eq!(m.mitigate(1000, None), None);
}

#[test]
fn scaled_time_is_kept_to_64_bits() {
    // 2^60 ns * 1000 is 2^63 modulo 2^64, so the average over one fuel unit is 2^63
    let t: u64 = 1 << 60;
    let at = Mitigator::new(Some(1 << 63), 0);
    assert_eq!(at.mitigate(t, Some(1)), Some(Irq::Unfreeze(1)));
    let below = Mitigator::new(Some((1 << 63) - 1), 0);
    assert_eq!(below.mitigate(t, Some(1)), Some(Irq::Freeze(1)));
}

#[test]
fn mitigation_needs_nonzero_fuel() {
    let m = Mitigator::new(Some(10), 1);
    assert!(!can_mitigate(&m, 5, Some(0)));
    assert!(can_mitigate(&m, 5, Some(1)));
    assert!(can_mitigate(&m, 5, None));
    let bad = Mitigator::new(Some(10), 11);
    // the average 0 is below the threshold, where the threshold minus 11 is needed
    assert!(!can_mitigate(&bad, 0, Some(1)));
    // above the threshold the subtraction is never made
    assert!(can_mitigate(&bad, 1, Some(1)));
}

#[test]
fn initial_request() {
    assert_eq!(initial_irq(Some(0)), Some(Irq::Freeze(1)));
    assert_eq!(initial_irq(Some(7)), Some(Irq::Unfreeze(1)));
    assert_eq!(initial_irq(None), Some(Irq::Unfreeze(1)));
}

#[test]
fn settings_default_to_one_unlimited_run() {
    assert_eq!(fuel_settings(vec![]), vec![None]);
    assert_eq!(fuel_settings(vec![10, 20]), vec![Some(10), Some(20)]);
    assert_eq!(wctpf_settings(vec![]), vec![None]);
    assert_eq!(wctpf_settings(vec![5]), vec![Some(5)]);
}

#[test]
fn freeze_persists_and_thaw_persists() {
    let m = Mitigator::new(Some(1000), 100);
    // 2000 per fuel freezes, and so does any longer time over the same fuel
    assert_eq!(m.mitigate(10, Some(5)), Some(Irq::Freeze(1)));
    assert_eq!(m.mitigate(50, Some(5)), Some(Irq::Freeze(1)));
    // 800 per fuel thaws, and so does any shorter time
    assert_eq!(m.mitigate(4, Some(5)), Some(Irq::Unfreeze(1)));
    assert_eq!(m.mitigate(1, Some(5)), Some(Irq::Unfreeze(1)));
}
