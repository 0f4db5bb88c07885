use rn_core::apu::sweep::Sweep;

#[test]
fn test_sweep_register_decoding() {
    let mut sweep_unit = Sweep::new(true);

    // Test with enabled = 1, period = 2, negate = 0, shift = 3
    // Register value 0b10100011:
    // bit 7 = 1 (enabled), bits 6-4 = 010 (period=2), bit 3 = 0 (negate=false), bits 2-0 = 011 (shift=3)
    sweep_unit.update_from_register(0b10100011);
    assert_eq!(sweep_unit.enabled, true);
    assert_eq!(sweep_unit.period, 2);
    assert_eq!(sweep_unit.negate, false);
    assert_eq!(sweep_unit.shift, 3);
    assert_eq!(sweep_unit.reload_flag, true);

    // Test with enabled = 0, period = 2, negate = 1, shift = 7
    // Register value 0b00100111:
    // bit 7 = 0 (disabled), bits 6-4 = 010 (period=2), bit 3 = 1 (negate=true), bits 2-0 = 111 (shift=7)
    sweep_unit.reload_flag = false;
    sweep_unit.update_from_register(0b00101111);
    assert_eq!(sweep_unit.enabled, false);
    assert_eq!(sweep_unit.period, 2);
    assert_eq!(sweep_unit.negate, true);
    assert_eq!(sweep_unit.shift, 7);
    assert_eq!(sweep_unit.reload_flag, true);
}

#[test]
fn test_sweep_target_period_calculation() {
    let mut sweep_pulse1 = Sweep::new(true);
    let mut sweep_pulse2 = Sweep::new(false);

    // Test with negate = false (addition mode), shift = 1
    sweep_pulse1.enabled = true;
    sweep_pulse1.negate = false;
    sweep_pulse1.shift = 1;

    // Given period = 100, shift = 1, change = 50, target = 150
    let target = sweep_pulse1.calculate_target_period(100);
    assert_eq!(target, 150);

    // Test with negate = true (subtraction mode), shift = 2
    sweep_pulse1.negate = true;
    sweep_pulse1.shift = 2;

    // Given period = 100, shift = 2, change = 25, target = 100 - 25 - 1 = 74 (ones' complement)
    let target = sweep_pulse1.calculate_target_period(100);
    assert_eq!(target, 74);

    // Test pulse 2's different negation behavior
    sweep_pulse2.enabled = true;
    sweep_pulse2.negate = true;
    sweep_pulse2.shift = 2;

    // Given period = 100, shift = 2, change = 25, target = 100 - 25 = 75 (two's complement)
    let target = sweep_pulse2.calculate_target_period(100);
    assert_eq!(target, 75);
}

#[test]
fn test_sweep_muting_conditions() {
    let sweep = Sweep::new(true);

    // Mute if period < 8
    assert_eq!(sweep.should_mute(7, 10), true);
    assert_eq!(sweep.should_mute(8, 10), false);

    // Mute if target period > 0x7FF
    assert_eq!(sweep.should_mute(100, 0x7FF), false);
    assert_eq!(sweep.should_mute(100, 0x800), true);
}

#[test]
fn a_negated_target_never_mutes() {
    let mut sweep = Sweep::new(true);
    sweep.update_from_register(0x08); // negate, shift 0
    let target = sweep.calculate_target_period(100);
    assert_eq!(target, 0xFFFF, "pulse 1 subtracts one more than the period");
    assert!(!sweep.should_mute(100, target));
    assert!(sweep.should_mute(7, target), "a period under 8 still mutes");
}
