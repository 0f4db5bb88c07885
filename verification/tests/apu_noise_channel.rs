use rn_core::apu::noise_channel::NoiseChannel;

#[test]
fn test_noise_channel_new() {
    let channel = NoiseChannel::new();
    assert_eq!(channel.control, 0);
    assert_eq!(channel.timer_lo, 0);
    assert_eq!(channel.timer_hi, 0);
    assert!(!channel.enabled);
    assert_eq!(channel.timer, 0);
    assert_eq!(channel.timer_value, 0);
    assert_eq!(channel.shift_register, 1);
    assert!(!channel.mode);
}

#[test]
fn test_noise_channel_reset() {
    let mut channel = NoiseChannel::new();

    // Set some non-default values
    channel.control = 0xFF;
    channel.timer_lo = 0xAA;
    channel.timer_hi = 0x55;
    channel.enabled = true;
    channel.timer = 0x1234;
    channel.timer_value = 0x5678;
    channel.shift_register = 0xABCD;
    channel.mode = true;

    // Reset the channel
    channel.reset();

    // Check that values are back to defaults
    assert_eq!(channel.control, 0);
    assert_eq!(channel.timer_lo, 0);
    assert_eq!(channel.timer_hi, 0);
    assert!(!channel.enabled);
    assert_eq!(channel.timer, 0);
    assert_eq!(channel.timer_value, 0);
    assert_eq!(channel.shift_register, 1);
    assert!(!channel.mode);
}

#[test]
fn test_noise_channel_tick() {
    let mut channel = NoiseChannel::new();

    // Enable the channel
    channel.set_enabled(true);
    channel.length_counter.set_enabled(true);
    channel.length_counter.load(0 << 3); // Load length counter value

    // Set a short timer for testing
    channel.write_register(2, 0x01); // Timer low
    channel.write_register(3, 0x00); // Timer high

    // Set initial shift register value
    channel.set_shift_register(0x4001);

    // Tick the channel until the shift register is updated
    while channel.timer_value > 0 {
        channel.tick();
    }

    // Check that the shift register was updated correctly
    assert_eq!(channel.shift_register & 1, 1); // Original bit0
    assert_eq!((channel.shift_register >> 14) & 1, 1); // Feedback bit
}

#[test]
fn test_noise_channel_mode_1() {
    let mut channel = NoiseChannel::new();

    // Enable the channel
    channel.set_enabled(true);
    channel.length_counter.set_enabled(true);
    channel.length_counter.load(0 << 3);

    // Set mode 1 (bit 7 of register 1)
    channel.write_register(1, 0x80);

    // Set a short timer for testing
    channel.write_register(2, 0x01);
    channel.write_register(3, 0x00);

    // Set initial shift register value
    channel.set_shift_register(0x4001);

    // Tick the channel until the shift register is updated
    while channel.timer_value > 0 {
        channel.tick();
    }

    // Check that the shift register was updated correctly with mode 1
    assert_eq!(channel.shift_register & 1, 1); // Original bit0
    assert_eq!((channel.shift_register >> 14) & 1, 1); // Feedback bit
}

#[test]
fn test_noise_channel_sample_generation() {
    let mut channel = NoiseChannel::new();

    // Enable the channel
    channel.set_enabled(true);
    channel.length_counter.set_enabled(true);
    channel.length_counter.load(0 << 3);

    // Set maximum volume
    channel.write_register(0, 0b00011111); // Constant volume (15)

    // Set shift register to 1 for testing
    channel.set_shift_register(1);

    // Should generate maximum volume sample
    assert_eq!(channel.output(), 15);

    // Set shift register to 0
    channel.set_shift_register(0);

    // Should generate zero sample
    assert_eq!(channel.output(), 0);
}

#[test]
fn test_noise_channel_length_counter() {
    let mut channel = NoiseChannel::new();

    // Enable the channel
    channel.set_enabled(true);

    // Load a value into the length counter via register 3
    // Use length index 7 (value should be 6)
    channel.write_register(3, 7 << 3);

    // Length counter should be active
    assert!(channel.is_length_counter_active());

    // Check if sound is produced
    channel.write_register(0, 0b00011111); // Constant volume (15)
    channel.set_shift_register(1); // Set for sound output
    assert!(channel.output() > 0);

    // Disable the channel
    channel.set_enabled(false);

    // Length counter should now be inactive
    assert!(!channel.is_length_counter_active());

    // Sound should be muted
    assert_eq!(channel.output(), 0);
}

#[test]
fn test_noise_channel_length_counter_decrement() {
    let mut channel = NoiseChannel::new();

    // Enable the channel
    channel.set_enabled(true);

    // Load a short length (index 0 = value 10)
    channel.write_register(3, 0 << 3);
    assert!(channel.is_length_counter_active());

    // Tick length counter 9 times
    for _ in 0..9 {
        channel.tick_length_counter();
    }

    // Should still be active
    assert!(channel.is_length_counter_active());

    // One more tick should silence it
    channel.tick_length_counter();
    assert!(!channel.is_length_counter_active());

    // Sound should now be muted even if the channel is enabled
    channel.write_register(0, 0b00011111); // Constant volume (15)
    channel.set_shift_register(1);
    assert_eq!(channel.output(), 0);
}

#[test]
fn test_noise_channel_length_counter_halt() {
    let mut channel = NoiseChannel::new();

    // Enable the channel
    channel.set_enabled(true);

    // Load a short length (index 0 = value 10)
    channel.write_register(3, 0 << 3);

    // Set length counter halt flag (bit 5 of control register)
    channel.write_register(0, 0b00100000);

    // Tick multiple times - length counter should not decrement due to halt
    for _ in 0..20 {
        channel.tick_length_counter();
    }

    // Should still be active because halt prevented decrement
    assert!(channel.is_length_counter_active());

    // Clear halt flag
    channel.write_register(0, 0b00000000);

    // Now ticking should decrement
    for _ in 0..10 {
        channel.tick_length_counter();
    }

    // Should now be inactive after enough ticks
    assert!(!channel.is_length_counter_active());
}

#[test]
fn long_mode_feedback_is_bit_0_xor_bit_1() {
    let mut channel = NoiseChannel::new();
    channel.set_enabled(true);
    channel.length_counter.set_enabled(true);
    channel.length_counter.load(0);
    channel.set_shift_register(0b011);
    channel.tick();
    assert_eq!(channel.shift_register, 0x0001);
    channel.set_shift_register(0b001);
    channel.tick();
    assert_eq!(channel.shift_register, 0x4000);
}

#[test]
fn short_mode_feedback_is_bit_0_xor_bit_6() {
    let mut channel = NoiseChannel::new();
    channel.set_enabled(true);
    channel.length_counter.set_enabled(true);
    channel.length_counter.load(0);
    channel.write_register(1, 0x80);
    channel.set_shift_register(0x41);
    channel.tick();
    assert_eq!(channel.shift_register, 0x0020);
}
