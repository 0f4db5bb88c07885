use rn_core::apu::triangle_channel::TriangleChannel;

#[test]
fn test_triangle_channel_initialization() {
    let channel = TriangleChannel::new();

    // Initial values should all be zeroed
    assert_eq!(channel.control, 0);
    assert_eq!(channel.timer_lo, 0);
    assert_eq!(channel.timer_hi, 0);
    assert_eq!(channel.enabled, false);
    assert_eq!(channel.timer, 0);
    assert_eq!(channel.timer_value, 0);
    assert_eq!(channel.sequence_pos, 0);
    assert_eq!(channel.volume, 0);
    assert_eq!(channel.linear_counter, 0);
    assert_eq!(channel.linear_counter_reload, 0);
    assert_eq!(channel.linear_counter_halt, false);
}

#[test]
fn test_triangle_channel_reset() {
    let mut channel = TriangleChannel::new();

    // Set some non-zero values
    channel.control = 0x80;
    channel.timer_lo = 0x42;
    channel.timer_hi = 0x01;
    channel.enabled = true;
    channel.timer = 0x0142;
    channel.timer_value = 0x42;
    channel.sequence_pos = 16;
    channel.volume = 15;
    channel.linear_counter = 7;
    channel.linear_counter_reload = 7;
    channel.linear_counter_halt = true;

    // Reset the channel
    channel.reset();

    // All values should be back to initial state
    assert_eq!(channel.control, 0);
    assert_eq!(channel.timer_lo, 0);
    assert_eq!(channel.timer_hi, 0);
    assert_eq!(channel.enabled, false);
    assert_eq!(channel.timer, 0);
    assert_eq!(channel.timer_value, 0);
    assert_eq!(channel.sequence_pos, 0);
    assert_eq!(channel.volume, 0);
    assert_eq!(channel.linear_counter, 0);
    assert_eq!(channel.linear_counter_reload, 0);
    assert_eq!(channel.linear_counter_halt, false);
}

#[test]
fn test_triangle_channel_tick() {
    let mut channel = TriangleChannel::new();

    // Enable the channel
    channel.set_enabled(true);

    // Set up length counter for testing
    channel.length_counter.set_enabled(true);
    channel.length_counter.load(0 << 3); // Load length counter value

    // Set up linear counter
    channel.linear_counter = 1;
    channel.linear_counter_reload = 1;
    channel.linear_counter_halt = true;

    // Set up timer
    channel.timer = 8;
    channel.timer_value = 0;

    // First tick - timer_value is 0, so reload from timer and advance sequence
    channel.tick();
    assert_eq!(channel.timer_value, 8, "Timer value should reload from timer (8)");
    assert_eq!(channel.sequence_pos, 1, "Sequence position should advance from 0 to 1");

    // Second tick - timer decrements from 8 to 7
    channel.tick();
    assert_eq!(channel.timer_value, 7, "Timer value should decrement from 8 to 7");
    assert_eq!(channel.sequence_pos, 1, "Sequence position unchanged during decrement");

    // Third tick - timer decrements from 7 to 6
    channel.tick();
    assert_eq!(channel.timer_value, 6, "Timer value should decrement from 7 to 6");
    assert_eq!(channel.sequence_pos, 1, "Sequence position unchanged during decrement");
}

#[test]
fn test_triangle_channel_linear_counter() {
    let mut channel = TriangleChannel::new();

    // Enable the channel
    channel.set_enabled(true);

    // Set up length counter for testing
    channel.length_counter.set_enabled(true);
    channel.length_counter.load(0 << 3);

    // Configure linear counter with reload value 7 and no halt
    channel.write_register(0, 0x07); // Linear counter reload = 7, halt = false
    channel.write_register(3, 0x01); // Reload linear counter

    // Linear counter should be loaded with reload value
    assert_eq!(channel.linear_counter, 7);

    // Tick linear counter - should reload from reload flag and remain at 7
    channel.tick_linear_counter();
    assert_eq!(channel.linear_counter, 7);

    // Tick again - now it should decrement
    channel.tick_linear_counter();
    assert_eq!(channel.linear_counter, 6);

    // Set halt flag
    channel.write_register(0, 0x87); // Linear counter reload = 7, halt = true

    // Tick linear counter - should still decrement
    channel.tick_linear_counter();
    assert_eq!(channel.linear_counter, 6);

    // Clear halt flag and reload
    channel.write_register(0, 0x07); // Linear counter reload = 7, halt = false
    channel.write_register(3, 0x01); // Reload linear counter

    // Linear counter should be reloaded
    assert_eq!(channel.linear_counter, 7);

    // Continue ticking until it reaches 0
    // First tick with reload flag
    channel.tick_linear_counter();

    for _ in 0..7 {
        channel.tick_linear_counter();
    }
    assert_eq!(channel.linear_counter, 0);

    // One more tick shouldn't change it
    channel.tick_linear_counter();
    assert_eq!(channel.linear_counter, 0);
}


#[test]
fn test_triangle_channel_register_writing() {
    let mut channel = TriangleChannel::new();

    // Enable the channel
    channel.set_enabled(true);

    // Test control register (linear counter reload and halt)
    channel.write_register(0, 0x87); // Reload = 7, halt = true
    assert_eq!(channel.linear_counter_reload, 7);
    assert_eq!(channel.linear_counter_halt, true);

    // Test timer low register
    channel.write_register(2, 0x42);
    assert_eq!(channel.timer_lo, 0x42);
    assert_eq!(channel.timer, 0x0042);

    // Test timer high register
    channel.write_register(3, 0x01);
    assert_eq!(channel.timer_hi, 0x01);
    assert_eq!(channel.timer, 0x0142);

    // Test that writing to timer high reloads linear counter
    channel.write_register(0, 0x07); // Reload = 7, halt = false
    channel.write_register(3, 0x01);
    assert_eq!(channel.linear_counter, 7);
}
