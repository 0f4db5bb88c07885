use rn_core::apu::dmc_channel::DmcChannel;

#[test]
fn test_new_dmc_channel() {
    let channel = DmcChannel::new();
    assert_eq!(channel.control, 0);
    assert_eq!(channel.direct_load, 0);
    assert_eq!(channel.address, 0);
    assert_eq!(channel.length, 0);
    assert!(!channel.enabled);
    assert!(!channel.irq_enabled);
    assert!(!channel.loop_flag);
    assert_eq!(channel.sample_buffer, 0);
    assert!(channel.sample_buffer_empty);
    assert_eq!(channel.bits_remaining, 0);
    assert_eq!(channel.shift_register, 0);
    assert!(channel.silence_flag);
    assert_eq!(channel.current_address, 0);
    assert_eq!(channel.bytes_remaining, 0);
    // 428 — rate index 0, what a zeroed `$4010` selects — because the timer free-runs from
    // power-on and needs its real period, not a zero that would expire every cycle.
    assert_eq!(channel.timer, 428);
    assert_eq!(channel.timer_value, 0);
}

#[test]
fn dmc_channel_test_reset() {
    let mut channel = DmcChannel::new();

    // Set some values first
    channel.control = 0x80;
    channel.direct_load = 0x42;
    channel.address = 0x30;
    channel.length = 0x20;
    channel.enabled = true;
    channel.irq_enabled = true;
    channel.loop_flag = true;
    channel.sample_buffer = 0x80;
    channel.sample_buffer_empty = false;
    channel.bits_remaining = 4;
    channel.shift_register = 0x0F;
    channel.silence_flag = false;
    channel.current_address = 0xC000;
    channel.bytes_remaining = 100;
    channel.timer = 428;
    channel.timer_value = 200;

    // Reset should clear all values
    channel.reset();

    assert_eq!(channel.control, 0);
    assert_eq!(channel.direct_load, 0);
    assert_eq!(channel.address, 0);
    assert_eq!(channel.length, 0);
    assert!(!channel.enabled);
    assert!(!channel.irq_enabled);
    assert!(!channel.loop_flag);
    assert_eq!(channel.sample_buffer, 0);
    assert!(channel.sample_buffer_empty);
    assert_eq!(channel.bits_remaining, 0);
    assert_eq!(channel.shift_register, 0);
    assert!(channel.silence_flag);
    assert_eq!(channel.current_address, 0);
    assert_eq!(channel.bytes_remaining, 0);
    // Reset restores the power-on period, same as `new` — see above.
    assert_eq!(channel.timer, 428);
    assert_eq!(channel.timer_value, 0);
}

#[test]
fn dmc_channel_test_timer_update() {
    let mut channel = DmcChannel::new();

    // Test NTSC frequency (0)
    channel.write_register(0, 0x00);
    assert_eq!(channel.timer, 428);

    // Test frequency 7
    channel.write_register(0, 0x07);
    assert_eq!(channel.timer, 214);

    // Test frequency 15 (highest)
    channel.write_register(0, 0x0F);
    assert_eq!(channel.timer, 54);
}

#[test]
fn test_direct_load() {
    let mut channel = DmcChannel::new();

    // $4011 writes the DAC level straight out, which is how a game plays PCM by hand. It
    // does not touch the sample buffer: that holds a byte fetched from memory, which is a
    // different thing that this code used to conflate it with.
    channel.write_register(1, 0x42);
    assert_eq!(channel.output_level, 0x42);

    // The level is seven bits, so the top bit of the write is dropped rather than kept.
    channel.write_register(1, 0x80);
    assert_eq!(channel.output_level, 0x00);
}

#[test]
fn dmc_channel_test_sample_generation() {
    let mut channel = DmcChannel::new();

    // Channel should be silent when disabled
    assert_eq!(channel.output(), 0);

    // Enable the channel. The parity only times a fetch's request, which this test never gets
    // to — either value works here.
    channel.set_enabled(true, true);

    // The output is the DAC level, wherever the level came from.
    channel.output_level = 0x40;
    assert_eq!(channel.output(), 64); // Mid-scale: the DAC centre

    channel.output_level = 0x7F;
    assert_eq!(channel.output(), 127); // Full scale

    channel.output_level = 0x00;
    assert_eq!(channel.output(), 0); // Bottom of the DAC range

    // Silence does not pull the level to zero. It means the shifter has nothing to change the
    // level *with* — the channel goes on driving the mixer at whatever it last reached, which
    // is why a stopped sample does not click.
    channel.output_level = 0x40;
    channel.silence_flag = true;
    assert_eq!(channel.output(), 64);
}

#[test]
fn test_register_writing() {
    let mut channel = DmcChannel::new();

    // Test control register ($4010)
    channel.write_register(0, 0xC0); // Set IRQ enable and loop flag
    assert!(channel.irq_enabled);
    assert!(channel.loop_flag);

    // Test direct load register ($4011), which sets the DAC level
    channel.write_register(1, 0x42);
    assert_eq!(channel.output_level, 0x42);

    // Test address register ($4012)
    channel.write_register(2, 0x30);
    assert_eq!(channel.address, 0x30);

    // Test length register ($4013)
    channel.write_register(3, 0x20);
    assert_eq!(channel.length, 0x20);
}

/// The three behaviours that place a DMC DMA on the right CPU cycle. Each was measured
/// against tetanes' cycle ledger on 2026-08-06, after `dma_4016_read` reported our doubled
/// read one CPU clock late — iteration 4 of its five runs against hardware's 3 — and eight
/// reasoned attempts had been reverted. The ledger showed the two emulators' DMC refills
/// agreeing to the cycle and the whole error in how a *starting* sample's stall lands; these
/// pin the mechanism that fixed it, because the ROMs that measure it cannot run in CI.

    /// A channel with a one-byte sample programmed, as `sync_dmc` sets one up.
    fn programmed() -> DmcChannel {
        let mut channel = DmcChannel::new();
        channel.write_register(0, 0x00); // rate 428, no loop, no IRQ
        channel.write_register(2, 0x00); // sample at $C000
        channel.write_register(3, 0x00); // length 1 byte
        channel
    }

    /// A `$4015`-started fetch surfaces 2 cycles after an even write and 3 after an odd one —
    /// never on the write itself. Both delays land the request on the same parity, which is
    /// what lets a starting sample's stall be deterministically one cycle shorter than a
    /// refill's. Requested instantly — as this code did before 2026-08-06 — every run of
    /// `dma_4016_read`'s timed `LDA $4016` sees the halt one CPU clock late.
    #[test]
    fn a_started_fetch_surfaces_two_cycles_after_an_even_write_and_three_after_an_odd() {
        for (even, expected) in [(true, 2u32), (false, 3u32)] {
            let mut channel = programmed();
            channel.set_enabled(true, even);
            assert!(
                !channel.wants_fetch(),
                "the request must not surface on the write cycle itself"
            );
            let mut ticks = 0;
            while !channel.wants_fetch() {
                channel.tick();
                ticks += 1;
                assert!(ticks < 10, "the started fetch never surfaced");
            }
            assert_eq!(
                ticks, expected,
                "an {} write should surface its fetch after exactly {expected} cycles",
                if even { "even" } else { "odd" }
            );
        }
    }

    /// The timer free-runs from power-on: `$4015` gates only the memory reader. Two channels
    /// whose enables differ by one idle cycle must reload — and so request their refills — on
    /// cycles one apart, because the phase accumulated while disabled. A timer that only ran
    /// while enabled erased that difference, which let the refill's parity float with when
    /// the game last enabled the channel — and `sync_dmc`'s loops, calibrated around a
    /// constant 4-cycle refill stall, hung whenever it floated wrong.
    #[test]
    fn the_timer_keeps_its_phase_while_the_channel_is_disabled() {
        let refill_tick = |idle: u32| {
            let mut channel = programmed();
            channel.write_register(3, 0x01); // 17 bytes, so a refill follows the first fetch
            for _ in 0..idle {
                channel.tick(); // disabled: only the free-running timer moves
            }
            channel.set_enabled(true, true);
            while !channel.wants_fetch() {
                channel.tick();
            }
            channel.take_pending_fetch();
            channel.supply_byte(0xAA);
            let mut ticks = 0u32;
            while !channel.wants_fetch() {
                channel.tick();
                ticks += 1;
                assert!(ticks < 5000, "no refill was ever requested");
            }
            ticks
        };

        let (base, shifted) = (refill_tick(0), refill_tick(1));
        assert_eq!(
            base,
            shifted + 1,
            "one idle cycle before enabling must move the refill by exactly one cycle; if it \
             moves by zero the timer only ran while enabled"
        );
    }

    /// The refill is requested in the same cycle the shifter takes the buffer, not on the
    /// next one. There must be no cycle in which the buffer sits empty with bytes remaining
    /// and no request out — one such cycle flips the parity every refill DMA lands on.
    #[test]
    fn the_refill_is_requested_in_the_cycle_the_shifter_reloads() {
        let mut channel = programmed();
        channel.write_register(3, 0x01); // 17 bytes
        channel.set_enabled(true, true);
        while !channel.wants_fetch() {
            channel.tick();
        }
        channel.take_pending_fetch();
        channel.supply_byte(0xAA);

        for tick in 0..5000 {
            channel.tick();
            if channel.sample_buffer_empty {
                assert!(
                    channel.wants_fetch(),
                    "tick {tick}: the buffer emptied into the shifter but the refill was not \
                     requested in the same cycle"
                );
                return;
            }
        }
        panic!("the shifter never reloaded");
    }
