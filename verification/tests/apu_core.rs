use rn_core::apu::{Apu, Channel, APU_STATUS};
use rn_core::memory::Addressable;

const PULSE1_CONTROL: u16 = 0x4000;
const PULSE1_SWEEP: u16 = 0x4001;
const PULSE1_TIMER_LO: u16 = 0x4002;
const PULSE1_TIMER_HI: u16 = 0x4003;

/// CPU cycles in one full 4-step frame-counter sequence.
const FOUR_STEP_SEQUENCE_CYCLES: usize = 29_830;

fn tick_cycles(apu: &mut Apu, cycles: usize) {
    for _ in 0..cycles {
        apu.tick();
    }
}

#[test]
fn dmc_status_follows_the_bytes_left_to_fetch() {
    let mut apu = Apu::new();

    assert_eq!(apu.read_byte(0x4015).unwrap() & 0x10, 0, "nothing to fetch before it is enabled");

    apu.write_byte(0x4013, 0x01).unwrap();
    apu.write_byte(0x4015, 0x10).unwrap();
    assert_ne!(apu.read_byte(0x4015).unwrap() & 0x10, 0, "an enabled sample should show as active");

    apu.write_byte(0x4015, 0x00).unwrap();
    assert_eq!(apu.read_byte(0x4015).unwrap() & 0x10, 0, "disabling should stop it reporting");
}

#[test]
fn test_pulse_runs_at_apu_rate() {
    let mut apu = Apu::new();

    let timer: u16 = 100;
    apu.write_byte(PULSE1_CONTROL, 0b0101_1111).unwrap();
    apu.write_byte(PULSE1_SWEEP, 0x08).unwrap();
    apu.write_byte(PULSE1_TIMER_LO, (timer & 0xFF) as u8).unwrap();
    apu.write_byte(APU_STATUS, 0x01).unwrap();
    apu.write_byte(PULSE1_TIMER_HI, 0x08 | ((timer >> 8) as u8)).unwrap();

    let mut guard = 0;
    while apu.pulse1().duty_pos() == 0 && guard < 10_000 {
        apu.tick();
        guard += 1;
    }

    let start = apu.pulse1().duty_pos();
    let mut steps = 0;
    let mut cycles = 0usize;
    while steps < 8 && cycles < 10_000 {
        let before = apu.pulse1().duty_pos();
        apu.tick();
        cycles += 1;
        if apu.pulse1().duty_pos() != before {
            steps += 1;
        }
    }

    assert_eq!(steps, 8, "duty sequence did not complete");
    assert_eq!(apu.pulse1().duty_pos(), start, "duty position should wrap to where it began");

    let expected = 8 * (timer as usize + 1) * 2;
    assert!(
        (cycles as i64 - expected as i64).abs() <= 2,
        "pulse period was {cycles} CPU cycles, expected ~{expected} (an octave error would give ~{})",
        expected / 2
    );
}

#[test]
fn test_triangle_runs_at_cpu_rate() {
    let mut apu = Apu::new();

    let timer: u16 = 100;
    apu.write_byte(0x4008, 0b1000_1111).unwrap();
    apu.write_byte(0x400A, (timer & 0xFF) as u8).unwrap();
    apu.write_byte(APU_STATUS, 0x04).unwrap();
    apu.write_byte(0x400B, 0x08 | ((timer >> 8) as u8)).unwrap();

    let mut guard = 0;
    while apu.triangle().sequence_pos == 0 && guard < 10_000 {
        apu.tick();
        guard += 1;
    }

    let mut steps = 0;
    let mut cycles = 0usize;
    while steps < 4 && cycles < 10_000 {
        let before = apu.triangle().sequence_pos;
        apu.tick();
        cycles += 1;
        if apu.triangle().sequence_pos != before {
            steps += 1;
        }
    }

    assert_eq!(steps, 4, "triangle sequence did not advance");

    let expected = 4 * (timer as usize + 1);
    assert!(
        (cycles as i64 - expected as i64).abs() <= 2,
        "triangle period was {cycles} CPU cycles, expected ~{expected}"
    );
}

#[test]
fn test_length_counter_halt() {
    let mut apu = Apu::new();

    apu.write_byte(APU_STATUS, 0x01).unwrap();
    apu.write_byte(PULSE1_CONTROL, 0b0010_0000).unwrap();
    apu.write_byte(PULSE1_TIMER_LO, 0x08).unwrap();
    apu.write_byte(PULSE1_TIMER_HI, 0x01).unwrap();

    for _ in 0..20 {
        tick_cycles(&mut apu, FOUR_STEP_SEQUENCE_CYCLES * 2);
    }

    assert_eq!(
        apu.read_byte(APU_STATUS).unwrap() & 0x01,
        0x01,
        "Pulse 1 should still be active with length counter halt set"
    );

    apu.write_byte(PULSE1_CONTROL, 0b0000_0000).unwrap();

    for _ in 0..20 {
        tick_cycles(&mut apu, FOUR_STEP_SEQUENCE_CYCLES * 2);
    }

    assert_eq!(
        apu.read_byte(APU_STATUS).unwrap() & 0x01,
        0,
        "Pulse 1 should be silent after length counter expires"
    );
}

#[test]
fn test_reload_length_counter() {
    let mut apu = Apu::new();

    apu.write_byte(PULSE1_CONTROL, 0b0101_1111).unwrap();
    apu.write_byte(APU_STATUS, 0x01).unwrap();
    assert_eq!(apu.read_byte(APU_STATUS).unwrap() & 0x01, 0x00);

    apu.write_byte(PULSE1_TIMER_HI, 0x01).unwrap();
    assert_eq!(apu.read_byte(APU_STATUS).unwrap() & 0x01, 0x01);

    apu.write_byte(APU_STATUS, 0x00).unwrap();
    assert_eq!(apu.read_byte(APU_STATUS).unwrap() & 0x01, 0x00);

    apu.write_byte(APU_STATUS, 0x01).unwrap();
    apu.write_byte(PULSE1_TIMER_HI, 0x01).unwrap();
    assert_eq!(apu.read_byte(APU_STATUS).unwrap() & 0x01, 0x01);
}

#[test]
fn apu_starts_silent_at_cycle_zero() {
    let apu = Apu::new();
    assert_eq!(apu.status(), 0);
    assert_eq!(apu.cycle_counter(), 0);
    assert!(!apu.apu_cycle());
    for channel in Channel::all() {
        assert!(!apu.channel_enabled(channel), "{} should start disabled", channel.label());
    }
    assert!(!apu.irq_pending());
}

#[test]
fn reset_clears_status_and_keeps_channel_registers() {
    let mut apu = Apu::new();
    apu.write_byte(0x4008, 0b1000_1111).unwrap();
    apu.write_byte(APU_STATUS, 0x0F).unwrap();
    tick_cycles(&mut apu, 1000);
    assert_eq!(apu.cycle_counter(), 1000);

    apu.reset();

    assert_eq!(apu.status(), 0);
    assert_eq!(apu.cycle_counter(), 0);
    assert!(!apu.apu_cycle());
    assert_eq!(apu.triangle().control, 0b1000_1111);
    assert!(apu.triangle().linear_counter_halt);
    assert!(!apu.channel_enabled(Channel::Triangle));
}

#[test]
fn power_on_clears_channel_registers() {
    let mut apu = Apu::new();
    apu.write_byte(0x4008, 0b1000_1111).unwrap();
    apu.write_byte(PULSE1_CONTROL, 0b0101_1111).unwrap();
    apu.power_on();
    assert_eq!(apu.triangle().control, 0);
    assert_eq!(apu.pulse1().control, 0);
    assert_eq!(apu.status(), 0);
}

#[test]
fn status_reports_each_running_length_counter() {
    let mut apu = Apu::new();
    apu.write_byte(APU_STATUS, 0x0F).unwrap();
    apu.write_byte(0x4003, 0x08).unwrap();
    apu.write_byte(0x4007, 0x08).unwrap();
    apu.write_byte(0x400B, 0x08).unwrap();
    apu.write_byte(0x400F, 0x08).unwrap();
    assert_eq!(apu.peek_byte(APU_STATUS).unwrap(), 0x0F);
    assert_eq!(apu.read_byte(0x4000).unwrap(), 0, "channel registers are write-only");
}

#[test]
fn writing_4017_with_bit_7_clocks_at_once() {
    let mut apu = Apu::new();
    apu.write_byte(APU_STATUS, 0x01).unwrap();
    apu.write_byte(PULSE1_TIMER_HI, 0x18).unwrap(); // length index 3: two half frames
    assert_eq!(apu.pulse1().length_counter.counter, 2);
    apu.write_byte(0x4017, 0x80).unwrap();
    assert_eq!(apu.pulse1().length_counter.counter, 1, "the half frame clocked the length counter");
}

#[test]
fn save_and_load_state_round_trip() {
    let mut apu = Apu::new();
    apu.write_byte(APU_STATUS, 0x1F).unwrap();
    apu.write_byte(PULSE1_CONTROL, 0b0101_1111).unwrap();
    apu.write_byte(PULSE1_TIMER_HI, 0x08).unwrap();
    tick_cycles(&mut apu, 3);
    let saved = apu.save_state();

    let mut other = Apu::new();
    assert!(other.load_state(&saved));
    assert_eq!(other.status(), apu.status());
    assert_eq!(other.pulse1().control, apu.pulse1().control);
    assert_eq!(other.pulse1().length_counter.counter, apu.pulse1().length_counter.counter);
    assert_eq!(other.apu_cycle(), apu.apu_cycle());

    let mut broken = apu.save_state();
    broken.pulse1.duty_pos = 9;
    let before = other.status();
    assert!(!other.load_state(&broken), "an out-of-range duty position is refused");
    assert_eq!(other.status(), before);
}

#[test]
fn dmc_fetch_is_requested_and_answered() {
    let mut apu = Apu::new();
    apu.write_byte(0x4012, 0x00).unwrap();
    apu.write_byte(0x4013, 0x00).unwrap();
    apu.write_byte(APU_STATUS, 0x10).unwrap();
    let mut fetch = None;
    for _ in 0..4 {
        apu.tick();
        fetch = apu.take_dmc_fetch();
        if fetch.is_some() {
            break;
        }
    }
    assert_eq!(fetch, Some(0xC000));
    apu.supply_dmc_byte(0xAA);
    assert_eq!(apu.dmc().sample_buffer, 0xAA);
    assert!(!apu.dmc().sample_buffer_empty);
}

#[test]
fn channel_status_bits_and_labels() {
    let bits: Vec<u8> = Channel::all().iter().map(|c| c.status_bit()).collect();
    assert_eq!(bits, vec![0x01, 0x02, 0x04, 0x08, 0x10]);
    assert_eq!(Channel::Dmc.label(), "DMC");
    assert_eq!(Channel::Pulse2.label(), "Pulse 2");
}

#[test]
fn disabling_channels_clears_their_counters() {
    let mut apu = Apu::new();
    apu.write_byte(0x4015, 0x0F).unwrap();
    apu.write_byte(0x4003, 0x08).unwrap();
    apu.write_byte(0x400F, 0x08).unwrap();
    let status = apu.read_byte(0x4015).unwrap();
    assert_eq!(status & 0x09, 0x09);
    apu.write_byte(0x4015, 0x00).unwrap();
    assert_eq!(apu.pulse1().length_counter.counter, 0);
    assert_eq!(apu.noise().length_counter.counter, 0);
    assert_eq!(apu.dmc().bytes_remaining, 0);
    assert_eq!(apu.read_byte(0x4015).unwrap() & 0x1F, 0);
}

#[test]
fn reading_status_leaves_the_apu_and_the_bus_acknowledges() {
    let mut apu = Apu::new();
    tick_cycles(&mut apu, FOUR_STEP_SEQUENCE_CYCLES + 2);
    assert!(apu.irq_pending(), "the four-step sequence raises its IRQ");
    let status = apu.read_byte(APU_STATUS).unwrap();
    assert_ne!(status & 0x40, 0);
    assert!(apu.irq_pending(), "reading the APU itself changes nothing");

    let mut bus = rn_core::memory::Bus::new();
    bus.attach_component(rn_core::memory::bus::Component::Apu(apu));
    assert_ne!(bus.read_byte(APU_STATUS).unwrap() & 0x40, 0);
    assert_eq!(bus.read_byte(APU_STATUS).unwrap() & 0x40, 0, "the bus read acknowledged it");
}
