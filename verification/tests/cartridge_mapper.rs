use rn_core::cartridge::mapper::{create, AxRom, Mapper, Mmc1, Mmc3, Nrom, UxRom, PRG_BANK};
use rn_core::cartridge::Mirroring;

/// PRG image where each 8 KB bank is filled with its own index, so a read identifies its bank.
fn banked_prg(banks: usize) -> Vec<u8> {
    (0..banks).flat_map(|bank| std::iter::repeat_n(bank as u8, PRG_BANK)).collect()
}

/// The same idea in 16 KB banks, for mappers that switch at that granularity.
fn prg_16k_banks(banks: usize) -> Vec<u8> {
    (0..banks).flat_map(|bank| std::iter::repeat_n(bank as u8, 16 * 1024)).collect()
}

#[test]
fn nrom_mirrors_a_16k_image_into_both_halves() {
    let mut prg = vec![0u8; 16 * 1024];
    prg[0] = 0xAA;
    let mapper = Nrom::new(prg, vec![], Mirroring::Horizontal);

    assert_eq!(mapper.read_prg(0x8000), 0xAA);
    assert_eq!(mapper.read_prg(0xC000), 0xAA, "a 16 KB image appears at both $8000 and $C000");
}

#[test]
fn nrom_ignores_writes_to_cartridge_space() {
    let mut mapper = Nrom::new(vec![0x11; 16 * 1024], vec![], Mirroring::Horizontal);
    mapper.write_prg(0x8000, 0xFF);
    assert_eq!(mapper.read_prg(0x8000), 0x11, "cartridge ROM must not be writable");
}

#[test]
fn uxrom_switches_the_low_bank_and_fixes_the_last() {
    let prg: Vec<u8> = (0..4).flat_map(|bank| std::iter::repeat_n(bank as u8, 16 * 1024)).collect();
    let mut mapper = UxRom::new(prg, vec![], Mirroring::Vertical);

    // The last bank is always visible at $C000, which is what keeps the vectors reachable.
    assert_eq!(mapper.read_prg(0xC000), 3);

    assert_eq!(mapper.read_prg(0x8000), 0, "bank 0 selected at reset");
    mapper.write_prg(0x8000, 2);
    assert_eq!(mapper.read_prg(0x8000), 2, "a write should switch the low bank");
    assert_eq!(mapper.read_prg(0xC000), 3, "the fixed bank must not move");
}

#[test]
fn mmc3_fixes_the_last_bank_at_e000() {
    let mapper = Mmc3::new(banked_prg(8), vec![], Mirroring::Horizontal);

    // This is what SMB3 needs to boot at all: the reset vector lives in the last bank.
    assert_eq!(mapper.read_prg(0xE000), 7, "the last bank is hardwired at $E000");
}

#[test]
fn mmc3_switches_prg_banks_through_its_registers() {
    let mut mapper = Mmc3::new(banked_prg(8), vec![], Mirroring::Horizontal);

    // Select register 6 ($8000 window), then write the bank number to $8001.
    mapper.write_prg(0x8000, 6);
    mapper.write_prg(0x8001, 3);
    assert_eq!(mapper.read_prg(0x8000), 3);

    mapper.write_prg(0x8000, 7);
    mapper.write_prg(0x8001, 5);
    assert_eq!(mapper.read_prg(0xA000), 5);
}

#[test]
fn mmc3_bit_6_swaps_the_switchable_windows() {
    let mut mapper = Mmc3::new(banked_prg(8), vec![], Mirroring::Horizontal);
    mapper.write_prg(0x8000, 6);
    mapper.write_prg(0x8001, 3);
    assert_eq!(mapper.read_prg(0x8000), 3);

    // With bit 6 set, the same bank appears at $C000 and $8000 becomes fixed.
    mapper.write_prg(0x8000, 0x40 | 6);
    assert_eq!(mapper.read_prg(0xC000), 3);
    assert_eq!(mapper.read_prg(0x8000), 6, "$8000 becomes the second-to-last bank");
}

#[test]
fn mmc3_lets_the_game_change_mirroring() {
    let mut mapper = Mmc3::new(banked_prg(2), vec![], Mirroring::Horizontal);

    mapper.write_prg(0xA000, 0);
    assert_eq!(mapper.mirroring(), Mirroring::Vertical);
    mapper.write_prg(0xA000, 1);
    assert_eq!(mapper.mirroring(), Mirroring::Horizontal);
}

#[test]
fn mmc3_scanline_counter_raises_an_irq() {
    let mut mapper = Mmc3::new(banked_prg(2), vec![], Mirroring::Horizontal);

    mapper.write_prg(0xC000, 3); // latch: fire after 3 scanlines
    mapper.write_prg(0xC001, 0); // request reload
    mapper.write_prg(0xE001, 0); // enable

    mapper.on_scanline(); // reload to 3
    assert!(!mapper.irq_pending());
    mapper.on_scanline(); // 2
    mapper.on_scanline(); // 1
    assert!(!mapper.irq_pending(), "should not fire early");
    mapper.on_scanline(); // 0 -> fire
    assert!(mapper.irq_pending(), "counter reaching zero should raise the IRQ");

    mapper.acknowledge_irq();
    assert!(!mapper.irq_pending());
}

#[test]
fn mmc3_irq_can_be_disabled() {
    let mut mapper = Mmc3::new(banked_prg(2), vec![], Mirroring::Horizontal);
    mapper.write_prg(0xC000, 1);
    mapper.write_prg(0xC001, 0);
    mapper.write_prg(0xE000, 0); // disable, and acknowledge anything pending

    for _ in 0..8 {
        mapper.on_scanline();
    }
    assert!(!mapper.irq_pending(), "a disabled counter must not raise an IRQ");
}


/// Load one MMC1 register the way a game does: five writes, one bit at a time, low bit first.
fn mmc1_write(mapper: &mut Mmc1, address: u16, value: u8) {
    for bit in 0..5 {
        mapper.write_prg(address, (value >> bit) & 0x01);
    }
}

#[test]
fn mmc1_defaults_to_the_last_bank_at_c000() {
    // Before a game configures anything it must still be able to read its own reset vector.
    let mapper = Mmc1::new(prg_16k_banks(4), vec![]);
    assert_eq!(mapper.read_prg(0xC000), 3, "power-on state must expose the last bank");
}

#[test]
fn mmc1_loads_a_register_over_five_writes() {
    let mut mapper = Mmc1::new(prg_16k_banks(8), vec![]);

    // Mode 3 (switch $8000, fix last at $C000) is the power-on default.
    mmc1_write(&mut mapper, 0xE000, 2);
    assert_eq!(mapper.read_prg(0x8000), 2, "the PRG bank register should have taken effect");
    assert_eq!(mapper.read_prg(0xC000), 7, "the last bank stays fixed");
}

#[test]
fn mmc1_ignores_an_incomplete_transfer() {
    let mut mapper = Mmc1::new(prg_16k_banks(8), vec![]);

    // Four writes are not enough; nothing should change.
    for bit in 0..4 {
        mapper.write_prg(0xE000, (3 >> bit) & 0x01);
    }
    assert_eq!(mapper.read_prg(0x8000), 0, "a partial transfer must not commit");
}

#[test]
fn mmc1_reset_bit_aborts_a_transfer_and_restores_the_default_mode() {
    let mut mapper = Mmc1::new(prg_16k_banks(8), vec![]);

    // Start a transfer, then abort it midway — which is how a game recovers if an interrupt
    // lands between writes.
    mapper.write_prg(0xE000, 1);
    mapper.write_prg(0xE000, 1);
    mapper.write_prg(0xE000, 0x80);

    // The aborted bits must not leak into the next transfer.
    mmc1_write(&mut mapper, 0xE000, 1);
    assert_eq!(mapper.read_prg(0x8000), 1);
    assert_eq!(mapper.read_prg(0xC000), 7, "reset restores the fixed-last-bank mode");
}

#[test]
fn mmc1_prg_modes_place_banks_where_the_control_register_says() {
    let mut mapper = Mmc1::new(prg_16k_banks(8), vec![]);

    // Mode 2: first bank fixed at $8000, switchable at $C000.
    mmc1_write(&mut mapper, 0x8000, 0b0_1000);
    mmc1_write(&mut mapper, 0xE000, 5);
    assert_eq!(mapper.read_prg(0x8000), 0, "mode 2 fixes bank 0 at $8000");
    assert_eq!(mapper.read_prg(0xC000), 5);

    // Mode 0/1: 32 KB switching, so the low bit of the bank number is ignored.
    mmc1_write(&mut mapper, 0x8000, 0b0_0000);
    mmc1_write(&mut mapper, 0xE000, 5);
    assert_eq!(mapper.read_prg(0x8000), 4, "32 KB mode ignores the low bit");
    assert_eq!(mapper.read_prg(0xC000), 5);
}

#[test]
fn mmc1_controls_its_own_mirroring() {
    let mut mapper = Mmc1::new(prg_16k_banks(2), vec![]);

    for (bits, expected) in [
        (0, Mirroring::SingleScreenLower),
        (1, Mirroring::SingleScreenUpper),
        (2, Mirroring::Vertical),
        (3, Mirroring::Horizontal),
    ] {
        mmc1_write(&mut mapper, 0x8000, 0b0_1100 | bits);
        assert_eq!(mapper.mirroring(), expected, "control bits {bits} should select {expected:?}");
    }
}

#[test]
fn axrom_switches_32k_banks_and_picks_a_single_screen() {
    let prg: Vec<u8> = (0..4).flat_map(|bank| std::iter::repeat_n(bank as u8, 32 * 1024)).collect();
    let mut mapper = AxRom::new(prg, vec![]);

    assert_eq!(mapper.read_prg(0x8000), 0);
    assert_eq!(mapper.mirroring(), Mirroring::SingleScreenLower);

    // One write sets both the bank and which nametable the whole screen uses.
    mapper.write_prg(0x8000, 0x02 | 0x10);
    assert_eq!(mapper.read_prg(0x8000), 2);
    assert_eq!(mapper.read_prg(0xFFFF), 2, "a 32 KB bank covers the whole window");
    assert_eq!(mapper.mirroring(), Mirroring::SingleScreenUpper);
}

#[test]
fn unimplemented_mappers_are_reported_rather_than_guessed() {
    assert!(create(0, vec![0; 16 * 1024], vec![], Mirroring::Horizontal).is_some());
    assert!(create(1, vec![0; 16 * 1024], vec![], Mirroring::Horizontal).is_some());
    assert!(create(4, vec![0; 16 * 1024], vec![], Mirroring::Horizontal).is_some());
    assert!(create(7, vec![0; 16 * 1024], vec![], Mirroring::Horizontal).is_some());
    assert!(
        create(99, vec![0; 16 * 1024], vec![], Mirroring::Horizontal).is_none(),
        "an unknown mapper must not silently fall back to NROM"
    );
}
