use rn_core::cartridge::Cartridge;

#[test]
fn test_cartridge_pattern_table_access() {
    let mut cart = Cartridge::new();

    // Create some test data
    let test_data = [0x42; 0x2000];

    // Load the data
    cart.load_chr_rom(&test_data);

    // Read it back
    assert_eq!(cart.read_pattern_table(0x0000), 0x42);
    assert_eq!(cart.read_pattern_table(0x1FFF), 0x42);
}
