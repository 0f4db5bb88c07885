use rn_core::errors::NesError;
use rn_core::memory::{Addressable, Ram};

#[test]
fn test_ram_read_write_byte() {
    let mut ram = Ram::default(); // Default $0000-$1FFF

    // Test write and read
    ram.write_byte(0x1000, 0x42).unwrap();
    assert_eq!(ram.read_byte(0x1000).unwrap(), 0x42);

    // Test different address
    ram.write_byte(0x0500, 0xFF).unwrap();
    assert_eq!(ram.read_byte(0x0500).unwrap(), 0xFF);
}

#[test]
fn test_ram_read_write_word() {
    let mut ram = Ram::default();

    // Test write and read word (little-endian)
    ram.write_word(0x1000, 0x1234).unwrap();
    assert_eq!(ram.read_byte(0x1000).unwrap(), 0x34); // Low byte
    assert_eq!(ram.read_byte(0x1001).unwrap(), 0x12); // High byte
    assert_eq!(ram.read_word(0x1000).unwrap(), 0x1234);
}

#[test]
fn test_ram_with_custom_range() {
    // Create RAM for $6000-$7FFF (8KB battery-backed RAM area)
    let mut ram = Ram::with_range(0x6000, 0x7FFF);

    // Should be 8KB in size
    assert_eq!(ram.size(), 0x2000);

    // Should handle addresses in its range
    assert!(ram.handles_address(0x6000));
    assert!(ram.handles_address(0x7000));
    assert!(ram.handles_address(0x7FFF));

    // Should not handle addresses outside its range
    assert!(!ram.handles_address(0x5FFF));
    assert!(!ram.handles_address(0x8000));

    // Should read/write correctly with the offset applied
    ram.write_byte(0x6000, 0x42).unwrap();
    assert_eq!(ram.read_byte(0x6000).unwrap(), 0x42);

    // The internal index should be 0 for address 0x6000
    assert_eq!(ram.data[0], 0x42);

    // Write to end of range
    ram.write_byte(0x7FFF, 0xFF).unwrap();
    assert_eq!(ram.read_byte(0x7FFF).unwrap(), 0xFF);

    // The internal index should be at the end of the data
    assert_eq!(ram.data[0x1FFF], 0xFF);
}

#[test]
fn test_ram_out_of_bounds() {
    let mut ram = Ram::with_range(0x6000, 0x7FFF);

    // Reading out of bounds should return an error
    let read_result_low = ram.read_byte(0x5FFF);
    let read_result_high = ram.read_byte(0x8000);

    assert!(read_result_low.is_err());
    assert!(read_result_high.is_err());

    if let Err(NesError::MemoryAccessError(addr)) = read_result_low {
        assert_eq!(addr, 0x5FFF);
    } else {
        panic!("Expected MemoryAccessError for low address");
    }

    if let Err(NesError::MemoryAccessError(addr)) = read_result_high {
        assert_eq!(addr, 0x8000);
    } else {
        panic!("Expected MemoryAccessError for high address");
    }

    // Writing out of bounds should return an error
    let write_result_low = ram.write_byte(0x5FFF, 0x42);
    let write_result_high = ram.write_byte(0x8000, 0x42);

    assert!(write_result_low.is_err());
    assert!(write_result_high.is_err());

    if let Err(NesError::MemoryAccessError(addr)) = write_result_low {
        assert_eq!(addr, 0x5FFF);
    } else {
        panic!("Expected MemoryAccessError for low address");
    }

    if let Err(NesError::MemoryAccessError(addr)) = write_result_high {
        assert_eq!(addr, 0x8000);
    } else {
        panic!("Expected MemoryAccessError for high address");
    }
}

/// Work RAM answers four times across $0000-$1FFF, because only eleven address lines reach it.
///
/// A program writing $0000 and reading $0800 gets the byte it wrote. Nothing much depends on
/// it — a game has no reason to touch the mirrors — which is why eight flat kilobytes behaved
/// identically until `ppu_read_buffer` looked, in its test 60.
#[test]
fn mirrored_ram_repeats_across_its_range() {
    let mut ram = Ram::mirrored(0x0000, 0x1FFF, 2 * 1024);

    ram.write_byte(0x0000, 0x5A).unwrap();
    for mirror in [0x0800, 0x1000, 0x1800] {
        assert_eq!(ram.read_byte(mirror).unwrap(), 0x5A, "${mirror:04X} is the same storage as $0000");
    }

    // And back the other way: writing through a mirror is writing the original.
    ram.write_byte(0x1801, 0x3C).unwrap();
    assert_eq!(ram.read_byte(0x0001).unwrap(), 0x3C);

    // The last byte of the physical RAM and the last byte of the range are the same one.
    ram.write_byte(0x07FF, 0x11).unwrap();
    assert_eq!(ram.read_byte(0x1FFF).unwrap(), 0x11);
}

/// RAM whose storage matches its range is unaffected: every address is its own byte.
#[test]
fn unmirrored_ram_gives_every_address_its_own_byte() {
    let mut ram = Ram::with_range(0x0000, 0x1FFF);

    ram.write_byte(0x0000, 0x5A).unwrap();
    ram.write_byte(0x0800, 0xA5).unwrap();

    assert_eq!(ram.read_byte(0x0000).unwrap(), 0x5A, "not mirrored, so these are different bytes");
    assert_eq!(ram.read_byte(0x0800).unwrap(), 0xA5);
}
