use chip8_core::memory::Memory;

#[test]
fn read_slice_test() {
    let mut mem = Memory::new();

    // Get one byte after another
    for i in 0..12 {
        assert_eq!(mem.get_byte(1527 + i), 0);
    }
    // Get bytes all at once
    assert_eq!(mem.read_slice_at(1527, 1), [0; 1]);
}

#[test]
fn set_and_get_byte() {
    let mut mem = Memory::new();
    mem.set_byte(0x000, 0xAB);
    mem.set_byte(0xFFF, 0xCD);
    assert_eq!(mem.get_byte(0x000), 0xAB);
    assert_eq!(mem.get_byte(0xFFF), 0xCD);
    assert_eq!(mem.get_byte(0x001), 0x00);
}

#[test]
fn write_then_read_slice() {
    let mut mem = Memory::new();
    mem.write_slice_at(0x300, &[1, 2, 3, 4]);
    assert_eq!(mem.read_slice_at(0x300, 4), [1, 2, 3, 4]);
    assert_eq!(mem.read_slice_at(0x2FE, 2), [0, 0]);
    assert_eq!(mem.read_slice_at(0x304, 1), [0]);
}
