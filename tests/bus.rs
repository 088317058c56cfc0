use nes_core::nes::NES;

#[test]
fn ram_is_mirrored_every_2048_bytes() {
    let mut nes = NES::new();
    nes.write8(0x0000, 0x42);
    assert_eq!(nes.read8(0x0800), 0x42);
    assert_eq!(nes.read8(0x1000), 0x42);
    assert_eq!(nes.read8(0x1800), 0x42);
    nes.write8(0x1FFF, 0x99);
    assert_eq!(nes.read8(0x07FF), 0x99);
}

#[test]
fn every_access_counts_one_cycle() {
    let mut nes = NES::new();
    assert_eq!(nes.cycles, 0);
    nes.read8(0x0010);
    nes.write8(0x0010, 1);
    nes.read8(0x4000);
    nes.write8(0x8000, 1);
    assert_eq!(nes.cycles, 4);
    nes.read_addr(0x0000);
    assert_eq!(nes.cycles, 6);
}

#[test]
fn unmapped_addresses_read_zero_and_drop_writes() {
    let mut nes = NES::new();
    nes.write8(0x2000, 0x55);
    assert_eq!(nes.read8(0x2000), 0);
    assert_eq!(nes.read8(0xFFFF), 0);
    for i in 0..2048 {
        assert_eq!(nes.ram[i], 0);
    }
}

#[test]
fn read_addr_is_little_endian() {
    let mut nes = NES::new();
    nes.write8(0x0010, 0x34);
    nes.write8(0x0011, 0x12);
    assert_eq!(nes.read_addr(0x0010), 0x1234);
}

#[test]
fn read_code_advances_program_counter() {
    let mut nes = NES::new();
    nes.write8(0x0200, 0xCD);
    nes.write8(0x0201, 0xAB);
    nes.write8(0x0202, 0x07);
    nes.PC = 0x0200;
    assert_eq!(nes.read_code_addr(), 0xABCD);
    assert_eq!(nes.PC, 0x0202);
    assert_eq!(nes.read_code(), 0x07);
    assert_eq!(nes.PC, 0x0203);
}

#[test]
fn read_code_wraps_program_counter() {
    let mut nes = NES::new();
    nes.PC = 0xFFFF;
    assert_eq!(nes.read_code(), 0);
    assert_eq!(nes.PC, 0x0000);
}

#[test]
fn reset_state_sets_stack_pointer() {
    let mut nes = NES::new();
    nes.SP = 0x00;
    nes.reset_state();
    assert_eq!(nes.SP, 0xFD);
}

#[test]
fn status_register_through_system() {
    let mut nes = NES::new();
    nes.set_status_register(0xFF);
    assert!(nes.SR.C && nes.SR.N);
    assert_eq!(nes.get_status_register(), 0xEF);
}

#[test]
fn push16_then_pop16_returns_value() {
    let mut nes = NES::new();
    nes.reset_state();
    nes.push16(0x1234);
    assert_eq!(nes.SP, 0xFB);
    assert_eq!(nes.ram[0x1FD], 0x12);
    assert_eq!(nes.ram[0x1FC], 0x34);
    assert_eq!(nes.pop16(), 0x1234);
    assert_eq!(nes.SP, 0xFD);
}

#[test]
fn push8_then_pop8() {
    let mut nes = NES::new();
    nes.reset_state();
    nes.push8(0xAA);
    nes.push8(0xBB);
    assert_eq!(nes.pop8(), 0xBB);
    assert_eq!(nes.pop8(), 0xAA);
}

#[test]
fn stack_pointer_wraps_after_256_pushes() {
    let mut nes = NES::new();
    nes.reset_state();
    let start = nes.SP;
    for i in 0..256u32 {
        nes.push8(i as u8);
    }
    assert_eq!(nes.SP, start);
    nes.SP = 0x00;
    nes.push8(1);
    assert_eq!(nes.SP, 0xFF);
    assert_eq!(nes.ram[0x100], 1);
    assert_eq!(nes.pop8(), 1);
    assert_eq!(nes.SP, 0x00);
}
