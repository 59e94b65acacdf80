use gameboy::cpu::{Cpu, CpuError, Flags, ENTRY_POINT};
use gameboy::interconnect::Interconnect;
use gameboy::memory_bus::MemoryBus;

fn bus_with_program(program: &[u8]) -> MemoryBus {
    let mut cart = vec![0u8; 0x8000];
    for (i, b) in program.iter().enumerate() {
        cart[0x100 + i] = *b;
    }
    MemoryBus::new(vec![0u8; 0x100], cart)
}

#[test]
fn flags_decode_each_bit() {
    let f = Flags::from_byte(0xA0);
    assert!(f.zero);
    assert!(!f.subtract);
    assert!(f.half_carry);
    assert!(!f.carry);
    assert_eq!(Flags::from_byte(0x50).to_byte(), 0x50);
    assert_eq!(Flags::from_byte(0xFF).to_byte(), 0xF0);
    assert_eq!(Flags::from_byte(0x00).to_byte(), 0x00);
}

#[test]
fn register_pairs_split_high_then_low() {
    let mut cpu = Cpu::new();
    cpu.set_bc(0x1234);
    assert_eq!(cpu.b, 0x12);
    assert_eq!(cpu.c, 0x34);
    assert_eq!(cpu.bc(), 0x1234);
    cpu.set_de(0xBEEF);
    assert_eq!((cpu.d, cpu.e), (0xBE, 0xEF));
    assert_eq!(cpu.de(), 0xBEEF);
    cpu.set_hl(0x00FF);
    assert_eq!((cpu.h, cpu.l), (0x00, 0xFF));
    assert_eq!(cpu.hl(), 0x00FF);
    assert_eq!(cpu.bc(), 0x1234);
}

#[test]
fn reset_starts_at_entry_point() {
    let cpu = Cpu::new();
    assert_eq!(cpu.pc, ENTRY_POINT);
    assert_eq!(cpu.pc, 0x0100);
    assert_eq!(cpu.sp, 0);
    assert_eq!(cpu.a, 0);
    assert!(!cpu.halted);
}

#[test]
fn nop_takes_four_cycles() {
    let mut bus = bus_with_program(&[0x00]);
    let mut cpu = Cpu::new();
    assert_eq!(cpu.step(&mut bus), Ok(4));
    assert_eq!(cpu.pc, 0x0101);
}

#[test]
fn jump_loads_operand_low_byte_first() {
    let mut bus = bus_with_program(&[0xC3, 0x50, 0x01]);
    let mut cpu = Cpu::new();
    assert_eq!(cpu.step(&mut bus), Ok(16));
    assert_eq!(cpu.pc, 0x0150);
}

#[test]
fn store_and_load_accumulator_through_bus() {
    let mut bus = bus_with_program(&[0x3E, 0x42, 0xEA, 0x00, 0xC0, 0xAF, 0xFA, 0x00, 0xC0]);
    let mut cpu = Cpu::new();
    assert_eq!(cpu.step(&mut bus), Ok(8));
    assert_eq!(cpu.a, 0x42);
    assert_eq!(cpu.step(&mut bus), Ok(16));
    assert_eq!(bus.read_byte(0xC000), 0x42);
    assert_eq!(cpu.step(&mut bus), Ok(4));
    assert_eq!(cpu.a, 0);
    assert!(cpu.f.zero);
    assert_eq!(cpu.f.to_byte(), 0x80);
    assert_eq!(cpu.step(&mut bus), Ok(16));
    assert_eq!(cpu.a, 0x42);
    assert_eq!(cpu.pc, 0x0109);
}

#[test]
fn sixteen_bit_loads() {
    let mut bus = bus_with_program(&[0x01, 0x34, 0x12, 0x11, 0x78, 0x56, 0x21, 0xBC, 0x9A, 0x31, 0xFE, 0xFF]);
    let mut cpu = Cpu::new();
    for _ in 0..4 {
        assert_eq!(cpu.step(&mut bus), Ok(12));
    }
    assert_eq!(cpu.bc(), 0x1234);
    assert_eq!(cpu.de(), 0x5678);
    assert_eq!(cpu.hl(), 0x9ABC);
    assert_eq!(cpu.sp, 0xFFFE);
    assert_eq!(cpu.pc, 0x010C);
}

#[test]
fn halted_engine_idles_in_place() {
    let mut bus = bus_with_program(&[0x76, 0x00]);
    let mut cpu = Cpu::new();
    assert_eq!(cpu.step(&mut bus), Ok(4));
    assert!(cpu.halted);
    assert_eq!(cpu.pc, 0x0101);
    assert_eq!(cpu.step(&mut bus), Ok(4));
    assert_eq!(cpu.pc, 0x0101);
}

#[test]
fn unknown_opcode_changes_nothing() {
    let mut bus = bus_with_program(&[0xD3]);
    let mut cpu = Cpu::new();
    let before = cpu;
    assert_eq!(
        cpu.step(&mut bus),
        Err(CpuError::UnknownOpcode { opcode: 0xD3, address: 0x0100 })
    );
    assert_eq!(cpu, before);
}
