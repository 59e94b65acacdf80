use gameboy::cpu::CpuError;
use gameboy::device::{Device, HeadlessDevice};
use gameboy::interconnect::Interconnect;
use gameboy::memory_bus::MemoryBus;
use gameboy::vm::{apply_writes, post_boot_cpu, post_boot_writes, RunSummary, VM};

fn cart_with(program: &[u8]) -> Vec<u8> {
    let mut cart = vec![0u8; 0x8000];
    for (i, b) in program.iter().enumerate() {
        cart[0x100 + i] = *b;
    }
    cart
}

fn boot_rom() -> Vec<u8> {
    (0..0x100u32).map(|i| (i as u8).wrapping_add(1)).collect()
}

#[test]
fn post_boot_table_is_in_address_order() {
    let w = post_boot_writes();
    assert_eq!(w.len(), 31);
    assert_eq!(w[0], (0xFF05, 0x00));
    assert_eq!(w[3], (0xFF10, 0x80));
    assert_eq!(w[21], (0xFF40, 0x91));
    assert_eq!(w[30], (0xFFFF, 0x00));
    for i in 1..w.len() {
        assert!(w[i - 1].0 < w[i].0);
    }
}

#[test]
fn skipping_boot_rom_sets_post_boot_state() {
    let vm = VM::new(MemoryBus::new(boot_rom(), cart_with(&[0x76])), false);
    let (cpu, bus) = vm.get_children();
    assert_eq!(cpu, post_boot_cpu());
    assert_eq!(cpu.a, 0x00);
    assert_eq!(cpu.f.to_byte(), 0x00);
    assert_eq!(cpu.bc(), 0x0000);
    assert_eq!(cpu.de(), 0x0000);
    assert_eq!(cpu.hl(), 0x0000);
    assert_eq!(cpu.sp, 0xFFFE);
    assert_eq!(cpu.pc, 0x0100);
    for (address, value) in post_boot_writes() {
        assert_eq!(bus.read_byte(address), value);
    }
    assert_eq!(bus.read_byte(0xFF11), 0xBF);
    assert_eq!(bus.read_byte(0xFF47), 0xFC);
    assert_eq!(bus.read_byte(0xFF13), 0xFF);
}

#[test]
fn skipping_boot_rom_twice_matches_once() {
    let vm = VM::new(MemoryBus::new(boot_rom(), cart_with(&[])), false);
    let (cpu_once, bus_once) = vm.get_children();
    let vm2 = VM::new(bus_once, false);
    let (cpu_twice, bus_twice) = vm2.get_children();
    assert_eq!(cpu_once, cpu_twice);
    let fresh = VM::new(MemoryBus::new(boot_rom(), cart_with(&[])), false);
    let (_, bus_fresh) = fresh.get_children();
    for a in 0x8000u32..=0xFFFF {
        assert_eq!(bus_twice.read_byte(a as u16), bus_fresh.read_byte(a as u16));
    }
}

#[test]
fn with_boot_rom_registers_are_zero() {
    let vm = VM::new(MemoryBus::new(boot_rom(), cart_with(&[0x76])), true);
    let (cpu, bus) = vm.get_children();
    assert_eq!(cpu.pc, 0x0000);
    assert_eq!(cpu.a, 0);
    assert_eq!(cpu.f.to_byte(), 0);
    assert_eq!(cpu.bc(), 0);
    assert_eq!(cpu.de(), 0);
    assert_eq!(cpu.hl(), 0);
    assert_eq!(cpu.sp, 0);
    assert!(bus.boot_rom_active());
    assert_eq!(bus.read_byte(0x0000), 0x01);
    assert_eq!(bus.read_byte(0xFF40), 0xFF);
}

#[test]
fn halting_entry_takes_one_halt_step() {
    let mut vm = VM::new(MemoryBus::new(boot_rom(), cart_with(&[0x76])), false);
    let mut device = HeadlessDevice::new();
    assert_eq!(vm.step(&mut device), Ok(4));
    let (cpu, _) = vm.get_children();
    assert_eq!(cpu.pc, 0x0101);
    assert!(cpu.halted);
}

#[test]
fn boot_program_runs_from_overlay() {
    let mut boot = vec![0u8; 0x100];
    boot[0] = 0x3E;
    boot[1] = 0x01;
    boot[2] = 0xEA;
    boot[3] = 0x50;
    boot[4] = 0xFF;
    let mut vm = VM::new(MemoryBus::new(boot, cart_with(&[0x76])), true);
    let mut device = HeadlessDevice::new();
    assert_eq!(vm.step(&mut device), Ok(8));
    assert_eq!(vm.step(&mut device), Ok(16));
    let (cpu, bus) = vm.get_children();
    assert_eq!(cpu.pc, 0x0005);
    assert!(!bus.boot_rom_active());
    assert_eq!(bus.read_byte(0x0000), 0x00);
}

#[test]
fn run_counts_every_cycle() {
    let mut vm = VM::new(MemoryBus::new(boot_rom(), cart_with(&[0xC3, 0x00, 0x01])), false);
    let mut device = HeadlessDevice::new();
    let first = vm.run(&mut device, 4388);
    assert_eq!(first, RunSummary { steps: 4388, cycles: 4388 * 16, fault: None });
    assert_eq!(device.frames_shown(), 0);
    let second = vm.run(&mut device, 1);
    assert_eq!(second, RunSummary { steps: 1, cycles: 16, fault: None });
    assert_eq!(device.frames_shown(), 1);
}

#[test]
fn run_stops_when_device_closed() {
    let mut vm = VM::new(MemoryBus::new(boot_rom(), cart_with(&[0x00, 0x00])), false);
    let mut device = HeadlessDevice::new();
    device.close();
    let summary = vm.run(&mut device, 10);
    assert_eq!(summary, RunSummary { steps: 0, cycles: 0, fault: None });
    assert_eq!(device.frames_shown(), 0);
    assert!(!device.running());
    let (cpu, _) = vm.get_children();
    assert_eq!(cpu.pc, 0x0100);
}

#[test]
fn run_reports_fault() {
    let mut vm = VM::new(MemoryBus::new(boot_rom(), cart_with(&[0x00, 0x00, 0xD3])), false);
    let mut device = HeadlessDevice::new();
    let summary = vm.run(&mut device, 10);
    assert_eq!(
        summary,
        RunSummary {
            steps: 2,
            cycles: 8,
            fault: Some(CpuError::UnknownOpcode { opcode: 0xD3, address: 0x0102 }),
        }
    );
}

#[test]
fn post_boot_writes_in_any_order_agree() {
    let mut forward = MemoryBus::new(boot_rom(), cart_with(&[]));
    let mut backward = MemoryBus::new(boot_rom(), cart_with(&[]));
    let writes = post_boot_writes();
    let mut reversed = writes.clone();
    reversed.reverse();
    apply_writes(&mut forward, &writes);
    apply_writes(&mut backward, &reversed);
    for a in 0x0000u32..=0xFFFF {
        assert_eq!(forward.read_byte(a as u16), backward.read_byte(a as u16));
    }
    assert_eq!(forward.read_byte(0xFF24), 0x77);
    assert!(forward.boot_rom_active());
}
