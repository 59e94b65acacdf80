use gameboy::device::HeadlessDevice;
use gameboy::interconnect::Interconnect;
use gameboy::memory_bus::{MemoryBus, BOOT_ROM_DISABLE, FILL, SCREEN_HEIGHT, SCREEN_WIDTH};

fn small_bus() -> MemoryBus {
    let boot: Vec<u8> = (0..0x100u32).map(|i| (i as u8) ^ 0x5A).collect();
    let cart: Vec<u8> = (0..0x200u32).map(|i| (i % 251) as u8).collect();
    MemoryBus::new(boot, cart)
}

#[test]
fn overlay_answers_until_disabled() {
    let mut bus = small_bus();
    assert!(bus.boot_rom_active());
    assert_eq!(bus.read_byte(0x0000), 0x5A);
    assert_eq!(bus.read_byte(0x00FF), 0xFF ^ 0x5A);
    assert_eq!(bus.read_byte(0x0100), (0x100 % 251) as u8);
    bus.write_byte(BOOT_ROM_DISABLE, 0x00);
    assert!(bus.boot_rom_active());
    assert_eq!(bus.read_byte(0x0010), 0x10 ^ 0x5A);
    bus.write_byte(BOOT_ROM_DISABLE, 0x01);
    assert!(!bus.boot_rom_active());
    assert_eq!(bus.read_byte(0x0000), 0x00);
    assert_eq!(bus.read_byte(0x0010), 0x10);
    bus.write_byte(BOOT_ROM_DISABLE, 0x00);
    assert!(!bus.boot_rom_active());
    assert_eq!(bus.read_byte(0x0010), 0x10);
}

#[test]
fn unwritten_addresses_read_fill() {
    let bus = small_bus();
    assert_eq!(FILL, 0xFF);
    assert_eq!(bus.read_byte(0xC000), 0xFF);
    assert_eq!(bus.read_byte(0xFFFF), 0xFF);
    assert_eq!(bus.read_byte(0x8000), 0xFF);
    assert_eq!(bus.read_byte(0x7FFF), 0xFF);
    assert_eq!(bus.read_byte(0x0300), 0xFF);
}

#[test]
fn rom_writes_are_dropped_ram_writes_stay() {
    let mut bus = small_bus();
    bus.write_byte(0x0150, 0x99);
    assert_eq!(bus.read_byte(0x0150), (0x150 % 251) as u8);
    bus.write_byte(0xC123, 0x77);
    assert_eq!(bus.read_byte(0xC123), 0x77);
    assert_eq!(bus.read_byte(0xC124), 0xFF);
    bus.write_byte(0xFFFF, 0x00);
    assert_eq!(bus.read_byte(0xFFFF), 0x00);
}

#[test]
fn frame_handed_over_once_per_frame_time() {
    let mut bus = small_bus();
    let mut device = HeadlessDevice::new();
    for _ in 0..4388 {
        bus.step(16, &mut device);
    }
    assert_eq!(device.frames_shown(), 0);
    bus.step(16, &mut device);
    assert_eq!(device.frames_shown(), 1);
    assert_eq!(device.shown().len(), SCREEN_WIDTH * SCREEN_HEIGHT);
    assert!(device.shown().iter().all(|p| *p == 0xFFFF_FFFF));
}

#[test]
fn screen_dimensions() {
    let bus = small_bus();
    assert_eq!(bus.get_width(), 160);
    assert_eq!(bus.get_height(), 144);
}

#[test]
fn long_boot_image_overlays_all_its_bytes() {
    let boot: Vec<u8> = (0..0x900u32).map(|i| (i % 7) as u8 + 0x10).collect();
    let cart: Vec<u8> = vec![0x42; 0x8000];
    let mut bus = MemoryBus::new(boot, cart);
    assert_eq!(bus.read_byte(0x0150), (0x150 % 7) as u8 + 0x10);
    assert_eq!(bus.read_byte(0x08FF), (0x8FF % 7) as u8 + 0x10);
    assert_eq!(bus.read_byte(0x0900), 0x42);
    bus.write_byte(BOOT_ROM_DISABLE, 0x01);
    assert_eq!(bus.read_byte(0x0150), 0x42);
}
