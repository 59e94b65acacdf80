//! Execution-synchronization core of a Game Boy-class emulator: a register
//! file and execution engine, a bus contract with a flat test bus, a host
//! device contract with a headless device, and the orchestrating machine.

pub mod cpu;
pub mod device;
pub mod interconnect;
pub mod memory_bus;
pub mod vm;
pub mod boot_state;
