use vstd::prelude::*;
use crate::interconnect::Interconnect;

verus! {

/// Value of a register pair whose high half is `hi` and low half is `lo`.
pub open spec fn pair_value(hi: u8, lo: u8) -> u16 {
    (hi as int * 256 + lo as int) as u16
}

/// The flag register: zero (bit 7), subtract (bit 6), half-carry (bit 5)
/// and carry (bit 4). The low nibble always reads as zero.
#[derive(Clone, Copy, Debug, PartialEq, Eq, Structural)]
pub struct Flags {
    pub zero: bool,
    pub subtract: bool,
    pub half_carry: bool,
    pub carry: bool,
}

/// Whether the bit of `b` whose value is `bit` (a power of two) is set.
pub open spec fn bit_set(b: u8, bit: u8) -> bool {
    (b / bit) % 2 == 1
}

impl Flags {
    /// Flags decoded from the raw byte of the flag register.
    pub fn from_byte(b: u8) -> (r: Flags)
        ensures
            r.zero == bit_set(b, 128),
            r.subtract == bit_set(b, 64),
            r.half_carry == bit_set(b, 32),
            r.carry == bit_set(b, 16),
    {
        Flags {
            zero: (b / 128) % 2 == 1,
            subtract: (b / 64) % 2 == 1,
            half_carry: (b / 32) % 2 == 1,
            carry: (b / 16) % 2 == 1,
        }
    }

    /// The raw byte of the flag register.
    pub fn to_byte(&self) -> (r: u8)
        ensures
            r as int == (if self.zero { 128int } else { 0 }) + (if self.subtract { 64int } else { 0 })
                + (if self.half_carry { 32int } else { 0 }) + (if self.carry { 16int } else { 0 }),
    {
        let mut r: u8 = 0;
        if self.zero {
            r = r + 128;
        }
        if self.subtract {
            r = r + 64;
        }
        if self.half_carry {
            r = r + 32;
        }
        if self.carry {
            r = r + 16;
        }
        r
    }
}

/// Where the execution engine starts after reset: the cartridge entry point.
pub const ENTRY_POINT: u16 = 0x0100;

/// The register file, and whether the engine has halted.
#[derive(Clone, Copy, Debug, PartialEq, Eq, Structural)]
pub struct Cpu {
    pub a: u8,
    pub f: Flags,
    pub b: u8,
    pub c: u8,
    pub d: u8,
    pub e: u8,
    pub h: u8,
    pub l: u8,
    pub sp: u16,
    pub pc: u16,
    pub halted: bool,
}

/// Why an instruction could not be executed.
#[derive(Clone, Copy, Debug, PartialEq, Eq, Structural)]
pub enum CpuError {
    /// The byte at `address` is no opcode this engine executes.
    UnknownOpcode { opcode: u8, address: u16 },
}

/// What one step does: the registers after it, the byte it writes, if any,
/// and the cycles it takes.
pub struct Executed {
    pub next: Cpu,
    pub write: Option<(u16, u8)>,
    pub cycles: u16,
}

/// `pc + k`, wrapping at the top of the address space.
pub open spec fn offset(pc: u16, k: int) -> u16 {
    ((pc + k) % 0x10000) as u16
}

/// The byte `k` places after the program counter.
pub open spec fn operand<B: Interconnect>(cpu: Cpu, bus: B::V, k: int) -> u8 {
    B::read_view(bus, offset(cpu.pc, k))
}

/// The 16-bit operand that follows the opcode, low byte first.
pub open spec fn operand16<B: Interconnect>(cpu: Cpu, bus: B::V) -> u16 {
    pair_value(operand::<B>(cpu, bus, 2), operand::<B>(cpu, bus, 1))
}

/// The registers with the program counter moved `k` bytes on.
pub open spec fn advanced(cpu: Cpu, k: int) -> Cpu {
    Cpu { pc: offset(cpu.pc, k), ..cpu }
}

/// A step that writes nothing.
pub open spec fn done(next: Cpu, cycles: u16) -> Option<Executed> {
    Some(Executed { next, write: None, cycles })
}

/// One step of the engine on a bus in state `bus`, or `None` where the
/// opcode at the program counter is not one it executes. A halted engine
/// idles for four cycles.
pub open spec fn execute<B: Interconnect>(cpu: Cpu, bus: B::V) -> Option<Executed> {
    let op = operand::<B>(cpu, bus, 0);
    if cpu.halted {
        done(cpu, 4)
    } else if op == 0x00 {
        done(advanced(cpu, 1), 4)
    } else if op == 0x76 {
        done(Cpu { halted: true, ..advanced(cpu, 1) }, 4)
    } else if op == 0xC3 {
        done(Cpu { pc: operand16::<B>(cpu, bus), ..cpu }, 16)
    } else if op == 0x3E {
        done(Cpu { a: operand::<B>(cpu, bus, 1), ..advanced(cpu, 2) }, 8)
    } else if op == 0xEA {
        Some(Executed { next: advanced(cpu, 3), write: Some((operand16::<B>(cpu, bus), cpu.a)), cycles: 16 })
    } else if op == 0xFA {
        done(Cpu { a: B::read_view(bus, operand16::<B>(cpu, bus)), ..advanced(cpu, 3) }, 16)
    } else if op == 0x01 {
        done(Cpu { b: operand::<B>(cpu, bus, 2), c: operand::<B>(cpu, bus, 1), ..advanced(cpu, 3) }, 12)
    } else if op == 0x11 {
        done(Cpu { d: operand::<B>(cpu, bus, 2), e: operand::<B>(cpu, bus, 1), ..advanced(cpu, 3) }, 12)
    } else if op == 0x21 {
        done(Cpu { h: operand::<B>(cpu, bus, 2), l: operand::<B>(cpu, bus, 1), ..advanced(cpu, 3) }, 12)
    } else if op == 0x31 {
        done(Cpu { sp: operand16::<B>(cpu, bus), ..advanced(cpu, 3) }, 12)
    } else if op == 0xAF {
        done(
            Cpu {
                a: 0,
                f: Flags { zero: true, subtract: false, half_carry: false, carry: false },
                ..advanced(cpu, 1)
            },
            4,
        )
    } else {
        None
    }
}

/// The bus state after the step's write, if it makes one.
pub open spec fn bus_after<B: Interconnect>(bus: B::V, write: Option<(u16, u8)>) -> B::V {
    match write {
        Some(w) => B::write_view(bus, w.0, w.1),
        None => bus,
    }
}

/// The address `k` bytes after `pc`.
fn at(pc: u16, k: u16) -> (r: u16)
    requires
        k < 4,
    ensures
        r == offset(pc, k as int),
{
    pc.wrapping_add(k)
}

/// The 16-bit operand after the opcode at `pc`, low byte first.
fn read16<B: Interconnect>(bus: &B, pc: u16) -> (r: u16)
    ensures
        r == pair_value(B::read_view(bus@, offset(pc, 2)), B::read_view(bus@, offset(pc, 1))),
{
    let lo = bus.read_byte(at(pc, 1));
    let hi = bus.read_byte(at(pc, 2));
    join(hi, lo)
}

/// The 16-bit value of a high and a low byte.
fn join(hi: u8, lo: u8) -> (r: u16)
    ensures
        r == pair_value(hi, lo),
{
    hi as u16 * 256 + lo as u16
}

impl Cpu {
    /// The engine after reset: every register zero, the program counter at
    /// the cartridge entry point, not halted.
    pub fn new() -> (r: Cpu)
        ensures
            r == (Cpu {
                a: 0,
                f: Flags { zero: false, subtract: false, half_carry: false, carry: false },
                b: 0,
                c: 0,
                d: 0,
                e: 0,
                h: 0,
                l: 0,
                sp: 0,
                pc: ENTRY_POINT,
                halted: false,
            }),
    {
        Cpu {
            a: 0,
            f: Flags { zero: false, subtract: false, half_carry: false, carry: false },
            b: 0,
            c: 0,
            d: 0,
            e: 0,
            h: 0,
            l: 0,
            sp: 0,
            pc: ENTRY_POINT,
            halted: false,
        }
    }

    /// The B and C registers as one 16-bit value, B high.
    pub fn bc(&self) -> (r: u16)
        ensures
            r == pair_value(self.b, self.c),
    {
        join(self.b, self.c)
    }

    /// The D and E registers as one 16-bit value, D high.
    pub fn de(&self) -> (r: u16)
        ensures
            r == pair_value(self.d, self.e),
    {
        join(self.d, self.e)
    }

    /// The H and L registers as one 16-bit value, H high.
    pub fn hl(&self) -> (r: u16)
        ensures
            r == pair_value(self.h, self.l),
    {
        join(self.h, self.l)
    }

    /// Sets B to the high byte of `value` and C to the low byte.
    pub fn set_bc(&mut self, value: u16)
        ensures
            *final(self) == (Cpu { b: high_byte(value), c: low_byte(value), ..*old(self) }),
            pair_value(final(self).b, final(self).c) == value,
    {
        self.b = (value / 256) as u8;
        self.c = (value % 256) as u8;
        proof {
            lemma_pair_split(value);
        }
    }

    /// Sets D to the high byte of `value` and E to the low byte.
    pub fn set_de(&mut self, value: u16)
        ensures
            *final(self) == (Cpu { d: high_byte(value), e: low_byte(value), ..*old(self) }),
            pair_value(final(self).d, final(self).e) == value,
    {
        self.d = (value / 256) as u8;
        self.e = (value % 256) as u8;
        proof {
            lemma_pair_split(value);
        }
    }

    /// Sets H to the high byte of `value` and L to the low byte.
    pub fn set_hl(&mut self, value: u16)
        ensures
            *final(self) == (Cpu { h: high_byte(value), l: low_byte(value), ..*old(self) }),
            pair_value(final(self).h, final(self).l) == value,
    {
        self.h = (value / 256) as u8;
        self.l = (value % 256) as u8;
        proof {
            lemma_pair_split(value);
        }
    }

    /// Executes the one instruction at the program counter against `bus`
    /// and returns the cycles it took.
    pub fn step<B: Interconnect>(&mut self, bus: &mut B) -> (r: Result<u16, CpuError>)
        ensures
            B::elapsed(final(bus)@) == B::elapsed(old(bus)@),
            match execute::<B>(*old(self), old(bus)@) {
                Some(x) => r == Ok::<u16, CpuError>(x.cycles) && *final(self) == x.next
                    && final(bus)@ == bus_after::<B>(old(bus)@, x.write),
                None => r == Err::<u16, CpuError>(
                    CpuError::UnknownOpcode {
                        opcode: B::read_view(old(bus)@, old(self).pc),
                        address: old(self).pc,
                    },
                ) && *final(self) == *old(self) && final(bus)@ == old(bus)@,
            },
    {
        if self.halted {
            return Ok(4);
        }
        let pc = self.pc;
        let op = bus.read_byte(pc);
        proof {
            assert(offset(pc, 0) == pc);
        }
        if op == 0x00 {
            self.pc = at(pc, 1);
            Ok(4)
        } else if op == 0x76 {
            self.pc = at(pc, 1);
            self.halted = true;
            Ok(4)
        } else if op == 0xC3 {
            self.pc = read16(bus, pc);
            Ok(16)
        } else if op == 0x3E {
            self.a = bus.read_byte(at(pc, 1));
            self.pc = at(pc, 2);
            Ok(8)
        } else if op == 0xEA {
            let address = read16(bus, pc);
            bus.write_byte(address, self.a);
            self.pc = at(pc, 3);
            Ok(16)
        } else if op == 0xFA {
            let address = read16(bus, pc);
            self.a = bus.read_byte(address);
            self.pc = at(pc, 3);
            Ok(16)
        } else if op == 0x01 || op == 0x11 || op == 0x21 {
            let lo = bus.read_byte(at(pc, 1));
            let hi = bus.read_byte(at(pc, 2));
            if op == 0x01 {
                self.b = hi;
                self.c = lo;
            } else if op == 0x11 {
                self.d = hi;
                self.e = lo;
            } else {
                self.h = hi;
                self.l = lo;
            }
            self.pc = at(pc, 3);
            Ok(12)
        } else if op == 0x31 {
            self.sp = read16(bus, pc);
            self.pc = at(pc, 3);
            Ok(12)
        } else if op == 0xAF {
            self.a = 0;
            self.f = Flags { zero: true, subtract: false, half_carry: false, carry: false };
            self.pc = at(pc, 1);
            Ok(4)
        } else {
            Err(CpuError::UnknownOpcode { opcode: op, address: pc })
        }
    }
}

/// The high byte of a 16-bit value.
pub open spec fn high_byte(value: u16) -> u8 {
    (value / 256) as u8
}

/// The low byte of a 16-bit value.
pub open spec fn low_byte(value: u16) -> u8 {
    (value % 256) as u8
}

/// Setting a register pair and reading its halves back gives the value set:
/// the high half is the first register, the low half the second.
pub proof fn lemma_pair_split(value: u16)
    ensures
        pair_value(high_byte(value), low_byte(value)) == value,
{
}

/// Reading a pair built from two halves and splitting it gives the halves.
pub proof fn lemma_pair_join(hi: u8, lo: u8)
    ensures
        high_byte(pair_value(hi, lo)) == hi,
        low_byte(pair_value(hi, lo)) == lo,
{
}

} // verus!
