use vstd::prelude::*;
use crate::cpu::{bus_after, execute, Cpu, CpuError, Flags, ENTRY_POINT};
use crate::device::{Device, Key};
use crate::interconnect::Interconnect;

verus! {

/// The I/O registers the boot program leaves set, with their values, in
/// the order they are written when the boot program is skipped. The values
/// are the machine's published post-boot table, kept as published; they
/// have not been checked here against real hardware.
pub open spec fn post_boot_table() -> Seq<(u16, u8)> {
    seq![
        (0xFF05u16, 0x00u8),
        (0xFF06u16, 0x00u8),
        (0xFF07u16, 0x00u8),
        (0xFF10u16, 0x80u8),
        (0xFF11u16, 0xBFu8),
        (0xFF12u16, 0xF3u8),
        (0xFF14u16, 0xBFu8),
        (0xFF16u16, 0x3Fu8),
        (0xFF17u16, 0x00u8),
        (0xFF19u16, 0xBFu8),
        (0xFF1Au16, 0x7Fu8),
        (0xFF1Bu16, 0xFFu8),
        (0xFF1Cu16, 0x9Fu8),
        (0xFF1Eu16, 0xBFu8),
        (0xFF20u16, 0xFFu8),
        (0xFF21u16, 0x00u8),
        (0xFF22u16, 0x00u8),
        (0xFF23u16, 0xBFu8),
        (0xFF24u16, 0x77u8),
        (0xFF25u16, 0xF3u8),
        (0xFF26u16, 0xF1u8),
        (0xFF40u16, 0x91u8),
        (0xFF42u16, 0x00u8),
        (0xFF43u16, 0x00u8),
        (0xFF45u16, 0x00u8),
        (0xFF47u16, 0xFCu8),
        (0xFF48u16, 0xFFu8),
        (0xFF49u16, 0xFFu8),
        (0xFF4Au16, 0x00u8),
        (0xFF4Bu16, 0x00u8),
        (0xFFFFu16, 0x00u8)
    ]
}

/// The registers as the boot program leaves them.
pub open spec fn post_boot_registers() -> Cpu {
    Cpu {
        a: 0x00,
        f: Flags { zero: false, subtract: false, half_carry: false, carry: false },
        b: 0x00,
        c: 0x00,
        d: 0x00,
        e: 0x00,
        h: 0x00,
        l: 0x00,
        sp: 0xFFFE,
        pc: ENTRY_POINT,
        halted: false,
    }
}

/// The registers when the boot program is to run: all zero.
pub open spec fn boot_rom_registers() -> Cpu {
    Cpu {
        a: 0,
        f: Flags { zero: false, subtract: false, half_carry: false, carry: false },
        b: 0,
        c: 0,
        d: 0,
        e: 0,
        h: 0,
        l: 0,
        sp: 0,
        pc: 0x0000,
        halted: false,
    }
}

/// The bus state after `writes`, made one after another from the first.
pub open spec fn written_all<T: Interconnect>(s: T::V, writes: Seq<(u16, u8)>) -> T::V
    decreases writes.len(),
{
    if writes.len() == 0 {
        s
    } else {
        T::write_view(
            written_all::<T>(s, writes.drop_last()),
            writes.last().0,
            writes.last().1,
        )
    }
}

/// The post-boot I/O writes, in order.
pub fn post_boot_writes() -> (r: Vec<(u16, u8)>)
    ensures
        r@ == post_boot_table(),
{
    let r = vec![
        (0xFF05, 0x00),
        (0xFF06, 0x00),
        (0xFF07, 0x00),
        (0xFF10, 0x80),
        (0xFF11, 0xBF),
        (0xFF12, 0xF3),
        (0xFF14, 0xBF),
        (0xFF16, 0x3F),
        (0xFF17, 0x00),
        (0xFF19, 0xBF),
        (0xFF1A, 0x7F),
        (0xFF1B, 0xFF),
        (0xFF1C, 0x9F),
        (0xFF1E, 0xBF),
        (0xFF20, 0xFF),
        (0xFF21, 0x00),
        (0xFF22, 0x00),
        (0xFF23, 0xBF),
        (0xFF24, 0x77),
        (0xFF25, 0xF3),
        (0xFF26, 0xF1),
        (0xFF40, 0x91),
        (0xFF42, 0x00),
        (0xFF43, 0x00),
        (0xFF45, 0x00),
        (0xFF47, 0xFC),
        (0xFF48, 0xFF),
        (0xFF49, 0xFF),
        (0xFF4A, 0x00),
        (0xFF4B, 0x00),
        (0xFFFF, 0x00)
    ];
    assert(r@ =~= post_boot_table());
    r
}

/// The post-boot register values.
pub fn post_boot_cpu() -> (r: Cpu)
    ensures
        r == post_boot_registers(),
{
    let mut cpu = Cpu::new();
    cpu.a = 0x00;
    cpu.f = Flags::from_byte(0x00);
    cpu.set_bc(0x0000);
    cpu.set_de(0x0000);
    cpu.set_hl(0x0000);
    cpu.sp = 0xFFFE;
    cpu
}

/// Writes each pair through the bus's write path, in order.
pub fn apply_writes<T: Interconnect>(bus: &mut T, writes: &Vec<(u16, u8)>)
    ensures
        final(bus)@ == written_all::<T>(old(bus)@, writes@),
        T::elapsed(final(bus)@) == T::elapsed(old(bus)@),
{
    let mut i: usize = 0;
    while i < writes.len()
        invariant
            i <= writes@.len(),
            bus@ == written_all::<T>(old(bus)@, writes@.subrange(0, i as int)),
            T::elapsed(bus@) == T::elapsed(old(bus)@),
        decreases writes@.len() - i,
    {
        let (address, value) = writes[i];
        bus.write_byte(address, value);
        proof {
            assert(writes@.subrange(0, i + 1).drop_last() =~= writes@.subrange(0, i as int));
        }
        i = i + 1;
    }
    assert(writes@.subrange(0, i as int) =~= writes@);
}

/// One successful step: the engine executes from `cpu` on a bus in state
/// `bus`, reaching `next`, and the bus then advances by the cycles taken to
/// `after`.
pub open spec fn one_step<T: Interconnect>(
    cpu: Cpu,
    bus: T::V,
    next: Cpu,
    after: T::V,
    cycles: nat,
) -> bool {
    match execute::<T>(cpu, bus) {
        Some(x) => x.cycles == cycles && next == x.next && after == T::step_view(
            bus_after::<T>(bus, x.write),
            x.cycles,
        ),
        None => false,
    }
}

/// The states `cpus[i]`, `buses[i]` follow one another by successful
/// steps, the `i`-th taking `cycles[i]`.
pub open spec fn chain<T: Interconnect>(cpus: Seq<Cpu>, buses: Seq<T::V>, cycles: Seq<nat>) -> bool {
    &&& cpus.len() == cycles.len() + 1
    &&& buses.len() == cycles.len() + 1
    &&& forall|i: int|
        0 <= i < cycles.len() ==> one_step::<T>(
            cpus[i],
            buses[i],
            cpus[i + 1],
            buses[i + 1],
            #[trigger] cycles[i],
        )
}

/// The sum of the cycle counts.
pub open spec fn total(cycles: Seq<nat>) -> nat
    decreases cycles.len(),
{
    if cycles.len() == 0 {
        0
    } else {
        total(cycles.drop_last()) + cycles.last()
    }
}

/// `n` successful steps lead from (`cpu`, `bus`) to (`cpu_n`, `bus_n`) and
/// take `cycles` in all.
pub open spec fn runs<T: Interconnect>(
    cpu: Cpu,
    bus: T::V,
    n: nat,
    cpu_n: Cpu,
    bus_n: T::V,
    cycles: nat,
) -> bool {
    exists|cpus: Seq<Cpu>, buses: Seq<T::V>, cs: Seq<nat>|
        #[trigger] chain::<T>(cpus, buses, cs) && cs.len() == n && cpus[0] == cpu && buses[0] == bus
            && cpus.last() == cpu_n && buses.last() == bus_n && total(cs) == cycles
}

/// Along any chain of steps the bus advances by exactly the sum of the
/// cycles the steps took: no cycle is lost or added between steps.
pub proof fn lemma_no_drift<T: Interconnect>(cpus: Seq<Cpu>, buses: Seq<T::V>, cycles: Seq<nat>)
    requires
        chain::<T>(cpus, buses, cycles),
    ensures
        T::elapsed(buses.last()) == T::elapsed(buses[0]) + total(cycles),
    decreases cycles.len(),
{
    if cycles.len() > 0 {
        let n = cycles.len() - 1;
        let c0 = cpus.drop_last();
        let b0 = buses.drop_last();
        let k0 = cycles.drop_last();
        assert forall|i: int| 0 <= i < k0.len() implies one_step::<T>(
            c0[i],
            b0[i],
            c0[i + 1],
            b0[i + 1],
            #[trigger] k0[i],
        ) by {
            assert(one_step::<T>(cpus[i], buses[i], cpus[i + 1], buses[i + 1], cycles[i]));
        }
        lemma_no_drift::<T>(c0, b0, k0);
        assert(one_step::<T>(cpus[n], buses[n], cpus[n + 1], buses[n + 1], cycles[n]));
        let x = execute::<T>(cpus[n], buses[n]).unwrap();
        match x.write {
            Some(w) => T::lemma_write_elapsed(buses[n], w.0, w.1),
            None => {},
        }
        T::lemma_stepped_elapsed(bus_after::<T>(buses[n], x.write), x.cycles);
    }
}

proof fn lemma_chain_extend<T: Interconnect>(
    cpus: Seq<Cpu>,
    buses: Seq<T::V>,
    cs: Seq<nat>,
    next: Cpu,
    after: T::V,
    more: nat,
)
    requires
        chain::<T>(cpus, buses, cs),
        one_step::<T>(cpus.last(), buses.last(), next, after, more),
    ensures
        chain::<T>(cpus.push(next), buses.push(after), cs.push(more)),
        total(cs.push(more)) == total(cs) + more,
{
    let cpus2 = cpus.push(next);
    let buses2 = buses.push(after);
    let cs2 = cs.push(more);
    assert forall|i: int| 0 <= i < cs2.len() implies one_step::<T>(
        cpus2[i],
        buses2[i],
        cpus2[i + 1],
        buses2[i + 1],
        #[trigger] cs2[i],
    ) by {
        if i < cs.len() {
            assert(cs2[i] == cs[i]);
            assert(one_step::<T>(cpus[i], buses[i], cpus[i + 1], buses[i + 1], cs[i]));
        }
    }
    assert(cs2.drop_last() =~= cs);
}

/// How a bounded run ended: the steps it completed, the cycles they took,
/// and the fault that stopped it, if one did.
#[derive(Clone, Copy, Debug, PartialEq, Eq, Structural)]
pub struct RunSummary {
    pub steps: u32,
    pub cycles: u64,
    pub fault: Option<CpuError>,
}

/// The machine: an execution engine and the bus it runs against.
pub struct VM<T: Interconnect> {
    cpu: Cpu,
    inter: T,
}

impl<T: Interconnect> VM<T> {
    /// The execution engine's registers.
    pub closed spec fn engine(&self) -> Cpu {
        self.cpu
    }

    /// The bus.
    pub closed spec fn bus(&self) -> T {
        self.inter
    }

    /// A machine over `interconnect`. With the boot ROM, the registers are
    /// zero and the program counter is at the boot ROM's start; without it,
    /// the registers and the I/O registers hold what the boot program
    /// leaves, written through the bus in table order.
    pub fn new(interconnect: T, with_boot_rom: bool) -> (r: VM<T>)
        ensures
            with_boot_rom ==> r.engine() == boot_rom_registers() && r.bus() == interconnect,
            !with_boot_rom ==> r.engine() == post_boot_registers() && r.bus()@ == written_all::<T>(
                interconnect@,
                post_boot_table(),
            ),
            T::elapsed(r.bus()@) == T::elapsed(interconnect@),
    {
        let mut cpu = Cpu::new();
        let mut interconnect = interconnect;
        if with_boot_rom {
            cpu.pc = 0x0000;
        } else {
            cpu = post_boot_cpu();
            let writes = post_boot_writes();
            apply_writes(&mut interconnect, &writes);
        }
        VM { cpu, inter: interconnect }
    }

    /// Executes one instruction, then advances the bus by exactly the
    /// cycles it took. An instruction the engine cannot execute changes
    /// nothing and advances nothing.
    pub fn step<D: Device>(&mut self, device: &mut D) -> (r: Result<u16, CpuError>)
        ensures
            match execute::<T>(old(self).engine(), old(self).bus()@) {
                Some(x) => r == Ok::<u16, CpuError>(x.cycles) && final(self).engine() == x.next
                    && final(self).bus()@ == T::step_view(bus_after::<T>(old(self).bus()@, x.write), x.cycles)
                    && T::elapsed(final(self).bus()@) == T::elapsed(old(self).bus()@) + x.cycles
                    && match T::frame_due(bus_after::<T>(old(self).bus()@, x.write), x.cycles) {
                    Some(f) => f.len() == T::width_of(bus_after::<T>(old(self).bus()@, x.write))
                        * T::height_of(bus_after::<T>(old(self).bus()@, x.write))
                        && final(device).displayed() == f && final(device).pending_frame() is None,
                    None => *final(device) == *old(device),
                },
                None => r == Err::<u16, CpuError>(
                    CpuError::UnknownOpcode {
                        opcode: T::read_view(old(self).bus()@, old(self).engine().pc),
                        address: old(self).engine().pc,
                    },
                ) && final(self).engine() == old(self).engine() && final(self).bus()@ == old(
                    self,
                ).bus()@ && *final(device) == *old(device),
            },
            final(device).is_running() == old(device).is_running(),
            forall|k: Key| #[trigger] final(device).key_held(k) == old(device).key_held(k),
    {
        let cycles = self.cpu.step(&mut self.inter);
        match cycles {
            Ok(c) => {
                self.inter.step(c, device);
                Ok(c)
            },
            Err(e) => Err(e),
        }
    }

    /// Steps while the device is running, at most `max_steps` times. The
    /// device is polled before each step; the run ends at the first poll
    /// that answers false, at the step limit, or at a fault.
    pub fn run<D: Device>(&mut self, device: &mut D, max_steps: u32) -> (r: RunSummary)
        ensures
            r.steps <= max_steps,
            runs::<T>(
                old(self).engine(),
                old(self).bus()@,
                r.steps as nat,
                final(self).engine(),
                final(self).bus()@,
                r.cycles as nat,
            ),
            T::elapsed(final(self).bus()@) == T::elapsed(old(self).bus()@) + r.cycles,
            final(device).is_running() == old(device).is_running(),
            !old(device).is_running() ==> r.steps == 0 && r.fault is None,
            old(device).is_running() && r.fault is None ==> r.steps == max_steps,
            r.fault.is_some() ==> execute::<T>(final(self).engine(), final(self).bus()@).is_none()
                && r.fault == Some(
                CpuError::UnknownOpcode {
                    opcode: T::read_view(final(self).bus()@, final(self).engine().pc),
                    address: final(self).engine().pc,
                },
            ),
    {
        let mut steps: u32 = 0;
        let mut cycles: u64 = 0;
        let ghost mut cpus = seq![self.engine()];
        let ghost mut buses = seq![self.bus()@];
        let ghost mut cs: Seq<nat> = Seq::empty();
        while steps < max_steps
            invariant
                steps <= max_steps,
                cycles <= 16 * steps,
                T::elapsed(self.bus()@) == T::elapsed(old(self).bus()@) + cycles,
                chain::<T>(cpus, buses, cs),
                cs.len() == steps,
                cpus[0] == old(self).engine(),
                buses[0] == old(self).bus()@,
                cpus.last() == self.engine(),
                buses.last() == self.bus()@,
                total(cs) == cycles,
                device.is_running() == old(device).is_running(),
                !old(device).is_running() ==> steps == 0,
            decreases max_steps - steps,
        {
            if !device.running() {
                return RunSummary { steps, cycles, fault: None };
            }
            match self.step(device) {
                Ok(c) => {
                    proof {
                        lemma_chain_extend::<T>(cpus, buses, cs, self.engine(), self.bus()@, c as nat);
                        cpus = cpus.push(self.engine());
                        buses = buses.push(self.bus()@);
                        cs = cs.push(c as nat);
                    }
                    steps = steps + 1;
                    cycles = cycles + c as u64;
                },
                Err(e) => {
                    return RunSummary { steps, cycles, fault: Some(e) };
                },
            }
        }
        RunSummary { steps, cycles, fault: None }
    }

    /// Hands over the engine and the bus.
    pub fn get_children(self) -> (r: (Cpu, T))
        ensures
            r.0 == self.engine(),
            r.1 == self.bus(),
    {
        (self.cpu, self.inter)
    }
}

} // verus!
