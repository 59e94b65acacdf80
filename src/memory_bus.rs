use vstd::prelude::*;
use crate::device::Device;
use crate::interconnect::Interconnect;

verus! {

/// What a read returns where nothing is mapped or nothing was written.
pub const FILL: u8 = 0xFF;

/// Writing a non-zero byte here removes the boot-ROM overlay for good.
pub const BOOT_ROM_DISABLE: u16 = 0xFF50;

/// First address past cartridge ROM; from here on the bus holds RAM.
pub const RAM_START: u16 = 0x8000;

/// Bytes of RAM the bus holds, from `RAM_START` to the top of the space.
pub const RAM_SIZE: usize = 0x8000;

/// Cycles in one video frame.
pub const CYCLES_PER_FRAME: u32 = 70224;

/// Width of the video output in pixels.
pub const SCREEN_WIDTH: usize = 160;

/// Height of the video output in pixels.
pub const SCREEN_HEIGHT: usize = 144;

/// The colour of a blank pixel.
pub const BLANK_PIXEL: u32 = 0xFFFF_FFFF;

/// What the flat bus holds.
pub struct BusState {
    pub boot: Seq<u8>,
    pub cart: Seq<u8>,
    pub ram: Seq<u8>,
    pub boot_active: bool,
    pub frame_clock: nat,
    pub elapsed: nat,
    pub frame: Seq<u32>,
}

/// What a read of `address` returns: the boot ROM while its overlay
/// covers the address, then cartridge ROM below `RAM_START`, then RAM;
/// `FILL` where none of them reaches.
pub open spec fn read_state(s: BusState, address: u16) -> u8 {
    if s.boot_active && address < RAM_START && address < s.boot.len() {
        s.boot[address as int]
    } else if address < RAM_START {
        if address < s.cart.len() {
            s.cart[address as int]
        } else {
            FILL
        }
    } else if address - RAM_START < s.ram.len() {
        s.ram[address - RAM_START]
    } else {
        FILL
    }
}

/// Whether a write of `value` to `address` removes the boot-ROM overlay.
pub open spec fn disables_boot_rom(address: u16, value: u8) -> bool {
    address == BOOT_ROM_DISABLE && value != 0
}

/// A write: dropped below `RAM_START`; above it, stored in RAM, and the
/// overlay removed by a disabling write.
pub open spec fn write_state(s: BusState, address: u16, value: u8) -> BusState {
    if address < RAM_START {
        s
    } else {
        BusState {
            ram: if address - RAM_START < s.ram.len() {
                s.ram.update(address - RAM_START, value)
            } else {
                s.ram
            },
            boot_active: s.boot_active && !disables_boot_rom(address, value),
            ..s
        }
    }
}

/// Time passing: the video clock wraps at each frame and the elapsed count
/// grows by exactly `cycles`.
pub open spec fn step_state(s: BusState, cycles: u16) -> BusState {
    BusState {
        frame_clock: if s.frame_clock + cycles >= CYCLES_PER_FRAME {
            (s.frame_clock + cycles - CYCLES_PER_FRAME) as nat
        } else {
            (s.frame_clock + cycles) as nat
        },
        elapsed: (s.elapsed + cycles) as nat,
        ..s
    }
}

/// The frame handed to the device: every pixel blank.
pub open spec fn blank_frame() -> Seq<u32> {
    Seq::new((SCREEN_WIDTH * SCREEN_HEIGHT) as nat, |i: int| BLANK_PIXEL)
}

/// The frame completed while advancing by `cycles`, if one is.
pub open spec fn frame_after(s: BusState, cycles: u16) -> Option<Seq<u32>> {
    if s.frame_clock + cycles >= CYCLES_PER_FRAME {
        Some(s.frame)
    } else {
        None
    }
}

/// The state of a bus made from a boot ROM and a cartridge.
pub open spec fn fresh_bus(boot: Seq<u8>, cart: Seq<u8>) -> BusState {
    BusState {
        boot,
        cart,
        ram: Seq::new(RAM_SIZE as nat, |i: int| FILL),
        boot_active: true,
        frame_clock: 0,
        elapsed: 0,
        frame: blank_frame(),
    }
}

/// The frame the video hands over: always the blank one.
struct BlankFrame {
    pixels: Vec<u32>,
}

impl BlankFrame {
    #[verifier::type_invariant]
    spec fn inv(&self) -> bool {
        self.pixels@ == blank_frame()
    }
}

/// A bus over flat memory: the boot-ROM overlay, cartridge ROM below
/// `RAM_START` (writes there are dropped), RAM above it, and a video clock
/// that hands a blank frame to the device once per frame.
pub struct MemoryBus {
    boot: Vec<u8>,
    cart: Vec<u8>,
    ram: Vec<u8>,
    boot_active: bool,
    frame_clock: u32,
    elapsed: Ghost<nat>,
    frame: BlankFrame,
}

impl View for MemoryBus {
    type V = BusState;

    closed spec fn view(&self) -> BusState {
        BusState {
            boot: self.boot@,
            cart: self.cart@,
            ram: self.ram@,
            boot_active: self.boot_active,
            frame_clock: self.frame_clock as nat,
            elapsed: self.elapsed@,
            frame: self.frame.pixels@,
        }
    }
}

impl MemoryBus {
    /// A bus with the boot-ROM overlay active, RAM filled with `FILL`, and
    /// no cycles elapsed.
    pub fn new(boot_rom: Vec<u8>, cartridge: Vec<u8>) -> (r: MemoryBus)
        ensures
            r@ == fresh_bus(boot_rom@, cartridge@),
    {
        let pixels = vec![BLANK_PIXEL; SCREEN_WIDTH * SCREEN_HEIGHT];
        assert(pixels@ =~= blank_frame());
        let r = MemoryBus {
            boot: boot_rom,
            cart: cartridge,
            ram: vec![FILL; RAM_SIZE],
            boot_active: true,
            frame_clock: 0,
            elapsed: Ghost(0),
            frame: BlankFrame { pixels },
        };
        assert(r@.ram =~= Seq::new(RAM_SIZE as nat, |i: int| FILL));
        r
    }

    /// Whether the boot-ROM overlay still answers reads.
    pub fn boot_rom_active(&self) -> (r: bool)
        ensures
            r == self@.boot_active,
    {
        self.boot_active
    }
}

impl Interconnect for MemoryBus {
    open spec fn read_view(s: BusState, address: u16) -> u8 {
        read_state(s, address)
    }

    open spec fn write_view(s: BusState, address: u16, value: u8) -> BusState {
        write_state(s, address, value)
    }

    open spec fn elapsed(s: BusState) -> nat {
        s.elapsed
    }

    open spec fn step_view(s: BusState, cycles: u16) -> BusState {
        step_state(s, cycles)
    }

    open spec fn frame_due(s: BusState, cycles: u16) -> Option<Seq<u32>> {
        frame_after(s, cycles)
    }

    open spec fn width_of(s: BusState) -> nat {
        SCREEN_WIDTH as nat
    }

    open spec fn height_of(s: BusState) -> nat {
        SCREEN_HEIGHT as nat
    }

    proof fn lemma_stepped_elapsed(s: BusState, cycles: u16) {
    }

    proof fn lemma_write_elapsed(s: BusState, address: u16, value: u8) {
    }

    fn read_byte(&self, address: u16) -> (r: u8) {
        if self.boot_active && address < RAM_START && (address as usize) < self.boot.len() {
            self.boot[address as usize]
        } else if address < RAM_START {
            if (address as usize) < self.cart.len() {
                self.cart[address as usize]
            } else {
                FILL
            }
        } else if ((address - RAM_START) as usize) < self.ram.len() {
            self.ram[(address - RAM_START) as usize]
        } else {
            FILL
        }
    }

    fn write_byte(&mut self, address: u16, value: u8) {
        if address >= RAM_START {
            let i = (address - RAM_START) as usize;
            if i < self.ram.len() {
                self.ram.set(i, value);
            }
            if address == BOOT_ROM_DISABLE && value != 0 {
                self.boot_active = false;
            }
        }
    }

    fn step<D: Device>(&mut self, cycles: u16, device: &mut D) {
        proof {
            use_type_invariant(&self.frame);
        }
        let total: u64 = self.frame_clock as u64 + cycles as u64;
        if total >= CYCLES_PER_FRAME as u64 {
            self.frame_clock = (total - CYCLES_PER_FRAME as u64) as u32;
            device.set_frame_buffer(self.frame.pixels.as_slice());
            device.update();
        } else {
            self.frame_clock = total as u32;
        }
        self.elapsed = Ghost(self.elapsed@ + cycles as nat);
    }

    fn get_width(&self) -> usize {
        SCREEN_WIDTH
    }

    fn get_height(&self) -> usize {
        SCREEN_HEIGHT
    }
}

} // verus!
