use vstd::prelude::*;
use crate::device::{Device, Key};

verus! {

/// The address space the execution engine reads and writes, and the
/// peripherals that advance with time. Reads and writes never fail.
pub trait Interconnect: View + Sized {
    /// The byte a read of `address` returns in state `s`.
    spec fn read_view(s: Self::V, address: u16) -> u8;

    /// The state after a write of `value` to `address`.
    spec fn write_view(s: Self::V, address: u16, value: u8) -> Self::V;

    /// The cycles the peripherals have been advanced by so far.
    spec fn elapsed(s: Self::V) -> nat;

    /// The state after the peripherals advance by `cycles` from `s`.
    spec fn step_view(s: Self::V, cycles: u16) -> Self::V;

    /// The frame the video completes while advancing by `cycles` from `s`,
    /// if it completes one.
    spec fn frame_due(s: Self::V, cycles: u16) -> Option<Seq<u32>>;

    /// Width of the video output in pixels.
    spec fn width_of(s: Self::V) -> nat;

    /// Height of the video output in pixels.
    spec fn height_of(s: Self::V) -> nat;

    /// Advancing the peripherals adds exactly the cycles advanced by.
    proof fn lemma_stepped_elapsed(s: Self::V, cycles: u16)
        ensures
            Self::elapsed(Self::step_view(s, cycles)) == Self::elapsed(s) + cycles,
    ;

    /// A write takes no time.
    proof fn lemma_write_elapsed(s: Self::V, address: u16, value: u8)
        ensures
            Self::elapsed(Self::write_view(s, address, value)) == Self::elapsed(s),
    ;

    /// The byte at `address`; never fails.
    fn read_byte(&self, address: u16) -> (r: u8)
        ensures
            r == Self::read_view(self@, address),
    ;

    /// Writes `value` to `address`; a write the bus has no place for is
    /// dropped, never refused.
    fn write_byte(&mut self, address: u16, value: u8)
        ensures
            final(self)@ == Self::write_view(old(self)@, address, value),
            Self::elapsed(final(self)@) == Self::elapsed(old(self)@),
    ;

    /// Advances every peripheral by exactly `cycles`, handing finished
    /// frames to the device.
    /// A completed frame, of width times height pixels in rows from the top,
    /// is stored on the device and shown; with none completed, the device is
    /// left alone.
    fn step<D: Device>(&mut self, cycles: u16, device: &mut D)
        ensures
            final(self)@ == Self::step_view(old(self)@, cycles),
            Self::elapsed(final(self)@) == Self::elapsed(old(self)@) + cycles,
            match Self::frame_due(old(self)@, cycles) {
                Some(f) => f.len() == Self::width_of(old(self)@) * Self::height_of(old(self)@)
                    && final(device).displayed() == f && final(device).pending_frame() is None,
                None => *final(device) == *old(device),
            },
            final(device).is_running() == old(device).is_running(),
            forall|k: Key| #[trigger] final(device).key_held(k) == old(device).key_held(k),
    ;

    /// Width of the video output in pixels.
    fn get_width(&self) -> (r: usize)
        ensures
            r == Self::width_of(self@),
    ;

    /// Height of the video output in pixels.
    fn get_height(&self) -> (r: usize)
        ensures
            r == Self::height_of(self@),
    ;
}

} // verus!
