use vstd::prelude::*;

verus! {

/// The host keys a device is polled for. They stand for the pad's
/// Up, Down, Left, Right, A (Z), B (X), Start (Enter) and Select (Backspace).
#[derive(Clone, Copy, Debug, PartialEq, Eq, Structural)]
pub enum Key {
    Up,
    Down,
    Left,
    Right,
    Backspace,
    Enter,
    Z,
    X,
}

/// Position of a key in a table of the eight keys.
pub open spec fn key_slot(key: Key) -> int {
    match key {
        Key::Up => 0,
        Key::Down => 1,
        Key::Left => 2,
        Key::Right => 3,
        Key::Backspace => 4,
        Key::Enter => 5,
        Key::Z => 6,
        Key::X => 7,
    }
}

fn slot_of(key: Key) -> (r: usize)
    ensures
        r as int == key_slot(key),
        r < 8,
{
    match key {
        Key::Up => 0,
        Key::Down => 1,
        Key::Left => 2,
        Key::Right => 3,
        Key::Backspace => 4,
        Key::Enter => 5,
        Key::Z => 6,
        Key::X => 7,
    }
}

/// The host side of the machine: it shows frames, reports keys and says
/// whether the session is still live.
pub trait Device {
    /// Whether the host still wants the machine to run.
    spec fn is_running(&self) -> bool;

    /// The frame stored since the last update, if one was.
    spec fn pending_frame(&self) -> Option<Seq<u32>>;

    /// The frame on show.
    spec fn displayed(&self) -> Seq<u32>;

    /// Whether the key is held down.
    spec fn key_held(&self, key: Key) -> bool;

    /// Shows the frame stored since the last update; with none stored, the
    /// frame on show stays.
    fn update(&mut self)
        ensures
            final(self).displayed() == (match old(self).pending_frame() {
                Some(f) => f,
                None => old(self).displayed(),
            }),
            final(self).pending_frame() is None,
            final(self).is_running() == old(self).is_running(),
            forall|k: Key| #[trigger] final(self).key_held(k) == old(self).key_held(k),
    ;

    /// Stores a complete frame, replacing one that was not shown yet.
    fn set_frame_buffer(&mut self, buffer: &[u32])
        ensures
            final(self).pending_frame() == Some(buffer@),
            final(self).displayed() == old(self).displayed(),
            final(self).is_running() == old(self).is_running(),
            forall|k: Key| #[trigger] final(self).key_held(k) == old(self).key_held(k),
    ;

    /// Whether the key is held down now.
    fn key_down(&self, key: Key) -> (r: bool)
        ensures
            r == self.key_held(key),
    ;

    /// The liveness signal polled before each step of a run.
    fn running(&self) -> (r: bool)
        ensures
            r == self.is_running(),
    ;
}

/// What a headless device holds: the frame stored and not yet shown, the
/// frame on show, how many frames were shown, the keys held and whether the
/// session is open.
pub struct ScreenState {
    pub pending: Seq<u32>,
    pub shown: Seq<u32>,
    pub buffer_set: bool,
    pub frames_shown: nat,
    pub pressed: Seq<bool>,
    pub open: bool,
}

/// The state after a frame is stored: it replaces any frame not yet shown.
pub open spec fn frame_stored(s: ScreenState, buffer: Seq<u32>) -> ScreenState {
    ScreenState { pending: buffer, buffer_set: true, ..s }
}

/// The state after an update: a stored frame goes on show; with none
/// stored, nothing changes.
pub open spec fn flushed(s: ScreenState) -> ScreenState {
    if s.buffer_set {
        ScreenState {
            shown: s.pending,
            buffer_set: false,
            frames_shown: if s.frames_shown < u64::MAX {
                s.frames_shown + 1
            } else {
                s.frames_shown
            },
            ..s
        }
    } else {
        s
    }
}

/// Storing two frames before an update shows only the second: frames
/// overwrite each other and are never queued.
pub proof fn lemma_second_frame_wins(s: ScreenState, first: Seq<u32>, second: Seq<u32>)
    ensures
        flushed(frame_stored(frame_stored(s, first), second)).shown == second,
        flushed(frame_stored(frame_stored(s, first), second)) == flushed(frame_stored(s, second)),
        !flushed(frame_stored(frame_stored(s, first), second)).buffer_set,
{
}

/// An update with no frame stored since the last one leaves the state as it is.
pub proof fn lemma_update_without_frame(s: ScreenState)
    requires
        !s.buffer_set,
    ensures
        flushed(s) == s,
        flushed(flushed(s)) == flushed(s),
{
}

/// A device without a window: it keeps the last stored and the last shown
/// frame, the keys set by its owner, and an open flag its owner clears.
pub struct HeadlessDevice {
    pending: Vec<u32>,
    shown: Vec<u32>,
    buffer_set: bool,
    frames_shown: u64,
    pressed: Vec<bool>,
    open: bool,
}

impl View for HeadlessDevice {
    type V = ScreenState;

    closed spec fn view(&self) -> ScreenState {
        ScreenState {
            pending: self.pending@,
            shown: self.shown@,
            buffer_set: self.buffer_set,
            frames_shown: self.frames_shown as nat,
            pressed: self.pressed@,
            open: self.open,
        }
    }
}

impl HeadlessDevice {
    /// A device that is open, holds no frame, shows an empty frame and has
    /// no key down.
    pub fn new() -> (r: HeadlessDevice)
        ensures
            r@.open,
            !r@.buffer_set,
            r@.pending.len() == 0,
            r@.shown.len() == 0,
            r@.frames_shown == 0,
            r@.pressed == Seq::new(8, |i: int| false),
    {
        let r = HeadlessDevice {
            pending: Vec::new(),
            shown: Vec::new(),
            buffer_set: false,
            frames_shown: 0,
            pressed: vec![false; 8],
            open: true,
        };
        assert(r@.pressed =~= Seq::new(8, |i: int| false));
        r
    }

    /// Marks the session as over: `running` answers false from now on.
    pub fn close(&mut self)
        ensures
            final(self)@ == (ScreenState { open: false, ..old(self)@ }),
    {
        self.open = false;
    }

    /// Sets whether a key is held down.
    pub fn set_key(&mut self, key: Key, down: bool)
        ensures
            key_slot(key) < old(self)@.pressed.len() ==> final(self)@ == (ScreenState {
                pressed: old(self)@.pressed.update(key_slot(key), down),
                ..old(self)@
            }),
            key_slot(key) >= old(self)@.pressed.len() ==> final(self)@ == old(self)@,
    {
        let i = slot_of(key);
        if i < self.pressed.len() {
            self.pressed.set(i, down);
        }
    }

    /// The frame shown by the last update that had a frame to show.
    pub fn shown(&self) -> (r: &Vec<u32>)
        ensures
            r@ == self@.shown,
    {
        &self.shown
    }

    /// How many updates have shown a new frame, saturating at the largest `u64`.
    pub fn frames_shown(&self) -> (r: u64)
        ensures
            r as nat == self@.frames_shown,
    {
        self.frames_shown
    }
}

impl Device for HeadlessDevice {
    open spec fn is_running(&self) -> bool {
        self@.open
    }

    open spec fn pending_frame(&self) -> Option<Seq<u32>> {
        if self@.buffer_set {
            Some(self@.pending)
        } else {
            None
        }
    }

    open spec fn displayed(&self) -> Seq<u32> {
        self@.shown
    }

    open spec fn key_held(&self, key: Key) -> bool {
        key_slot(key) < self@.pressed.len() && self@.pressed[key_slot(key)]
    }

    fn update(&mut self)
        ensures
            final(self)@ == flushed(old(self)@),
    {
        if self.buffer_set {
            self.shown = self.pending.clone();
            self.buffer_set = false;
            self.frames_shown = self.frames_shown.saturating_add(1);
        }
    }

    fn set_frame_buffer(&mut self, buffer: &[u32])
        ensures
            final(self)@ == frame_stored(old(self)@, buffer@),
    {
        let mut copy: Vec<u32> = Vec::new();
        let mut i: usize = 0;
        while i < buffer.len()
            invariant
                i <= buffer@.len(),
                copy@ == buffer@.subrange(0, i as int),
            decreases buffer@.len() - i,
        {
            copy.push(buffer[i]);
            i = i + 1;
        }
        assert(copy@ =~= buffer@);
        self.pending = copy;
        self.buffer_set = true;
    }

    fn key_down(&self, key: Key) -> (r: bool) {
        let i = slot_of(key);
        if i < self.pressed.len() {
            self.pressed[i]
        } else {
            false
        }
    }

    fn running(&self) -> (r: bool) {
        proof {
            assert(self@.open == self.open);
        }
        self.open
    }
}

} // verus!
