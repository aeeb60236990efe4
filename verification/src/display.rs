//! Panel protocol driver: a pure state machine over the vendor command
//! protocol of the 800 x 480 seven-color panel. Every public operation
//! returns the exact sequence of bus operations that the hardware link must
//! perform; an unverified executor carries them out on the wires.

use vstd::prelude::*;

verus! {

/// Native panel width in pixels.
pub const WIDTH: u32 = 800;

/// Native panel height in pixels.
pub const HEIGHT: u32 = 480;

/// Native packed frame size in bytes: two 4-bit palette indices per byte.
pub const BUFFER_SIZE: usize = 192000;

/// The seven palette colors, in palette order; a color's palette index is
/// given by `index`.
#[derive(Debug, Clone, Copy, PartialEq, Eq, Structural)]
pub enum Color {
    Black,
    White,
    Yellow,
    Red,
    Orange,
    Blue,
    Green,
}

/// Palette index of a color.
pub open spec fn spec_color_index(c: Color) -> int {
    match c {
        Color::Black => 0,
        Color::White => 1,
        Color::Yellow => 2,
        Color::Red => 3,
        Color::Orange => 4,
        Color::Blue => 5,
        Color::Green => 6,
    }
}

impl Color {
    /// The color's 4-bit palette index.
    pub fn index(self) -> (i: u8)
        ensures
            i == spec_color_index(self),
            i < 7,
    {
        match self {
            Color::Black => 0,
            Color::White => 1,
            Color::Yellow => 2,
            Color::Red => 3,
            Color::Orange => 4,
            Color::Blue => 5,
            Color::Green => 6,
        }
    }
}

/// Driver errors.
#[derive(Debug, Clone, Copy, PartialEq, Eq, Structural)]
pub enum DisplayError {
    /// An operation that needs an initialized panel was asked of an
    /// uninitialized one.
    NotInitialized,
    /// The frame buffer handed to `display` does not have the panel's
    /// exact native size.
    InvalidBufferSize { expected: usize, actual: usize },
}

/// One operation on the hardware link. The driver computes the exact
/// sequence of these; an executor outside the verified core performs them
/// on the wires, in order, stopping at the first failure.
#[derive(Debug, Clone)]
pub enum BusOp {
    /// Raise the panel's power-enable line.
    PowerOn,
    /// Drop the panel's power-enable line.
    PowerOff,
    /// Pulse the reset line.
    Reset,
    /// Poll the busy-sense line until the panel reports ready.
    WaitBusy,
    /// Pause for the given number of milliseconds.
    DelayMs(u64),
    /// Send one command byte.
    Command(u8),
    /// Send one command byte followed by its payload bytes.
    CommandData(u8, Vec<u8>),
    /// Send plain data bytes.
    Data(Vec<u8>),
}

/// The mathematical shape of a bus operation.
#[verifier::ext_equal]
pub enum SOp {
    PowerOn,
    PowerOff,
    Reset,
    WaitBusy,
    DelayMs(u64),
    Command(u8),
    CommandData(u8, Seq<u8>),
    Data(Seq<u8>),
}

impl View for BusOp {
    type V = SOp;

    open spec fn view(&self) -> SOp {
        match self {
            BusOp::PowerOn => SOp::PowerOn,
            BusOp::PowerOff => SOp::PowerOff,
            BusOp::Reset => SOp::Reset,
            BusOp::WaitBusy => SOp::WaitBusy,
            BusOp::DelayMs(ms) => SOp::DelayMs(*ms),
            BusOp::Command(c) => SOp::Command(*c),
            BusOp::CommandData(c, d) => SOp::CommandData(*c, d@),
            BusOp::Data(d) => SOp::Data(d@),
        }
    }
}

impl DeepView for BusOp {
    type V = SOp;

    open spec fn deep_view(&self) -> SOp {
        self.view()
    }
}

/// The vendor-defined initialization sequence: power, reset, ready-wait, a
/// settle delay, the command table configuring voltage, booster timing,
/// the native resolution and power saving, then power-on and ready-wait.
pub open spec fn spec_init_ops() -> Seq<SOp> {
    seq![
        SOp::PowerOn,
        SOp::Reset,
        SOp::WaitBusy,
        SOp::DelayMs(30),
        SOp::CommandData(0xAA, seq![0x49u8, 0x55, 0x20, 0x08, 0x09, 0x18]),
        SOp::CommandData(0x01, seq![0x3Fu8]),
        SOp::CommandData(0x00, seq![0x5Fu8, 0x69]),
        SOp::CommandData(0x03, seq![0x00u8, 0x54, 0x00, 0x44]),
        SOp::CommandData(0x05, seq![0x40u8, 0x1F, 0x1F, 0x2C]),
        SOp::CommandData(0x06, seq![0x6Fu8, 0x1F, 0x17, 0x49]),
        SOp::CommandData(0x08, seq![0x6Fu8, 0x1F, 0x1F, 0x22]),
        SOp::CommandData(0x30, seq![0x03u8]),
        SOp::CommandData(0x50, seq![0x3Fu8]),
        SOp::CommandData(0x60, seq![0x02u8, 0x00]),
        SOp::CommandData(0x61, seq![0x03u8, 0x20, 0x01, 0xE0]),
        SOp::CommandData(0x84, seq![0x01u8]),
        SOp::CommandData(0xE3, seq![0x2Fu8]),
        SOp::Command(0x04),
        SOp::WaitBusy,
    ]
}

/// The refresh sub-sequence: power-on and ready-wait, the refresh command
/// and the long ready-wait of the visible refresh, then power-off and a
/// final ready-wait.
pub open spec fn spec_refresh_ops() -> Seq<SOp> {
    seq![
        SOp::Command(0x04),
        SOp::WaitBusy,
        SOp::CommandData(0x12, seq![0x00u8]),
        SOp::WaitBusy,
        SOp::CommandData(0x02, seq![0x00u8]),
        SOp::WaitBusy,
    ]
}

/// A frame transfer: the data-start command, the packed frame itself,
/// then the refresh sub-sequence.
pub open spec fn spec_display_ops(buffer: Seq<u8>) -> Seq<SOp> {
    seq![SOp::Command(0x10), SOp::Data(buffer)] + spec_refresh_ops()
}

/// The deep-sleep sequence: power-off command, ready-wait, the deep-sleep
/// command with its magic byte, then power cut.
pub open spec fn spec_sleep_ops() -> Seq<SOp> {
    seq![
        SOp::Command(0x02),
        SOp::WaitBusy,
        SOp::CommandData(0x07, seq![0xA5u8]),
        SOp::PowerOff,
    ]
}

/// A full frame of one color: every byte carries the color's 4-bit index
/// in both nibbles.
pub open spec fn spec_solid_buffer(color: Color) -> Seq<u8> {
    Seq::new(BUFFER_SIZE as nat, |i: int| (17 * spec_color_index(color)) as u8)
}

/// Palette index of the test-pattern stripe at panel row `y`: the height
/// split into seven bands of 68 rows, the last band absorbing the rest.
pub open spec fn spec_stripe_color(y: int) -> int {
    if y / 68 < 6 {
        y / 68
    } else {
        6
    }
}

/// The test-pattern frame: horizontal stripes cycling through the seven
/// palette colors, packed two pixels per byte (400 bytes per row).
pub open spec fn spec_test_pattern_buffer() -> Seq<u8> {
    Seq::new(BUFFER_SIZE as nat, |i: int| (17 * spec_stripe_color(i / 400)) as u8)
}

/// The panel's native packed frame size is exactly what the dither stage
/// produces for the native geometry: two pixels per byte of 800 x 480.
pub proof fn lemma_native_buffer_size()
    ensures
        crate::dither::spec_buffer_size(WIDTH as int, HEIGHT as int) == BUFFER_SIZE,
{
}

/// Build a full-size frame of one repeated packed byte.
pub fn solid_buffer(color: Color) -> (b: Vec<u8>)
    ensures
        b@ == spec_solid_buffer(color),
        b@.len() == BUFFER_SIZE,
{
    let packed: u8 = color.index() * 17;
    let mut b: Vec<u8> = Vec::new();
    while b.len() < BUFFER_SIZE
        invariant
            b@.len() <= BUFFER_SIZE,
            packed == 17 * spec_color_index(color),
            forall|i: int| 0 <= i < b@.len() ==> b@[i] == packed,
        decreases BUFFER_SIZE - b.len(),
    {
        b.push(packed);
    }
    proof {
        assert(b@ =~= spec_solid_buffer(color));
    }
    b
}

/// Build the test-pattern frame of seven horizontal color stripes.
pub fn test_pattern_buffer() -> (b: Vec<u8>)
    ensures
        b@ == spec_test_pattern_buffer(),
        b@.len() == BUFFER_SIZE,
{
    let mut b: Vec<u8> = Vec::new();
    while b.len() < BUFFER_SIZE
        invariant
            b@.len() <= BUFFER_SIZE,
            forall|i: int| 0 <= i < b@.len() ==> b@[i] == (17 * spec_stripe_color(i / 400)) as u8,
        decreases BUFFER_SIZE - b.len(),
    {
        let i = b.len();
        let y = i / 400;
        let stripe = y / 68;
        let c: u8 = if stripe < 6 {
            stripe as u8
        } else {
            6
        };
        b.push(c * 17);
    }
    proof {
        assert(b@ =~= spec_test_pattern_buffer());
    }
    b
}

/// The panel driver: what the protocol allows next depends only on
/// whether the panel has been initialized. Each method yields the bus
/// operations that carry it out, already in their required order; the
/// executor that owns the wires runs them and calls `mark_uninitialized`
/// if a run fails partway, so the next use re-initializes.
pub struct Epd7in3e {
    /// Whether the panel has completed its initialization sequence.
    pub initialized: bool,
}

impl Epd7in3e {
    /// A driver for a panel in its power-on (uninitialized) state.
    pub fn new() -> (d: Self)
        ensures
            !d.initialized,
    {
        Epd7in3e { initialized: false }
    }

    /// Whether the panel is initialized.
    pub fn is_initialized(&self) -> (b: bool)
        ensures
            b == self.initialized,
    {
        self.initialized
    }

    /// Initialize the display hardware: the fixed vendor sequence.
    pub fn init(&mut self) -> (ops: Vec<BusOp>)
        ensures
            final(self).initialized,
            ops.deep_view() == spec_init_ops(),
    {
        self.initialized = true;
        init_op_list()
    }

    /// Plan a frame transfer. A driver that is not initialized, or a
    /// buffer whose length is not the panel's exact native size, is
    /// rejected with no bus operation at all.
    pub fn display(&mut self, buffer: &[u8]) -> (r: Result<Vec<BusOp>, DisplayError>)
        ensures
            *final(self) == *old(self),
            !old(self).initialized <==> r matches Err(DisplayError::NotInitialized),
            old(self).initialized && buffer@.len() != BUFFER_SIZE <==> (r matches Err(
                DisplayError::InvalidBufferSize { expected, actual },
            ) && expected == BUFFER_SIZE && actual == buffer@.len()),
            old(self).initialized && buffer@.len() == BUFFER_SIZE <==> (r matches Ok(ops)
                && ops.deep_view() == spec_display_ops(buffer@)),
    {
        if !self.initialized {
            return Err(DisplayError::NotInitialized);
        }
        if buffer.len() != BUFFER_SIZE {
            return Err(
                DisplayError::InvalidBufferSize { expected: BUFFER_SIZE, actual: buffer.len() },
            );
        }
        let mut ops: Vec<BusOp> = Vec::new();
        push_op(&mut ops, BusOp::Command(0x10));
        push_op(&mut ops, BusOp::Data(vstd::slice::slice_to_vec(buffer)));
        push_refresh_ops(&mut ops);
        proof {
            assert(ops.deep_view() =~~= spec_display_ops(buffer@));
        }
        Ok(ops)
    }

    /// Clear the display to a single color, initializing the panel first
    /// when needed.
    pub fn clear(&mut self, color: Color) -> (ops: Vec<BusOp>)
        ensures
            final(self).initialized,
            ops.deep_view() == (if old(self).initialized {
                Seq::<SOp>::empty()
            } else {
                spec_init_ops()
            }) + spec_display_ops(spec_solid_buffer(color)),
    {
        let mut ops: Vec<BusOp> = if self.is_initialized() {
            Vec::new()
        } else {
            self.init()
        };
        let buffer = solid_buffer(color);
        let mut dops = match self.display(buffer.as_slice()) {
            Ok(d) => d,
            Err(_) => {
                proof {
                    assert(false);
                }
                Vec::new()
            },
        };
        ops.append(&mut dops);
        ops
    }

    /// Show the seven-stripe test pattern, initializing the panel first
    /// when needed.
    pub fn test_pattern(&mut self) -> (ops: Vec<BusOp>)
        ensures
            final(self).initialized,
            ops.deep_view() == (if old(self).initialized {
                Seq::<SOp>::empty()
            } else {
                spec_init_ops()
            }) + spec_display_ops(spec_test_pattern_buffer()),
    {
        let mut ops: Vec<BusOp> = if self.is_initialized() {
            Vec::new()
        } else {
            self.init()
        };
        let buffer = test_pattern_buffer();
        let mut dops = match self.display(buffer.as_slice()) {
            Ok(d) => d,
            Err(_) => {
                proof {
                    assert(false);
                }
                Vec::new()
            },
        };
        ops.append(&mut dops);
        ops
    }

    /// Put the panel into deep sleep and cut its power; the panel must be
    /// re-initialized before its next use.
    pub fn sleep(&mut self) -> (ops: Vec<BusOp>)
        ensures
            !final(self).initialized,
            ops.deep_view() == spec_sleep_ops(),
    {
        self.initialized = false;
        let mut ops: Vec<BusOp> = Vec::new();
        push_op(&mut ops, BusOp::Command(0x02));
        push_op(&mut ops, BusOp::WaitBusy);
        let mut payload: Vec<u8> = Vec::new();
        payload.push(0xA5);
        push_op(&mut ops, BusOp::CommandData(0x07, payload));
        push_op(&mut ops, BusOp::PowerOff);
        proof {
            assert(ops.deep_view() =~~= spec_sleep_ops());
        }
        ops
    }

    /// Wake the panel: nothing to do when it is initialized, the full
    /// initialization sequence otherwise.
    pub fn wake(&mut self) -> (ops: Vec<BusOp>)
        ensures
            final(self).initialized,
            ops.deep_view() == if old(self).initialized {
                Seq::<SOp>::empty()
            } else {
                spec_init_ops()
            },
    {
        if self.is_initialized() {
            let ops: Vec<BusOp> = Vec::new();
            proof {
                assert(ops.deep_view() =~= Seq::<SOp>::empty());
            }
            ops
        } else {
            self.init()
        }
    }

    /// Note that a run of bus operations failed partway: the panel's
    /// state on the wires is unknown, so it counts as uninitialized and
    /// the next use re-initializes it.
    pub fn mark_uninitialized(&mut self)
        ensures
            !final(self).initialized,
    {
        self.initialized = false;
    }
}

/// The initialization sequence as a concrete operation list.
fn init_op_list() -> (ops: Vec<BusOp>)
    ensures
        ops.deep_view() == spec_init_ops(),
{
    let mut ops: Vec<BusOp> = Vec::new();
    push_op(&mut ops, BusOp::PowerOn);
    push_op(&mut ops, BusOp::Reset);
    push_op(&mut ops, BusOp::WaitBusy);
    push_op(&mut ops, BusOp::DelayMs(30));
    push_command_data_8(&mut ops, 0xAA, 0x49, 0x55, 0x20, 0x08, 0x09, 0x18, 6);
    push_command_data_8(&mut ops, 0x01, 0x3F, 0, 0, 0, 0, 0, 1);
    push_command_data_8(&mut ops, 0x00, 0x5F, 0x69, 0, 0, 0, 0, 2);
    push_command_data_8(&mut ops, 0x03, 0x00, 0x54, 0x00, 0x44, 0, 0, 4);
    push_command_data_8(&mut ops, 0x05, 0x40, 0x1F, 0x1F, 0x2C, 0, 0, 4);
    push_command_data_8(&mut ops, 0x06, 0x6F, 0x1F, 0x17, 0x49, 0, 0, 4);
    push_command_data_8(&mut ops, 0x08, 0x6F, 0x1F, 0x1F, 0x22, 0, 0, 4);
    push_command_data_8(&mut ops, 0x30, 0x03, 0, 0, 0, 0, 0, 1);
    push_command_data_8(&mut ops, 0x50, 0x3F, 0, 0, 0, 0, 0, 1);
    push_command_data_8(&mut ops, 0x60, 0x02, 0x00, 0, 0, 0, 0, 2);
    push_command_data_8(&mut ops, 0x61, 0x03, 0x20, 0x01, 0xE0, 0, 0, 4);
    push_command_data_8(&mut ops, 0x84, 0x01, 0, 0, 0, 0, 0, 1);
    push_command_data_8(&mut ops, 0xE3, 0x2F, 0, 0, 0, 0, 0, 1);
    push_op(&mut ops, BusOp::Command(0x04));
    push_op(&mut ops, BusOp::WaitBusy);
    proof {
        assert(ops.deep_view() =~~= spec_init_ops());
    }
    ops
}

/// Append one operation, tracked at the level of operation shapes.
fn push_op(ops: &mut Vec<BusOp>, op: BusOp)
    ensures
        final(ops).deep_view() == old(ops).deep_view().push(op.deep_view()),
{
    let ghost o: SOp = op.deep_view();
    ops.push(op);
    proof {
        assert(ops.deep_view() =~= old(ops).deep_view().push(o));
    }
}

/// Append a command with its first `n` payload bytes (at most six).
fn push_command_data_8(
    ops: &mut Vec<BusOp>,
    cmd: u8,
    d0: u8,
    d1: u8,
    d2: u8,
    d3: u8,
    d4: u8,
    d5: u8,
    n: usize,
)
    requires
        1 <= n <= 6,
    ensures
        final(ops)@.len() == old(ops)@.len() + 1,
        final(ops).deep_view() == old(ops).deep_view().push(
            SOp::CommandData(cmd, seq![d0, d1, d2, d3, d4, d5].take(n as int)),
        ),
{
    let mut payload: Vec<u8> = Vec::new();
    payload.push(d0);
    if n >= 2 {
        payload.push(d1);
    }
    if n >= 3 {
        payload.push(d2);
    }
    if n >= 4 {
        payload.push(d3);
    }
    if n >= 5 {
        payload.push(d4);
    }
    if n >= 6 {
        payload.push(d5);
    }
    proof {
        assert(payload@ =~= seq![d0, d1, d2, d3, d4, d5].take(n as int));
    }
    push_op(ops, BusOp::CommandData(cmd, payload));
    proof {
        assert(ops.deep_view() =~~= old(ops).deep_view().push(
            SOp::CommandData(cmd, seq![d0, d1, d2, d3, d4, d5].take(n as int)),
        ));
    }
}

/// Append the refresh sub-sequence.
fn push_refresh_ops(ops: &mut Vec<BusOp>)
    ensures
        final(ops).deep_view() == old(ops).deep_view() + spec_refresh_ops(),
{
    push_op(ops, BusOp::Command(0x04));
    push_op(ops, BusOp::WaitBusy);
    let mut p1: Vec<u8> = Vec::new();
    p1.push(0x00);
    push_op(ops, BusOp::CommandData(0x12, p1));
    push_op(ops, BusOp::WaitBusy);
    let mut p2: Vec<u8> = Vec::new();
    p2.push(0x00);
    push_op(ops, BusOp::CommandData(0x02, p2));
    push_op(ops, BusOp::WaitBusy);
    proof {
        assert(ops.deep_view() =~~= old(ops).deep_view() + spec_refresh_ops());
    }
}

} // verus!
