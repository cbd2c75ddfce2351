//! Reading the buttons of a gamepad from the buffer that the pad driver
//! fills.

use vstd::prelude::*;

verus! {

/// The length in bytes of a pad buffer.
pub const BUFFER_SIZE: usize = 0x22;

/// A buffer that the pad driver fills with the state of one pad.
pub type Buffer = [u8; BUFFER_SIZE];

/// The buttons of a gamepad, in the order of their bits in the pad state.
#[derive(Debug, Clone, Copy, PartialEq, Eq, Structural)]
pub enum Button {
    Select,
    L3,
    R3,
    Start,
    Up,
    Right,
    Down,
    Left,
    L2,
    R2,
    L1,
    R1,
    Triangle,
    Circle,
    Cross,
    Square,
}

/// Why a gamepad could not be set up.
#[derive(Debug, Clone, Copy, PartialEq, Eq, Structural)]
pub enum Error {
    /// The pad driver serves another pair of buffers already.
    AlreadyInitialized,
}

impl Button {
    /// The bit of the button in the pad state.
    pub open spec fn bit(self) -> u16 {
        match self {
            Button::Select => 0x0001u16,
            Button::L3 => 0x0002u16,
            Button::R3 => 0x0004u16,
            Button::Start => 0x0008u16,
            Button::Up => 0x0010u16,
            Button::Right => 0x0020u16,
            Button::Down => 0x0040u16,
            Button::Left => 0x0080u16,
            Button::L2 => 0x0100u16,
            Button::R2 => 0x0200u16,
            Button::L1 => 0x0400u16,
            Button::R1 => 0x0800u16,
            Button::Triangle => 0x1000u16,
            Button::Circle => 0x2000u16,
            Button::Cross => 0x4000u16,
            Button::Square => 0x8000u16,
        }
    }

    /// The bit of the button as a mask.
    pub fn mask(self) -> (r: u16)
        ensures
            r == self.bit(),
    {
        match self {
            Button::Select => 0x0001,
            Button::L3 => 0x0002,
            Button::R3 => 0x0004,
            Button::Start => 0x0008,
            Button::Up => 0x0010,
            Button::Right => 0x0020,
            Button::Down => 0x0040,
            Button::Left => 0x0080,
            Button::L2 => 0x0100,
            Button::R2 => 0x0200,
            Button::L1 => 0x0400,
            Button::R1 => 0x0800,
            Button::Triangle => 0x1000,
            Button::Circle => 0x2000,
            Button::Cross => 0x4000,
            Button::Square => 0x8000,
        }
    }
}

/// The pad state that `buffer` holds: the 16 bits at bytes 2 and 3, low byte
/// first. A button that is held down has its bit clear.
pub open spec fn pad_state(buffer: Seq<u8>) -> u16 {
    (buffer[2] + buffer[3] * 0x100) as u16
}

/// The two pads, as the pad driver last reported them.
pub struct Gamepad {
    buf0: Buffer,
    buf1: Buffer,
}

impl Gamepad {
    /// What the driver last reported of the first pad.
    pub closed spec fn first(&self) -> Seq<u8> {
        self.buf0@
    }

    /// What the driver last reported of the second pad.
    pub closed spec fn second(&self) -> Seq<u8> {
        self.buf1@
    }

    /// Takes the pad driver into use with the two buffers. `initialized`
    /// tells whether the driver is in use; a driver in use is not set up
    /// a second time.
    pub fn new(buf0: Buffer, buf1: Buffer, initialized: &mut bool) -> (r: Result<Gamepad, Error>)
        ensures
            *old(initialized) ==> r is Err && r->Err_0 == Error::AlreadyInitialized
                && *final(initialized),
            !*old(initialized) ==> r is Ok && *final(initialized) && r->Ok_0.first() == buf0@
                && r->Ok_0.second() == buf1@,
    {
        if *initialized {
            return Err(Error::AlreadyInitialized);
        }
        *initialized = true;
        Ok(Gamepad { buf0, buf1 })
    }

    /// Takes over what the driver has written to the two buffers since.
    pub fn update(&mut self, buf0: Buffer, buf1: Buffer)
        ensures
            final(self).first() == buf0@,
            final(self).second() == buf1@,
    {
        self.buf0 = buf0;
        self.buf1 = buf1;
    }

    /// Whether `button` of the first pad is up.
    pub fn released(&self, button: Button) -> (r: bool)
        ensures
            r == (pad_state(self.first()) & button.bit() != 0),
    {
        let val: u16 = (self.buf0[2] as u16) + (self.buf0[3] as u16) * 0x100;
        val & button.mask() != 0
    }

    /// Whether `button` of the first pad is held down.
    pub fn pressed(&self, button: Button) -> (r: bool)
        ensures
            r == (pad_state(self.first()) & button.bit() == 0),
    {
        !self.released(button)
    }

    /// Gives the pad driver up, so that it can be set up again.
    pub fn release(self, initialized: &mut bool)
        ensures
            !*final(initialized),
    {
        *initialized = false;
    }
}

} // verus!
