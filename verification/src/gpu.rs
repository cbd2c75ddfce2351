//! The two command ports of the graphics coprocessor.
//!
//! `GP0` takes drawing and memory commands, `GP1` the commands that control
//! the display. A command is one word with the command number in its top
//! byte, followed for some commands by parameter words.

use vstd::prelude::*;
use crate::register::{Access, Register};

verus! {

/// A pair of coordinates or of lengths, x first.
pub type Vi = (i16, i16);

/// Why a pair of coordinates was refused.
#[derive(Debug, Clone, Copy, PartialEq, Eq, Structural)]
pub enum VectorError {
    /// The first component does not fit its field.
    InvalidX,
    /// The second component does not fit its field.
    InvalidY,
}

/// Where the coprocessor's DMA requests go.
#[derive(Debug, Clone, Copy, PartialEq, Eq, Structural)]
pub enum DMAMode {
    /// From memory to `GP0`.
    GP0,
    /// From the coprocessor's read port to memory.
    GPUREAD,
}

/// The video standard of the display.
#[derive(Debug, Clone, Copy, PartialEq, Eq, Structural)]
pub enum VideoMode {
    /// 60 Hz.
    NTSC,
    /// 50 Hz.
    PAL,
}

/// The colour depth of the display.
#[derive(Debug, Clone, Copy, PartialEq, Eq, Structural)]
pub enum Depth {
    /// 15 bits for each pixel.
    Bits15,
    /// 24 bits for each pixel.
    Bits24,
}

/// A colour with 8 bits for each of red, green and blue.
#[derive(Debug, Clone, Copy, PartialEq, Eq, Structural)]
pub struct Color {
    /// The red part.
    pub red: u8,
    /// The green part.
    pub green: u8,
    /// The blue part.
    pub blue: u8,
}

/// A position or a size in the frame buffer.
#[derive(Debug, Clone, Copy, PartialEq, Eq, Structural)]
pub struct Vertex {
    /// The horizontal part.
    pub x: u16,
    /// The vertical part.
    pub y: u16,
}

impl Color {
    /// The colour as a command parameter: red in the low byte, then green,
    /// then blue.
    pub open spec fn word(self) -> u32 {
        (self.red + self.green * 0x100 + self.blue * 0x1_0000) as u32
    }

    /// Packs the colour into a command parameter.
    pub fn pack(self) -> (r: u32)
        ensures
            r == self.word(),
            r < 0x100_0000,
    {
        (self.red as u32) + (self.green as u32) * 0x100 + (self.blue as u32) * 0x1_0000
    }
}

impl Vertex {
    /// The vertex as a parameter word: x in the low half, y in the high
    /// half.
    pub open spec fn word(self) -> u32 {
        (self.x + self.y * 0x1_0000) as u32
    }

    /// Packs the vertex into a parameter word.
    pub fn pack(self) -> (r: u32)
        ensures
            r == self.word(),
    {
        (self.x as u32) + (self.y as u32) * 0x1_0000
    }
}

/// The command word for command number `number` with the 24-bit parameter
/// `parameter`.
pub open spec fn command_word(number: u8, parameter: u32) -> u32 {
    (number * 0x100_0000 + parameter % 0x100_0000) as u32
}

/// Builds a command word; a missing parameter counts as 0, and only the low
/// 24 bits of a parameter are used.
pub fn command(number: u8, parameter: Option<u32>) -> (r: u32)
    ensures
        r == command_word(
            number,
            match parameter {
                Some(p) => p,
                None => 0,
            },
        ),
{
    let low: u32 = match parameter {
        Some(p) => p % 0x100_0000,
        None => 0,
    };
    (number as u32) * 0x100_0000 + low
}

/// `pair` packed with x in the low `x_limit` values and y above them, or the
/// component that does not fit. `x_limit` and `y_limit` are the numbers of
/// values that the two fields can hold.
pub open spec fn packed(pair: Vi, x_limit: u32, y_limit: u32) -> Result<u32, VectorError> {
    if pair.0 < 0 || pair.0 >= x_limit {
        Err(VectorError::InvalidX)
    } else if pair.1 < 0 || pair.1 >= y_limit {
        Err(VectorError::InvalidY)
    } else {
        Ok((pair.0 + pair.1 * x_limit) as u32)
    }
}

/// Packs `pair` into one word, x in the low field.
pub fn pack(pair: Vi, x_limit: u32, y_limit: u32) -> (r: Result<u32, VectorError>)
    requires
        x_limit <= 0x1000,
        y_limit <= 0x1000,
    ensures
        r == packed(pair, x_limit, y_limit),
        r is Ok ==> r->Ok_0 < x_limit * y_limit,
{
    if pair.0 < 0 || (pair.0 as u32) >= x_limit {
        Err(VectorError::InvalidX)
    } else if pair.1 < 0 || (pair.1 as u32) >= y_limit {
        Err(VectorError::InvalidY)
    } else {
        let x: u32 = pair.0 as u32;
        let y: u32 = pair.1 as u32;
        assert(y * x_limit <= 0xFFF * 0x1000 && x + y * x_limit < x_limit * y_limit)
            by (nonlinear_arith)
            requires
                y < y_limit,
                x < x_limit,
                x_limit <= 0x1000,
                y_limit <= 0x1000,
        ;
        assert(x_limit * y_limit <= 0x1000 * 0x1000) by (nonlinear_arith)
            requires
                x_limit <= 0x1000,
                y_limit <= 0x1000,
        ;
        Ok(x + y * x_limit)
    }
}

/// The number of values of the x field of a display start.
pub const START_X_LIMIT: u32 = 0x400;

/// The number of values of the y field of a display start.
pub const START_Y_LIMIT: u32 = 0x200;

/// The number of values of each field of a horizontal display range.
pub const HORIZONTAL_LIMIT: u32 = 0x1000;

/// The number of values of each field of a vertical display range.
pub const VERTICAL_LIMIT: u32 = 0x400;

/// The part of the frame buffer that is shown, and where on the screen.
pub struct DispEnv {
    offset: u32,
    horizontal_range: u32,
    vertical_range: u32,
}

impl DispEnv {
    /// The packed start of the display area in the frame buffer.
    pub closed spec fn offset(&self) -> u32 {
        self.offset
    }

    /// The packed horizontal range on the screen.
    pub closed spec fn horizontal_range(&self) -> u32 {
        self.horizontal_range
    }

    /// The packed vertical range on the screen.
    pub closed spec fn vertical_range(&self) -> u32 {
        self.vertical_range
    }

    /// Every part fits the parameter of its command.
    #[verifier::type_invariant]
    pub closed spec fn wf(&self) -> bool {
        &&& self.offset < START_X_LIMIT * START_Y_LIMIT
        &&& self.horizontal_range < HORIZONTAL_LIMIT * HORIZONTAL_LIMIT
        &&& self.vertical_range < VERTICAL_LIMIT * VERTICAL_LIMIT
    }

    /// A display environment, if every component fits its field. The first
    /// component that does not fit is reported, the start before the
    /// horizontal range and that before the vertical range.
    pub fn new(offset: Vi, horizontal_range: Vi, vertical_range: Vi) -> (r: Result<
        DispEnv,
        VectorError,
    >)
        ensures
            match packed(offset, START_X_LIMIT, START_Y_LIMIT) {
                Err(e) => r is Err && r->Err_0 == e,
                Ok(start) => match packed(horizontal_range, HORIZONTAL_LIMIT, HORIZONTAL_LIMIT) {
                    Err(e) => r is Err && r->Err_0 == e,
                    Ok(horizontal) => match packed(vertical_range, VERTICAL_LIMIT, VERTICAL_LIMIT) {
                        Err(e) => r is Err && r->Err_0 == e,
                        Ok(vertical) => r is Ok && r->Ok_0.wf() && r->Ok_0.offset() == start
                            && r->Ok_0.horizontal_range() == horizontal
                            && r->Ok_0.vertical_range() == vertical,
                    },
                },
            },
    {
        let start: u32 = match pack(offset, START_X_LIMIT, START_Y_LIMIT) {
            Ok(word) => word,
            Err(e) => {
                return Err(e);
            },
        };
        let horizontal: u32 = match pack(horizontal_range, HORIZONTAL_LIMIT, HORIZONTAL_LIMIT) {
            Ok(word) => word,
            Err(e) => {
                return Err(e);
            },
        };
        let vertical: u32 = match pack(vertical_range, VERTICAL_LIMIT, VERTICAL_LIMIT) {
            Ok(word) => word,
            Err(e) => {
                return Err(e);
            },
        };
        Ok(DispEnv { offset: start, horizontal_range: horizontal, vertical_range: vertical })
    }
}

/// The settings word of the display-mode command for a resolution of `res`,
/// or the component of `res` that the coprocessor does not offer.
///
/// The horizontal resolution is 256, 320, 512, 640 or 368, the vertical one
/// 240 or 480.
pub open spec fn display_mode_word(res: Vi, mode: VideoMode, depth: Depth, interlace: bool) -> Result<
    u32,
    VectorError,
> {
    let hres: int = if res.0 == 256 {
        0
    } else if res.0 == 320 {
        1
    } else if res.0 == 512 {
        2
    } else if res.0 == 640 {
        3
    } else {
        64
    };
    let vres: int = if res.1 == 480 {
        1
    } else {
        0
    };
    let video: int = if mode == VideoMode::PAL {
        1
    } else {
        0
    };
    let deep: int = if depth == Depth::Bits24 {
        1
    } else {
        0
    };
    let laced: int = if interlace {
        1
    } else {
        0
    };
    if res.0 != 256 && res.0 != 320 && res.0 != 512 && res.0 != 640 && res.0 != 368 {
        Err(VectorError::InvalidX)
    } else if res.1 != 240 && res.1 != 480 {
        Err(VectorError::InvalidY)
    } else {
        Ok((0x0800_0000 + hres + vres * 4 + video * 8 + deep * 16 + laced * 32) as u32)
    }
}

/// The display-control port of the coprocessor.
pub struct GP1<R: Register> {
    register: R,
}

impl<R: Register> GP1<R> {
    /// Every access made to the port, oldest first.
    pub closed spec fn trace(&self) -> Seq<Access> {
        self.register.trace()
    }

    /// The port behind `register`.
    pub fn new(register: R) -> (r: Self)
        ensures
            r.trace() == register.trace(),
    {
        GP1 { register }
    }

    /// The register behind the port.
    pub fn register(&self) -> (r: &R)
        ensures
            r.trace() == self.trace(),
    {
        &self.register
    }

    /// Resets the coprocessor.
    pub fn reset_gpu(&mut self)
        ensures
            final(self).trace() == old(self).trace().push(Access::Store(0x0000_0000)),
    {
        self.register.store(0x0000_0000);
    }

    /// Empties the command buffer.
    pub fn reset_buffer(&mut self)
        ensures
            final(self).trace() == old(self).trace().push(Access::Store(0x0100_0000)),
    {
        self.register.store(0x0100_0000);
    }

    /// Acknowledges the coprocessor's interrupt.
    pub fn ack_irq(&mut self)
        ensures
            final(self).trace() == old(self).trace().push(Access::Store(0x0200_0000)),
    {
        self.register.store(0x0200_0000);
    }

    /// Switches the display on or off.
    pub fn enable_display(&mut self, enabled: bool)
        ensures
            final(self).trace() == old(self).trace().push(
                Access::Store(
                    if enabled {
                        0x0300_0000
                    } else {
                        0x0300_0001
                    },
                ),
            ),
    {
        if enabled {
            self.register.store(0x0300_0000);
        } else {
            self.register.store(0x0300_0001);
        }
    }

    /// Chooses where the coprocessor's DMA requests go, or switches them
    /// off.
    pub fn dma_mode(&mut self, direction: Option<DMAMode>)
        ensures
            final(self).trace() == old(self).trace().push(
                Access::Store(
                    match direction {
                        None => 0x0400_0000,
                        Some(DMAMode::GP0) => 0x0400_0002,
                        Some(DMAMode::GPUREAD) => 0x0400_0003,
                    },
                ),
            ),
    {
        let word: u32 = match direction {
            None => 0x0400_0000,
            Some(DMAMode::GP0) => 0x0400_0002,
            Some(DMAMode::GPUREAD) => 0x0400_0003,
        };
        self.register.store(word);
    }

    /// Sets where in the frame buffer the display area starts: x has 10
    /// bits, y has 9. A start that does not fit is refused, and the port is
    /// not touched.
    pub fn display_start(&mut self, start: Vi) -> (r: Result<(), VectorError>)
        ensures
            match packed(start, START_X_LIMIT, START_Y_LIMIT) {
                Ok(word) => r is Ok && final(self).trace() == old(self).trace().push(
                    Access::Store((0x0500_0000 + word) as u32),
                ),
                Err(e) => r == Err::<(), VectorError>(e) && *final(self) == *old(self),
            },
    {
        match pack(start, START_X_LIMIT, START_Y_LIMIT) {
            Ok(word) => {
                self._display_start(word);
                Ok(())
            },
            Err(e) => Err(e),
        }
    }

    fn _display_start(&mut self, start: u32)
        requires
            start < START_X_LIMIT * START_Y_LIMIT,
        ensures
            final(self).trace() == old(self).trace().push(
                Access::Store((0x0500_0000 + start) as u32),
            ),
    {
        self.register.store(0x0500_0000 + start);
    }

    /// Sets the horizontal range of the display on the screen: both ends
    /// have 12 bits. A range that does not fit is refused, and the port is
    /// not touched.
    pub fn horizontal_range(&mut self, range: Vi) -> (r: Result<(), VectorError>)
        ensures
            match packed(range, HORIZONTAL_LIMIT, HORIZONTAL_LIMIT) {
                Ok(word) => r is Ok && final(self).trace() == old(self).trace().push(
                    Access::Store((0x0600_0000 + word) as u32),
                ),
                Err(e) => r == Err::<(), VectorError>(e) && *final(self) == *old(self),
            },
    {
        match pack(range, HORIZONTAL_LIMIT, HORIZONTAL_LIMIT) {
            Ok(word) => {
                self._horizontal_range(word);
                Ok(())
            },
            Err(e) => Err(e),
        }
    }

    fn _horizontal_range(&mut self, range: u32)
        requires
            range < HORIZONTAL_LIMIT * HORIZONTAL_LIMIT,
        ensures
            final(self).trace() == old(self).trace().push(
                Access::Store((0x0600_0000 + range) as u32),
            ),
    {
        self.register.store(0x0600_0000 + range);
    }

    /// Sets the vertical range of the display on the screen: both ends have
    /// 10 bits. A range that does not fit is refused, and the port is not
    /// touched.
    pub fn vertical_range(&mut self, range: Vi) -> (r: Result<(), VectorError>)
        ensures
            match packed(range, VERTICAL_LIMIT, VERTICAL_LIMIT) {
                Ok(word) => r is Ok && final(self).trace() == old(self).trace().push(
                    Access::Store((0x0700_0000 + word) as u32),
                ),
                Err(e) => r == Err::<(), VectorError>(e) && *final(self) == *old(self),
            },
    {
        match pack(range, VERTICAL_LIMIT, VERTICAL_LIMIT) {
            Ok(word) => {
                self._vertical_range(word);
                Ok(())
            },
            Err(e) => Err(e),
        }
    }

    fn _vertical_range(&mut self, range: u32)
        requires
            range < VERTICAL_LIMIT * VERTICAL_LIMIT,
        ensures
            final(self).trace() == old(self).trace().push(
                Access::Store((0x0700_0000 + range) as u32),
            ),
    {
        self.register.store(0x0700_0000 + range);
    }

    /// Sets the resolution, the video standard, the colour depth and the
    /// interlacing of the display. A resolution that the coprocessor does
    /// not offer is refused, and the port is not touched.
    pub fn display_mode(&mut self, res: Vi, mode: VideoMode, depth: Depth, interlace: bool) -> (r:
        Result<(), VectorError>)
        ensures
            match display_mode_word(res, mode, depth, interlace) {
                Ok(word) => r is Ok && final(self).trace() == old(self).trace().push(
                    Access::Store(word),
                ),
                Err(e) => r == Err::<(), VectorError>(e) && *final(self) == *old(self),
            },
    {
        let hres: u32 = if res.0 == 256 {
            0
        } else if res.0 == 320 {
            1
        } else if res.0 == 512 {
            2
        } else if res.0 == 640 {
            3
        } else if res.0 == 368 {
            64
        } else {
            return Err(VectorError::InvalidX);
        };
        let vres: u32 = if res.1 == 240 {
            0
        } else if res.1 == 480 {
            1
        } else {
            return Err(VectorError::InvalidY);
        };
        let video: u32 = match mode {
            VideoMode::NTSC => 0,
            VideoMode::PAL => 1,
        };
        let deep: u32 = match depth {
            Depth::Bits15 => 0,
            Depth::Bits24 => 1,
        };
        let laced: u32 = if interlace {
            1
        } else {
            0
        };
        let settings: u32 = hres + vres * 4 + video * 8 + deep * 16 + laced * 32;
        self.register.store(0x0800_0000 + settings);
        Ok(())
    }

    /// Sets the start and the two ranges of the display from `disp_env`, in
    /// this order.
    pub fn set_display_env(&mut self, disp_env: &DispEnv)
        ensures
            final(self).trace() == old(self).trace().push(
                Access::Store((0x0500_0000 + disp_env.offset()) as u32),
            ).push(Access::Store((0x0600_0000 + disp_env.horizontal_range()) as u32)).push(
                Access::Store((0x0700_0000 + disp_env.vertical_range()) as u32),
            ),
    {
        proof {
            use_type_invariant(disp_env);
        }
        self._display_start(disp_env.offset);
        self._horizontal_range(disp_env.horizontal_range);
        self._vertical_range(disp_env.vertical_range);
    }
}

/// The command port of the coprocessor.
pub struct GP0<R: Register> {
    register: R,
}

/// `trace` followed by a store of each word of `words`, in their order.
pub open spec fn stored_all(trace: Seq<Access>, words: Seq<u32>) -> Seq<Access> {
    trace + Seq::new(words.len(), |i: int| Access::Store(words[i]))
}

impl<R: Register> GP0<R> {
    /// Every access made to the port, oldest first.
    pub closed spec fn trace(&self) -> Seq<Access> {
        self.register.trace()
    }

    /// The port behind `register`.
    pub fn new(register: R) -> (r: Self)
        ensures
            r.trace() == register.trace(),
    {
        GP0 { register }
    }

    /// The register behind the port.
    pub fn register(&self) -> (r: &R)
        ensures
            r.trace() == self.trace(),
    {
        &self.register
    }

    /// Sends one word to the port.
    pub fn write(&mut self, word: u32)
        ensures
            final(self).trace() == old(self).trace().push(Access::Store(word)),
    {
        self.register.store(word);
    }

    /// Empties the texture cache.
    pub fn clear_cache(&mut self)
        ensures
            final(self).trace() == old(self).trace().push(Access::Store(command_word(0x01, 0))),
    {
        self.write(command(0x01, None));
    }

    /// Fills the rectangle of size `size` at `offset` with `color`.
    pub fn fill_rectangle(&mut self, color: Color, offset: Vertex, size: Vertex)
        ensures
            final(self).trace() == old(self).trace().push(
                Access::Store(command_word(0x02, color.word())),
            ).push(Access::Store(offset.word())).push(Access::Store(size.word())),
    {
        self.write(command(0x02, Some(color.pack())));
        self.write(offset.pack());
        self.write(size.pack());
    }

    /// Copies the rectangle of size `size` at `src` to `dest`.
    pub fn copy_rectangle(&mut self, src: Vertex, dest: Vertex, size: Vertex)
        ensures
            final(self).trace() == old(self).trace().push(Access::Store(command_word(0x80, 0))).push(
                Access::Store(src.word()),
            ).push(Access::Store(dest.word())).push(Access::Store(size.word())),
    {
        self.write(command(0x80, None));
        self.write(src.pack());
        self.write(dest.pack());
        self.write(size.pack());
    }

    /// Asks the coprocessor to raise its interrupt.
    pub fn interrupt_request(&mut self)
        ensures
            final(self).trace() == old(self).trace().push(Access::Store(command_word(0x1F, 0))),
    {
        self.write(command(0x1F, None));
    }

    /// Sends the words of a primitive to the port, first word first.
    pub fn draw(&mut self, primitive: &[u32])
        ensures
            final(self).trace() == stored_all(old(self).trace(), primitive@),
    {
        let n: usize = primitive.len();
        let mut i: usize = 0;
        while i < n
            invariant
                i <= n,
                n == primitive@.len(),
                self.trace() == stored_all(old(self).trace(), primitive@.take(i as int)),
            decreases n - i,
        {
            self.write(primitive[i]);
            proof {
                assert(stored_all(old(self).trace(), primitive@.take(i + 1)) =~= stored_all(
                    old(self).trace(),
                    primitive@.take(i as int),
                ).push(Access::Store(primitive@[i as int])));
            }
            i = i + 1;
        }
        proof {
            assert(primitive@.take(n as int) =~= primitive@);
            assert(stored_all(old(self).trace(), primitive@.take(0)) =~= old(self).trace());
        }
    }
}

} // verus!
