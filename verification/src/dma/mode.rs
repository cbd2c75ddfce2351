//! Configuration values of a DMA channel and their register encodings.
//!
//! The block-control register means different things under each transfer
//! mode; the channel-control register packs direction, step, chopping, the
//! transfer mode and the start flag into one word. Everything here is a
//! function of its arguments alone.

use vstd::prelude::*;
use crate::dma::Error;

verus! {

/// The most words that a single block can hold.
pub const MAX_SINGLE_WORDS: u32 = 0x1_0000;

/// The widest chopping window.
pub const MAX_CHOP_WINDOW: u32 = 7;

/// Channel-control bit 0: the direction.
pub const DIRECTION_BIT: u32 = 0x0000_0001;

/// Channel-control bit 1: the step.
pub const STEP_BIT: u32 = 0x0000_0002;

/// Channel-control bit 8: chopping enabled.
pub const CHOP_BIT: u32 = 0x0000_0100;

/// Channel-control bits 9 and 10: the transfer mode.
pub const MODE_BITS: u32 = 0x0000_0600;

/// Channel-control bits 16 to 18: the DMA window.
pub const DMA_WINDOW_BITS: u32 = 0x0007_0000;

/// Channel-control bits 20 to 22: the CPU window.
pub const CPU_WINDOW_BITS: u32 = 0x0070_0000;

/// Channel-control bit 24: set to start a transfer, cleared by the device
/// when the transfer is complete.
pub const START_BIT: u32 = 0x0100_0000;

/// Channel-control bit 28: the trigger that an immediate transfer needs
/// besides the start flag.
pub const TRIGGER_BIT: u32 = 0x1000_0000;

/// How many words a transfer moves, and in how many blocks.
#[derive(Debug, Clone, Copy, PartialEq, Eq, Structural)]
pub enum BlockMode {
    /// A single block of this many words.
    Single(u32),
    /// Several blocks of one size.
    Multi {
        /// The words in each block.
        words: u16,
        /// The number of blocks.
        blocks: u16,
    },
    /// Blocks of any number and size, chained as a linked list.
    LinkedList,
}

/// How a channel synchronises a transfer with its device.
#[derive(Debug, Clone, Copy, PartialEq, Eq, Structural)]
pub enum TransferMode {
    /// Start at once and move everything in one go.
    Immediate,
    /// Move one block per request of the device.
    Request,
    /// Follow a linked list in memory.
    LinkedList,
}

/// The direction of a transfer.
#[derive(Debug, Clone, Copy, PartialEq, Eq, Structural)]
pub enum Direction {
    /// From a device to memory.
    ToMemory,
    /// From memory to a device.
    FromMemory,
}

/// The direction in which the memory address moves during a transfer.
#[derive(Debug, Clone, Copy, PartialEq, Eq, Structural)]
pub enum Step {
    /// Up by one word after each word.
    Forward,
    /// Down by one word after each word.
    Backward,
}

/// The widths of the alternating windows in which the DMA engine and the CPU
/// own the bus during a chopped transfer.
#[derive(Debug, Clone, Copy, PartialEq, Eq, Structural)]
pub struct Chop {
    /// The width of the DMA window.
    pub dma_window: u32,
    /// The width of the CPU window.
    pub cpu_window: u32,
}

impl BlockMode {
    /// The block-control word for `self`, or the reason why there is none.
    ///
    /// A single block of `0x1_0000` words is written as 0, smaller ones as
    /// their word count; the other modes cannot fail.
    pub open spec fn encoded(self) -> Result<u32, Error> {
        match self {
            BlockMode::Single(words) => {
                if words == 0 {
                    Err(Error::EmptyBlock)
                } else if words < MAX_SINGLE_WORDS {
                    Ok(words)
                } else if words == MAX_SINGLE_WORDS {
                    Ok(0u32)
                } else {
                    Err(Error::OversizedBlock)
                }
            },
            BlockMode::Multi { words, blocks } => Ok((words + blocks * 0x1_0000) as u32),
            BlockMode::LinkedList => Ok(0u32),
        }
    }

    /// What the block-control word `word` means under `mode`, if anything.
    pub open spec fn decoded(word: u32, mode: TransferMode) -> Option<BlockMode> {
        match mode {
            TransferMode::Immediate => {
                if word == 0 {
                    Some(BlockMode::Single(MAX_SINGLE_WORDS))
                } else if word < MAX_SINGLE_WORDS {
                    Some(BlockMode::Single(word))
                } else {
                    None
                }
            },
            TransferMode::Request => Some(
                BlockMode::Multi {
                    words: (word % 0x1_0000) as u16,
                    blocks: (word / 0x1_0000) as u16,
                },
            ),
            TransferMode::LinkedList => Some(BlockMode::LinkedList),
        }
    }

    /// The transfer mode under which the block-control register holds a
    /// value of this kind.
    pub open spec fn mode(self) -> TransferMode {
        match self {
            BlockMode::Single(_) => TransferMode::Immediate,
            BlockMode::Multi { .. } => TransferMode::Request,
            BlockMode::LinkedList => TransferMode::LinkedList,
        }
    }

    /// Computes the block-control word for `self`.
    pub fn encode(&self) -> (r: Result<u32, Error>)
        ensures
            r == self.encoded(),
    {
        match *self {
            BlockMode::Single(words) => {
                if words == 0 {
                    Err(Error::EmptyBlock)
                } else if words < MAX_SINGLE_WORDS {
                    Ok(words)
                } else if words == MAX_SINGLE_WORDS {
                    Ok(0)
                } else {
                    Err(Error::OversizedBlock)
                }
            },
            BlockMode::Multi { words, blocks } => Ok((words as u32) + (blocks as u32) * 0x1_0000),
            BlockMode::LinkedList => Ok(0),
        }
    }

    /// Reads the block-control word `word` under `mode`.
    pub fn decode(word: u32, mode: TransferMode) -> (r: Option<BlockMode>)
        ensures
            r == BlockMode::decoded(word, mode),
    {
        match mode {
            TransferMode::Immediate => {
                if word == 0 {
                    Some(BlockMode::Single(MAX_SINGLE_WORDS))
                } else if word < MAX_SINGLE_WORDS {
                    Some(BlockMode::Single(word))
                } else {
                    None
                }
            },
            TransferMode::Request => Some(
                BlockMode::Multi {
                    words: (word % 0x1_0000) as u16,
                    blocks: (word / 0x1_0000) as u16,
                },
            ),
            TransferMode::LinkedList => Some(BlockMode::LinkedList),
        }
    }
}

impl From<u32> for BlockMode {
    /// A single block of `words` words.
    fn from(words: u32) -> (r: BlockMode) {
        BlockMode::Single(words)
    }
}

impl vstd::std_specs::convert::FromSpecImpl<u32> for BlockMode {
    open spec fn obeys_from_spec() -> bool {
        true
    }

    open spec fn from_spec(words: u32) -> BlockMode {
        BlockMode::Single(words)
    }
}

impl Direction {
    /// The direction field of a channel-control word that holds `self`.
    pub open spec fn field(self) -> u32 {
        match self {
            Direction::ToMemory => 0u32,
            Direction::FromMemory => DIRECTION_BIT,
        }
    }

    /// The direction that the channel-control word `word` holds.
    pub open spec fn of(word: u32) -> Direction {
        if word & DIRECTION_BIT == 0 {
            Direction::ToMemory
        } else {
            Direction::FromMemory
        }
    }

    /// `word` with its direction field replaced by `self`.
    pub open spec fn applied(self, word: u32) -> u32 {
        (word & !DIRECTION_BIT) | self.field()
    }

    /// Replaces the direction field of `word` by `self`.
    pub fn apply(self, word: u32) -> (r: u32)
        ensures
            r == self.applied(word),
    {
        match self {
            Direction::ToMemory => (word & !DIRECTION_BIT) | 0u32,
            Direction::FromMemory => (word & !DIRECTION_BIT) | DIRECTION_BIT,
        }
    }

    /// Reads the direction field of `word`.
    pub fn read(word: u32) -> (r: Direction)
        ensures
            r == Direction::of(word),
    {
        if word & DIRECTION_BIT == 0 {
            Direction::ToMemory
        } else {
            Direction::FromMemory
        }
    }
}

impl Step {
    /// The step field of a channel-control word that holds `self`.
    pub open spec fn field(self) -> u32 {
        match self {
            Step::Forward => 0u32,
            Step::Backward => STEP_BIT,
        }
    }

    /// The step that the channel-control word `word` holds.
    pub open spec fn of(word: u32) -> Step {
        if word & STEP_BIT == 0 {
            Step::Forward
        } else {
            Step::Backward
        }
    }

    /// `word` with its step field replaced by `self`.
    pub open spec fn applied(self, word: u32) -> u32 {
        (word & !STEP_BIT) | self.field()
    }

    /// Replaces the step field of `word` by `self`.
    pub fn apply(self, word: u32) -> (r: u32)
        ensures
            r == self.applied(word),
    {
        match self {
            Step::Forward => (word & !STEP_BIT) | 0u32,
            Step::Backward => (word & !STEP_BIT) | STEP_BIT,
        }
    }

    /// Reads the step field of `word`.
    pub fn read(word: u32) -> (r: Step)
        ensures
            r == Step::of(word),
    {
        if word & STEP_BIT == 0 {
            Step::Forward
        } else {
            Step::Backward
        }
    }
}

impl TransferMode {
    /// The mode field of a channel-control word that holds `self`.
    pub open spec fn field(self) -> u32 {
        match self {
            TransferMode::Immediate => 0u32,
            TransferMode::Request => 0x0000_0200u32,
            TransferMode::LinkedList => 0x0000_0400u32,
        }
    }

    /// The transfer mode that the channel-control word `word` holds; the
    /// fourth value of the field names no mode.
    pub open spec fn of(word: u32) -> Option<TransferMode> {
        if word & MODE_BITS == 0 {
            Some(TransferMode::Immediate)
        } else if word & MODE_BITS == 0x0000_0200 {
            Some(TransferMode::Request)
        } else if word & MODE_BITS == 0x0000_0400 {
            Some(TransferMode::LinkedList)
        } else {
            None
        }
    }

    /// `word` with its mode field replaced by `self`.
    pub open spec fn applied(self, word: u32) -> u32 {
        (word & !MODE_BITS) | self.field()
    }

    /// Replaces the mode field of `word` by `self`.
    pub fn apply(self, word: u32) -> (r: u32)
        ensures
            r == self.applied(word),
    {
        match self {
            TransferMode::Immediate => (word & !MODE_BITS) | 0u32,
            TransferMode::Request => (word & !MODE_BITS) | 0x0000_0200u32,
            TransferMode::LinkedList => (word & !MODE_BITS) | 0x0000_0400u32,
        }
    }

    /// Reads the mode field of `word`.
    pub fn read(word: u32) -> (r: Option<TransferMode>)
        ensures
            r == TransferMode::of(word),
    {
        let bits: u32 = word & MODE_BITS;
        if bits == 0 {
            Some(TransferMode::Immediate)
        } else if bits == 0x0000_0200 {
            Some(TransferMode::Request)
        } else if bits == 0x0000_0400 {
            Some(TransferMode::LinkedList)
        } else {
            None
        }
    }
}

impl Chop {
    /// Both windows fit their 3-bit fields.
    pub open spec fn valid(self) -> bool {
        self.dma_window <= MAX_CHOP_WINDOW && self.cpu_window <= MAX_CHOP_WINDOW
    }

    /// Tests whether both windows fit their 3-bit fields.
    pub fn fits(&self) -> (r: bool)
        ensures
            r == self.valid(),
    {
        self.dma_window <= MAX_CHOP_WINDOW && self.cpu_window <= MAX_CHOP_WINDOW
    }

    /// The chopping that the channel-control word `word` holds, if it is
    /// enabled.
    pub open spec fn of(word: u32) -> Option<Chop> {
        if word & CHOP_BIT == 0 {
            None
        } else {
            Some(Chop { dma_window: (word >> 16) & 7, cpu_window: (word >> 20) & 7 })
        }
    }

    /// `word` with chopping enabled and both windows replaced by `self`'s.
    pub open spec fn applied(self, word: u32) -> u32 {
        (word & !(DMA_WINDOW_BITS | CPU_WINDOW_BITS)) | CHOP_BIT | (self.dma_window << 16) | (
        self.cpu_window << 20)
    }

    /// `word` with chopping disabled.
    pub open spec fn cleared(word: u32) -> u32 {
        word & !CHOP_BIT
    }

    /// `word` with its chopping set to `chop`, or the reason why `chop`
    /// cannot be written.
    pub open spec fn set(chop: Option<Chop>, word: u32) -> Result<u32, Error> {
        match chop {
            Some(c) => if c.valid() {
                Ok(c.applied(word))
            } else {
                Err(Error::InvalidChop)
            },
            None => Ok(Chop::cleared(word)),
        }
    }

    /// Sets the chopping of `word` to `chop`. A window wider than 3 bits is
    /// refused, not masked.
    pub fn apply(chop: Option<Chop>, word: u32) -> (r: Result<u32, Error>)
        ensures
            r == Chop::set(chop, word),
    {
        match chop {
            Some(c) => {
                if !c.fits() {
                    Err(Error::InvalidChop)
                } else {
                    Ok(
                        (word & !(DMA_WINDOW_BITS | CPU_WINDOW_BITS)) | CHOP_BIT | (c.dma_window
                            << 16) | (c.cpu_window << 20),
                    )
                }
            },
            None => Ok(word & !CHOP_BIT),
        }
    }

    /// Reads the chopping of `word`.
    pub fn read(word: u32) -> (r: Option<Chop>)
        ensures
            r == Chop::of(word),
    {
        if word & CHOP_BIT == 0 {
            None
        } else {
            Some(Chop { dma_window: (word >> 16) & 7, cpu_window: (word >> 20) & 7 })
        }
    }
}

/// Whether the channel-control word `word` shows a transfer in flight.
pub open spec fn is_busy(word: u32) -> bool {
    word & START_BIT != 0
}

/// `word` with the start flag set, and with the trigger as well where `word`
/// selects the immediate mode.
pub open spec fn started(word: u32) -> u32 {
    if TransferMode::of(word) == Some(TransferMode::Immediate) {
        word | START_BIT | TRIGGER_BIT
    } else {
        word | START_BIT
    }
}

/// Tests the start flag of `word`.
pub fn busy_flag(word: u32) -> (r: bool)
    ensures
        r == is_busy(word),
{
    word & START_BIT != 0
}

/// Sets the start flag of `word`, and the trigger that the immediate mode
/// needs.
pub fn start_word(word: u32) -> (r: u32)
    ensures
        r == started(word),
{
    if word & MODE_BITS == 0 {
        word | START_BIT | TRIGGER_BIT
    } else {
        word | START_BIT
    }
}

/// A direction that is written to a word is read back from it.
pub proof fn lemma_direction_round_trip(word: u32, direction: Direction)
    ensures
        Direction::of(direction.applied(word)) == direction,
{
    assert(((word & !1u32) | 0u32) & 1u32 == 0u32) by (bit_vector);
    assert(((word & !1u32) | 1u32) & 1u32 != 0u32) by (bit_vector);
}

/// A step that is written to a word is read back from it.
pub proof fn lemma_step_round_trip(word: u32, step: Step)
    ensures
        Step::of(step.applied(word)) == step,
{
    assert(((word & !2u32) | 0u32) & 2u32 == 0u32) by (bit_vector);
    assert(((word & !2u32) | 2u32) & 2u32 != 0u32) by (bit_vector);
}

/// A transfer mode that is written to a word is read back from it.
pub proof fn lemma_mode_round_trip(word: u32, mode: TransferMode)
    ensures
        TransferMode::of(mode.applied(word)) == Some(mode),
{
    assert(((word & !0x600u32) | 0u32) & 0x600u32 == 0u32) by (bit_vector);
    assert(((word & !0x600u32) | 0x200u32) & 0x600u32 == 0x200u32) by (bit_vector);
    assert(((word & !0x600u32) | 0x400u32) & 0x600u32 == 0x400u32) by (bit_vector);
}

/// Chopping that is written to a word is read back from it: windows that fit
/// come back as they were, and disabled chopping comes back as none.
pub proof fn lemma_chop_round_trip(word: u32, chop: Option<Chop>)
    requires
        Chop::set(chop, word) is Ok,
    ensures
        Chop::of(Chop::set(chop, word)->Ok_0) == chop,
{
    match chop {
        Some(c) => {
            let d = c.dma_window;
            let p = c.cpu_window;
            let w = (word & !(0x0007_0000u32 | 0x0070_0000u32)) | 0x100u32 | (d << 16) | (p << 20);
            assert(w & 0x100u32 != 0u32 && (w >> 16) & 7 == d && (w >> 20) & 7 == p)
                by (bit_vector)
                requires
                    d <= 7u32,
                    p <= 7u32,
                    w == (word & !(0x0007_0000u32 | 0x0070_0000u32)) | 0x100u32 | (d << 16) | (p
                        << 20),
            ;
        },
        None => {
            assert((word & !0x100u32) & 0x100u32 == 0u32) by (bit_vector);
        },
    }
}

/// A started word shows a transfer in flight and keeps its transfer mode.
pub proof fn lemma_started_is_busy(word: u32)
    ensures
        is_busy(started(word)),
        TransferMode::of(started(word)) == TransferMode::of(word),
{
    assert((word | 0x0100_0000u32 | 0x1000_0000u32) & 0x0100_0000u32 != 0u32) by (bit_vector);
    assert((word | 0x0100_0000u32) & 0x0100_0000u32 != 0u32) by (bit_vector);
    assert((word | 0x0100_0000u32 | 0x1000_0000u32) & 0x600u32 == word & 0x600u32)
        by (bit_vector);
    assert((word | 0x0100_0000u32) & 0x600u32 == word & 0x600u32) by (bit_vector);
}

/// Every block size that has an encoding is read back from it unchanged.
pub proof fn lemma_block_round_trip(block: BlockMode)
    requires
        block.encoded() is Ok,
    ensures
        BlockMode::decoded(block.encoded()->Ok_0, block.mode()) == Some(block),
{
}

/// In immediate mode a block of `0x1_0000` words is written as 0 and 0 is
/// read as `0x1_0000` words, while every count from 1 to `0xFFFF` is written
/// and read as itself.
pub proof fn lemma_immediate_block_codec(words: u32)
    ensures
        BlockMode::Single(MAX_SINGLE_WORDS).encoded() == Ok::<u32, Error>(0u32),
        BlockMode::decoded(0, TransferMode::Immediate) == Some(BlockMode::Single(MAX_SINGLE_WORDS)),
        1 <= words <= 0xFFFF ==> BlockMode::Single(words).encoded() == Ok::<u32, Error>(words),
        1 <= words <= 0xFFFF ==> BlockMode::decoded(words, TransferMode::Immediate) == Some(
            BlockMode::Single(words),
        ),
{
}

/// In request mode the two halves of the word are independent: the low half
/// is the block size and the high half the block count, whatever they hold.
pub proof fn lemma_request_block_codec(words: u16, blocks: u16)
    ensures
        (BlockMode::Multi { words, blocks }).encoded() == Ok::<u32, Error>(
            (words + blocks * 0x1_0000) as u32,
        ),
        (words + blocks * 0x1_0000) % 0x1_0000 == words,
        (words + blocks * 0x1_0000) / 0x1_0000 == blocks,
{
}

} // verus!
