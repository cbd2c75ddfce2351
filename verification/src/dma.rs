//! DMA channels: their configuration values, the encoding of those values in
//! the channel registers, and the driver that starts and completes transfers.

use vstd::prelude::*;

pub mod channel;
pub mod channels;
pub mod mode;
pub mod ports;
pub mod roles;

pub use channel::{Channel, Name};
pub use channels::{CDROM, MDECIn, MDECOut, PIO, SPU};
pub use mode::{BlockMode, Chop, Direction, Step, TransferMode};
pub use ports::{Port, Ports, SimPorts};
pub use roles::{BaseAddress, BlockControl, ChannelControl, Transfer};

verus! {

/// Why a request was refused. A refused request has touched no register.
#[derive(Debug, PartialEq, Eq, Clone, Copy, Structural)]
pub enum Error {
    /// The address is not word-aligned or lies outside the 24-bit space.
    UnalignedAddress,
    /// A word count or a block count does not fit its register field.
    OversizedBlock,
    /// The block holds no word.
    EmptyBlock,
    /// The block's length is no multiple of the number of blocks.
    BadBlockPartition,
    /// A chopping window is wider than 3 bits.
    InvalidChop,
}

/// The size of a transfer under the name of the register that holds it.
pub type BlockSize = BlockMode;

/// The transfer mode under the name of its field in the control register.
pub type SyncMode = TransferMode;

/// A structure in memory that the DMA engine can walk in linked-list mode.
pub trait LinkedList {
    /// The address of the header that the walk starts at. A list whose
    /// place only the running program knows leaves it undefined.
    open spec fn head(&self) -> u32 {
        vstd::pervasive::arbitrary()
    }

    /// The address to hand to the engine.
    fn address(&self) -> (r: u32)
        ensures
            r == self.head(),
    ;
}

} // verus!
