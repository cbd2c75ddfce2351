//! Physical addresses as the coprocessor and the DMA engine see them: 24
//! bits, stored as three bytes with the low byte first.

use vstd::prelude::*;
use crate::dma::Error;

verus! {

/// The size of the physical address space: an address has 24 bits.
pub const ADDRESS_SPACE: u32 = 0x100_0000;

/// The value that stands for "no successor" at the end of a list.
pub const TERMINATOR: u32 = 0x00FF_FFFF;

/// Whether `address` can be handed to the DMA engine: it lies in the 24-bit
/// space and is word-aligned.
pub open spec fn valid_address(address: int) -> bool {
    0 <= address < ADDRESS_SPACE && address % 4 == 0
}

/// Tests whether `address` lies in the 24-bit space and is word-aligned.
pub fn is_valid_address(address: u32) -> (r: bool)
    ensures
        r == valid_address(address as int),
{
    address < ADDRESS_SPACE && address % 4 == 0
}

/// A 24-bit physical address, low byte first.
#[derive(Debug, Clone, Copy)]
pub struct PhysAddr(pub [u8; 3]);

impl PhysAddr {
    /// The address that the three bytes spell.
    pub open spec fn value(self) -> u32 {
        (self.0[0] + self.0[1] * 0x100 + self.0[2] * 0x1_0000) as u32
    }

    /// The three bytes of `address`, low byte first.
    pub open spec fn encoded(address: u32) -> PhysAddr {
        PhysAddr(
            [
                (address % 0x100) as u8,
                ((address / 0x100) % 0x100) as u8,
                ((address / 0x1_0000) % 0x100) as u8,
            ],
        )
    }

    /// Encodes `address`, which must lie in the 24-bit space.
    pub fn new(address: u32) -> (r: Result<PhysAddr, Error>)
        ensures
            address < ADDRESS_SPACE ==> r == Ok::<PhysAddr, Error>(PhysAddr::encoded(address)),
            address >= ADDRESS_SPACE ==> r == Err::<PhysAddr, Error>(Error::UnalignedAddress),
    {
        if address >= ADDRESS_SPACE {
            Err(Error::UnalignedAddress)
        } else {
            let low: u8 = (address % 0x100) as u8;
            let mid: u8 = ((address / 0x100) % 0x100) as u8;
            let high: u8 = (address / 0x1_0000) as u8;
            Ok(PhysAddr([low, mid, high]))
        }
    }

    /// The end-of-list marker.
    pub fn terminator() -> (r: PhysAddr)
        ensures
            r.value() == TERMINATOR,
    {
        PhysAddr([0xFF, 0xFF, 0xFF])
    }

    /// Decodes the address.
    pub fn address(&self) -> (r: u32)
        ensures
            r == self.value(),
            r < ADDRESS_SPACE,
    {
        (self.0[0] as u32) + (self.0[1] as u32) * 0x100 + (self.0[2] as u32) * 0x1_0000
    }

    /// Whether this is the end-of-list marker.
    pub fn is_terminator(&self) -> (r: bool)
        ensures
            r == (self.value() == TERMINATOR),
    {
        self.0[0] == 0xFF && self.0[1] == 0xFF && self.0[2] == 0xFF
    }
}

/// Every address of the 24-bit space is decoded from its three bytes
/// unchanged.
pub proof fn lemma_phys_addr_round_trip(address: u32)
    requires
        address < ADDRESS_SPACE,
    ensures
        PhysAddr::encoded(address).value() == address,
{
}

} // verus!
