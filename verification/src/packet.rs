//! Command packets and the linked lists that the DMA engine walks.
//!
//! A packet is a header word in front of a payload. The header holds the
//! address of the packet that follows and the length of the payload; the
//! engine reads it from memory, so a packet has to know where in memory it
//! lives. That address is fixed when the packet is made and is what other
//! packets store to point at it.

use vstd::prelude::*;
use crate::addr::{is_valid_address, valid_address, PhysAddr, ADDRESS_SPACE, TERMINATOR};
use crate::dma::Error;

verus! {

/// The capacity in bytes of the coprocessor's command buffer: a payload that
/// is to be drawn must fit in it.
pub const GPU_BUFFER_SIZE: usize = 64;

/// What the engine sees of a packet: where it lives and what its header
/// holds.
pub struct PacketView {
    /// The address of the packet.
    pub address: u32,
    /// The address of the packet that follows, or `TERMINATOR`.
    pub next: u32,
    /// The length of the payload in words.
    pub size: u8,
}

/// The header word for a successor at `next` and a payload of `size` words:
/// the address in bits 0 to 23, the length in bits 24 to 31.
pub open spec fn header_word(next: u32, size: u8) -> u32 {
    (next + size * 0x100_0000) as u32
}

/// The successor that the header word `header` names.
pub open spec fn header_next(header: u32) -> u32 {
    header % 0x100_0000
}

/// The payload length that the header word `header` names.
pub open spec fn header_size(header: u32) -> u8 {
    (header / 0x100_0000) as u8
}

/// Splits a header word into the address of the successor and the length of
/// the payload.
pub fn split_header(header: u32) -> (r: (PhysAddr, u8))
    ensures
        r.0.value() == header_next(header),
        r.1 == header_size(header),
{
    let next: u32 = header % 0x100_0000;
    let size: u8 = (header / 0x100_0000) as u8;
    match PhysAddr::new(next) {
        Ok(address) => {
            proof {
                crate::addr::lemma_phys_addr_round_trip(next);
            }
            (address, size)
        },
        Err(_) => {
            assert(false);
            (PhysAddr::terminator(), size)
        },
    }
}

/// A header word is split into the parts it was made of.
pub proof fn lemma_header_round_trip(next: u32, size: u8)
    requires
        next < ADDRESS_SPACE,
    ensures
        header_next(header_word(next, size)) == next,
        header_size(header_word(next, size)) == size,
{
}

/// A command packet: a header in front of a payload of type `T`.
pub struct Packet<T> {
    next: PhysAddr,
    size: u8,
    contents: T,
    address: PhysAddr,
}

impl<T> View for Packet<T> {
    type V = PacketView;

    closed spec fn view(&self) -> PacketView {
        PacketView { address: self.address.value(), next: self.next.value(), size: self.size }
    }
}

/// The relation between two packets before and after the second is made the
/// successor of the first: the first points at the second, and the second
/// at what the first pointed at.
pub open spec fn spliced(head: PacketView, other: PacketView) -> (PacketView, PacketView) {
    (PacketView { next: other.address, ..head }, PacketView { next: head.next, ..other })
}

impl Packet<()> {
    /// A packet without payload at `address`, pointing nowhere. An address
    /// that is not word-aligned or lies outside the 24-bit space is refused.
    pub fn empty(address: u32) -> (r: Result<Packet<()>, Error>)
        ensures
            valid_address(address as int) ==> r is Ok && r->Ok_0@ == (PacketView {
                address,
                next: TERMINATOR,
                size: 0,
            }),
            !valid_address(address as int) ==> r is Err && r->Err_0 == Error::UnalignedAddress,
    {
        if !is_valid_address(address) {
            return Err(Error::UnalignedAddress);
        }
        match PhysAddr::new(address) {
            Ok(home) => {
                proof {
                    crate::addr::lemma_phys_addr_round_trip(address);
                }
                Ok(Packet { next: PhysAddr::terminator(), size: 0, contents: (), address: home })
            },
            Err(e) => Err(e),
        }
    }
}

impl<T> Packet<T> {
    /// The payload.
    pub closed spec fn payload(&self) -> T {
        self.contents
    }

    /// Both addresses of a packet lie in the 24-bit space, so its header
    /// word holds them without loss.
    pub proof fn lemma_addresses_in_space(&self)
        ensures
            self@.address < ADDRESS_SPACE,
            self@.next < ADDRESS_SPACE,
            header_next(header_word(self@.next, self@.size)) == self@.next,
            header_size(header_word(self@.next, self@.size)) == self@.size,
    {
    }

    /// A packet at `address` that holds `t` and points nowhere, for a
    /// payload that fits the coprocessor's command buffer. An address that
    /// is not word-aligned or lies outside the 24-bit space is refused.
    pub fn new(t: T, address: u32) -> (r: Result<Packet<T>, Error>)
        requires
            vstd::layout::size_of::<T>() <= GPU_BUFFER_SIZE,
        ensures
            valid_address(address as int) ==> r is Ok && r->Ok_0.payload() == t && r->Ok_0@ == (
            PacketView {
                address,
                next: TERMINATOR,
                size: (vstd::layout::size_of::<T>() / 4) as u8,
            }),
            !valid_address(address as int) ==> r is Err && r->Err_0 == Error::UnalignedAddress,
    {
        Self::new_oversized(t, address)
    }

    /// A packet at `address` that holds `t` and points nowhere, for a
    /// payload that may be larger than the coprocessor's command buffer, as
    /// long as its length in words fits the header. An address that is not
    /// word-aligned or lies outside the 24-bit space is refused.
    pub fn new_oversized(t: T, address: u32) -> (r: Result<Packet<T>, Error>)
        requires
            vstd::layout::size_of::<T>() / 4 <= u8::MAX,
        ensures
            valid_address(address as int) ==> r is Ok && r->Ok_0.payload() == t && r->Ok_0@ == (
            PacketView {
                address,
                next: TERMINATOR,
                size: (vstd::layout::size_of::<T>() / 4) as u8,
            }),
            !valid_address(address as int) ==> r is Err && r->Err_0 == Error::UnalignedAddress,
    {
        if !is_valid_address(address) {
            return Err(Error::UnalignedAddress);
        }
        let words: usize = core::mem::size_of::<T>() / 4;
        match PhysAddr::new(address) {
            Ok(home) => {
                proof {
                    crate::addr::lemma_phys_addr_round_trip(address);
                }
                Ok(
                    Packet {
                        next: PhysAddr::terminator(),
                        size: words as u8,
                        contents: t,
                        address: home,
                    },
                )
            },
            Err(e) => Err(e),
        }
    }

    /// The address of the packet.
    pub fn address(&self) -> (r: u32)
        ensures
            r == self@.address,
    {
        self.address.address()
    }

    /// The address of the packet that follows, or the end-of-list marker.
    pub fn next(&self) -> (r: PhysAddr)
        ensures
            r.value() == self@.next,
    {
        self.next
    }

    /// The length of the payload in words.
    pub fn size(&self) -> (r: u8)
        ensures
            r == self@.size,
    {
        self.size
    }

    /// The payload.
    pub fn contents(&self) -> (r: &T)
        ensures
            *r == self.payload(),
    {
        &self.contents
    }

    /// The header word as the engine reads it.
    pub fn header(&self) -> (r: u32)
        ensures
            r == header_word(self@.next, self@.size),
    {
        self.next.address() + (self.size as u32) * 0x100_0000
    }

    /// Makes `other` the successor of `self`: `other` takes over what `self`
    /// pointed at, and `self` points at `other`.
    ///
    /// Returns what `other` pointed at before, if it pointed at anything:
    /// that tail is no longer part of the list.
    pub fn insert_packet<U>(&mut self, other: &mut Packet<U>) -> (r: Option<PhysAddr>)
        ensures
            (final(self)@, final(other)@) == spliced(old(self)@, old(other)@),
            final(self).payload() == old(self).payload(),
            final(other).payload() == old(other).payload(),
            r is None <==> old(other)@.next == TERMINATOR,
            r is Some ==> r->Some_0.value() == old(other)@.next,
    {
        let res: PhysAddr = other.next;
        other.next = self.next;
        self.next = other.address;
        if res.is_terminator() {
            None
        } else {
            Some(res)
        }
    }

    /// Puts the run `other`, which is linked from its first packet to its
    /// last, between `self` and its successor: the last packet of the run
    /// takes over what `self` pointed at, and `self` points at the first.
    /// An empty run changes nothing.
    ///
    /// Returns what the last packet of the run pointed at before, if it
    /// pointed at anything: that tail is no longer part of the list.
    pub fn insert_list<U>(&mut self, other: &mut [Packet<U>]) -> (r: Option<PhysAddr>)
        ensures
            final(self).payload() == old(self).payload(),
            final(other)@.len() == old(other)@.len(),
            old(other)@.len() == 0 ==> r is None && *final(self) == *old(self),
            old(other)@.len() > 0 ==> {
                let last = old(other)@.len() - 1;
                &&& (final(self)@, views(final(other)@)) == run_spliced(
                    old(self)@,
                    views(old(other)@),
                )
                &&& final(other)@[last].payload() == old(other)@[last].payload()
                &&& forall|i: int| 0 <= i < last ==> final(other)@[i] == old(other)@[i]
                &&& r is None <==> old(other)@[last]@.next == TERMINATOR
                &&& r is Some ==> r->Some_0.value() == old(other)@[last]@.next
            },
    {
        let n: usize = other.len();
        if n == 0 {
            return None;
        }
        let res: PhysAddr = other[n - 1].next;
        other[n - 1].next = self.next;
        self.next = other[0].address;
        proof {
            assert(views(other@) =~= run_spliced(old(self)@, views(old(other)@)).1);
        }
        if res.is_terminator() {
            None
        } else {
            Some(res)
        }
    }
}

/// The relation between a packet and a run of packets before and after the
/// run is put behind the packet: the packet points at the first of the run,
/// and the last of the run at what the packet pointed at.
pub open spec fn run_spliced(head: PacketView, run: Seq<PacketView>) -> (
    PacketView,
    Seq<PacketView>,
)
    recommends
        run.len() > 0,
{
    (
        PacketView { next: run[0].address, ..head },
        run.update(run.len() - 1, PacketView { next: head.next, ..run.last() }),
    )
}

/// What the engine sees of each packet of `list`.
pub open spec fn views<T>(list: Seq<Packet<T>>) -> Seq<PacketView> {
    Seq::new(list.len(), |i: int| list[i]@)
}

/// What linking does to a run of packets: every packet but the last points
/// at the one behind it, and the last takes over what the first pointed at.
/// Addresses and sizes stay.
pub open spec fn linked(before: Seq<PacketView>, after: Seq<PacketView>) -> bool {
    &&& after.len() == before.len()
    &&& forall|i: int|
        0 <= i < after.len() ==> (#[trigger] after[i]).address == before[i].address && after[i].size
            == before[i].size
    &&& forall|i: int|
        0 <= i < after.len() - 1 ==> (#[trigger] after[i]).next == before[i + 1].address
    &&& after.len() > 0 ==> after.last().next == before[0].next
}

/// Links the packets of `list` into one chain from the first to the last,
/// by making each the successor of the one in front of it.
pub fn link_list<T>(list: &mut [Packet<T>])
    ensures
        linked(views(old(list)@), views(final(list)@)),
        forall|i: int|
            0 <= i < old(list)@.len() ==> (#[trigger] final(list)@[i]).payload() == old(
                list,
            )@[i].payload(),
{
    let n: usize = list.len();
    let mut i: usize = 1;
    while i < n
        invariant
            1 <= i,
            n == list@.len(),
            n == old(list)@.len(),
            i <= n || n == 0,
            forall|k: int|
                0 <= k < n ==> (#[trigger] list@[k])@.address == old(list)@[k]@.address
                    && list@[k]@.size == old(list)@[k]@.size && list@[k].payload() == old(
                    list,
                )@[k].payload(),
            forall|k: int| 0 <= k < i - 1 ==> (#[trigger] list@[k])@.next == old(list)@[k + 1]@.address,
            n > 0 ==> list@[i - 1]@.next == old(list)@[0]@.next,
            forall|k: int| i <= k < n ==> (#[trigger] list@[k])@.next == old(list)@[k]@.next,
        decreases n - i,
    {
        let ghost snapshot = list@;
        let (a, b) = list.split_at_mut(i);
        let last_a = &mut a[a.len() - 1];
        let first_b = &mut b[0];
        last_a.insert_packet(first_b);
        proof {
            assert(list@.len() == n);
            assert forall|k: int| 0 <= k < n && k != i - 1 && k != i implies list@[k]
                == snapshot[k] by {
                if k < i {
                    assert(list@[k] == a@[k]);
                } else {
                    assert(list@[k] == b@[k - i]);
                }
            }
            assert(list@[i - 1] == a@[i - 1]);
            assert(list@[i as int] == b@[0]);
        }
        i = i + 1;
    }
}

/// A fresh table of `n` empty packets that lie word after word from `base`
/// on, linked from the first to the last. A table that does not lie in the
/// 24-bit space at word-aligned addresses is refused.
pub fn ordering_table(base: u32, n: usize) -> (r: Result<Vec<Packet<()>>, Error>)
    ensures
        table_fits(base, n as nat) ==> r is Ok && is_fresh_table(views(r->Ok_0@), base, n as nat),
        !table_fits(base, n as nat) ==> r is Err && r->Err_0 == Error::UnalignedAddress,
{
    if !is_valid_address(base) || n > ((ADDRESS_SPACE - base) / 4) as usize {
        return Err(Error::UnalignedAddress);
    }
    let mut table: Vec<Packet<()>> = Vec::new();
    let mut i: usize = 0;
    while i < n
        invariant
            i <= n,
            valid_address(base as int),
            base + 4 * n <= ADDRESS_SPACE,
            table@.len() == i,
            forall|k: int|
                0 <= k < i ==> (#[trigger] table@[k])@ == (PacketView {
                    address: (base + 4 * k) as u32,
                    next: TERMINATOR,
                    size: 0,
                }),
        decreases n - i,
    {
        let address: u32 = base + 4 * (i as u32);
        match Packet::empty(address) {
            Ok(packet) => {
                table.push(packet);
            },
            Err(e) => {
                return Err(e);
            },
        }
        i = i + 1;
    }
    let ghost unlinked = table@;
    link_list(table.as_mut_slice());
    proof {
        let after = views(table@);
        assert forall|k: int| 0 <= k < n implies (#[trigger] after[k]) == (PacketView {
            address: (base + 4 * k) as u32,
            next: if k + 1 < n {
                (base + 4 * (k + 1)) as u32
            } else {
                TERMINATOR
            },
            size: 0,
        }) by {
            assert(views(unlinked)[k] == unlinked[k]@);
            if k + 1 < n {
                assert(views(unlinked)[k + 1] == unlinked[k + 1]@);
            } else {
                assert(views(unlinked)[0] == unlinked[0]@);
                assert(after.last() == after[k]);
            }
        }
    }
    Ok(table)
}

/// Whether a table of `n` words at `base` lies in the 24-bit space at
/// word-aligned addresses.
pub open spec fn table_fits(base: u32, n: nat) -> bool {
    valid_address(base as int) && base + 4 * n <= ADDRESS_SPACE
}

/// What a fresh table of `n` entries at `base` looks like: entry `i` lies at
/// `base + 4 * i`, is empty, and points at entry `i + 1`; the last entry
/// points nowhere.
pub open spec fn is_fresh_table(table: Seq<PacketView>, base: u32, n: nat) -> bool {
    &&& table.len() == n
    &&& forall|i: int|
        0 <= i < n ==> (#[trigger] table[i]) == (PacketView {
            address: (base + 4 * i) as u32,
            next: if i + 1 < n {
                (base + 4 * (i + 1)) as u32
            } else {
                TERMINATOR
            },
            size: 0,
        })
}

/// Two copies of one packet for double buffering: while the engine reads
/// one, the other is written.
pub struct DoublePacket<T> {
    packet_1: Packet<T>,
    packet_2: Packet<T>,
}

impl<T> DoublePacket<T> {
    /// The first copy.
    pub closed spec fn first(&self) -> Packet<T> {
        self.packet_1
    }

    /// The second copy.
    pub closed spec fn second(&self) -> Packet<T> {
        self.packet_2
    }

    /// The copy to work on: the first when the buffers are swapped, the
    /// second when they are not.
    pub open spec fn selected(&self, swapped: bool) -> Packet<T> {
        if swapped {
            self.first()
        } else {
            self.second()
        }
    }

    /// A pair of the two copies.
    pub fn new(packet_1: Packet<T>, packet_2: Packet<T>) -> (r: Self)
        ensures
            r.first() == packet_1,
            r.second() == packet_2,
    {
        DoublePacket { packet_1, packet_2 }
    }

    /// The copy to work on.
    pub fn deref(&self, swapped: bool) -> (r: &Packet<T>)
        ensures
            *r == self.selected(swapped),
    {
        if swapped {
            &self.packet_1
        } else {
            &self.packet_2
        }
    }

    /// The copy to work on, for writing. The other copy stays as it is.
    pub fn deref_mut(&mut self, swapped: bool) -> (r: &mut Packet<T>)
        ensures
            *r == old(self).selected(swapped),
            final(self).selected(swapped) == *final(r),
            final(self).selected(!swapped) == old(self).selected(!swapped),
    {
        if swapped {
            &mut self.packet_1
        } else {
            &mut self.packet_2
        }
    }
}

} // verus!
