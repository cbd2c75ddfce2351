//! Ordering tables: one empty packet for each drawing priority.
//!
//! Commands are inserted behind the entry of their priority in any order;
//! the engine walks the table from its first entry to its last and so draws
//! them in the order of their priorities.

use vstd::prelude::*;
use crate::addr::{PhysAddr, TERMINATOR};
use crate::dma::{Error, LinkedList};
use crate::packet::{is_fresh_table, ordering_table, spliced, table_fits, views, Packet, PacketView};

verus! {

/// A table of `N` empty packets that lie word after word in memory.
pub struct OrderingTable<const N: usize> {
    entries: Vec<Packet<()>>,
}

impl<const N: usize> View for OrderingTable<N> {
    type V = Seq<PacketView>;

    closed spec fn view(&self) -> Seq<PacketView> {
        views(self.entries@)
    }
}

impl<const N: usize> OrderingTable<N> {
    /// The table has `N` entries, at least one, and each is an empty packet
    /// one word behind the one before.
    pub open spec fn wf(&self) -> bool {
        &&& N >= 1
        &&& self@.len() == N
        &&& table_fits(self@[0].address, N as nat)
        &&& forall|i: int|
            0 <= i < N ==> (#[trigger] self@[i]).address == self@[0].address + 4 * i && self@[i].size
                == 0
    }

    /// A fresh table at `base`: every entry points at the next one, and the
    /// last one points nowhere. A table without entries is refused, and so
    /// is one that does not lie in the 24-bit space at word-aligned
    /// addresses.
    pub fn new(base: u32) -> (r: Result<OrderingTable<N>, Error>)
        ensures
            N == 0 ==> r is Err && r->Err_0 == Error::EmptyBlock,
            N > 0 && !table_fits(base, N as nat) ==> r is Err && r->Err_0
                == Error::UnalignedAddress,
            N > 0 && table_fits(base, N as nat) ==> r is Ok && r->Ok_0.wf() && is_fresh_table(
                r->Ok_0@,
                base,
                N as nat,
            ),
    {
        if N == 0 {
            return Err(Error::EmptyBlock);
        }
        match ordering_table(base, N) {
            Ok(entries) => {
                let table = OrderingTable { entries };
                proof {
                    assert(table@[0].address == base);
                }
                Ok(table)
            },
            Err(e) => Err(e),
        }
    }

    /// The entry of priority `index`.
    pub fn entry(&self, index: usize) -> (r: &Packet<()>)
        requires
            self.wf(),
            index < N,
        ensures
            r@ == self@[index as int],
    {
        &self.entries[index]
    }

    /// The address of the entry of priority `index`.
    pub fn entry_address(&self, index: usize) -> (r: u32)
        requires
            self.wf(),
            index < N,
        ensures
            r == self@[index as int].address,
            r == self@[0].address + 4 * index,
    {
        self.entries[index].address()
    }

    /// Inserts `packet` behind the entry of priority `index`, in front of
    /// what was inserted there before.
    ///
    /// Returns what `packet` pointed at before, if it pointed at anything:
    /// that tail is not part of the table.
    pub fn insert<T>(&mut self, index: usize, packet: &mut Packet<T>) -> (r: Option<PhysAddr>)
        requires
            old(self).wf(),
            index < N,
        ensures
            final(self).wf(),
            (final(self)@[index as int], final(packet)@) == spliced(
                old(self)@[index as int],
                old(packet)@,
            ),
            forall|i: int| 0 <= i < N && i != index ==> final(self)@[i] == old(self)@[i],
            final(packet).payload() == old(packet).payload(),
            r is None <==> old(packet)@.next == TERMINATOR,
            r is Some ==> r->Some_0.value() == old(packet)@.next,
    {
        let ghost before = self.entries@;
        let r = self.entries[index].insert_packet(packet);
        proof {
            assert(self.entries@.len() == before.len());
            assert forall|i: int| 0 <= i < N && i != index implies self@[i] == views(before)[i] by {
                assert(self.entries@[i] == before[i]);
            }
            assert(views(before)[index as int] == before[index as int]@);
            assert(self@[index as int] == self.entries@[index as int]@);
            assert forall|i: int| 0 <= i < N implies (#[trigger] self@[i]).address == views(
                before,
            )[i].address && self@[i].size == views(before)[i].size by {
                if i != index {
                    assert(self@[i] == views(before)[i]);
                }
            }
            assert(self@[0].address == views(before)[0].address);
        }
        r
    }
}

impl<const N: usize> LinkedList for OrderingTable<N> {
    /// A walk through the table starts at its first entry, which is where
    /// the table lies. (A table that is not well-formed has no entry; its
    /// head is then the end-of-list marker.)
    closed spec fn head(&self) -> u32 {
        if self.entries@.len() > 0 {
            self.entries@[0]@.address
        } else {
            TERMINATOR
        }
    }

    fn address(&self) -> (r: u32)
        ensures
            self.wf() ==> r == self@[0].address,
    {
        if self.entries.len() > 0 {
            self.entries[0].address()
        } else {
            TERMINATOR
        }
    }
}

impl<T> LinkedList for Packet<T> {
    /// A walk starts at the packet itself.
    open spec fn head(&self) -> u32 {
        self@.address
    }

    fn address(&self) -> (r: u32) {
        Packet::address(self)
    }
}

} // verus!
