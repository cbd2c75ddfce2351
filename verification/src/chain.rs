//! What the DMA engine finds when it walks a list of packets.
//!
//! The engine follows the address in each header until it reads the
//! end-of-list marker. The memory it walks is modelled by the successor
//! stored at each address; a chain is the run of addresses that a walk
//! visits.

use vstd::prelude::*;
use crate::addr::{valid_address, TERMINATOR};
use crate::packet::{
    header_next,
    header_word,
    is_fresh_table,
    linked,
    run_spliced,
    spliced,
    table_fits,
    PacketView,
};

verus! {

/// Whether a walk through `links` that starts at `start` visits exactly the
/// addresses of `path`, in this order, and then reads the end-of-list
/// marker.
pub open spec fn is_chain(links: Map<u32, u32>, start: u32, path: Seq<u32>) -> bool {
    &&& path.len() == 0 ==> start == TERMINATOR
    &&& path.len() > 0 ==> path[0] == start && links[path.last()] == TERMINATOR
    &&& forall|i: int|
        0 <= i < path.len() ==> (#[trigger] path[i]) != TERMINATOR && links.contains_key(path[i])
    &&& forall|i: int, j: int|
        0 <= i && j == i + 1 && j < path.len() ==> links[#[trigger] path[i]] == #[trigger] path[j]
}

/// No two packets of `packets` lie at one address.
pub open spec fn distinct_addresses(packets: Seq<PacketView>) -> bool {
    forall|i: int, j: int|
        0 <= i < packets.len() && 0 <= j < packets.len() && i != j ==> (#[trigger] packets[i]).address
            != (#[trigger] packets[j]).address
}

/// The addresses of `packets`, in their order.
pub open spec fn addresses(packets: Seq<PacketView>) -> Seq<u32> {
    Seq::new(packets.len(), |i: int| packets[i].address)
}

/// The successors that `packets` store in memory, each at the address of
/// its packet.
pub open spec fn links_of(packets: Seq<PacketView>) -> Map<u32, u32> {
    Map::new(
        |a: u32| exists|i: int| 0 <= i < packets.len() && (#[trigger] packets[i]).address == a,
        |a: u32|
            packets[choose|i: int| 0 <= i < packets.len() && (#[trigger] packets[i]).address == a].next,
    )
}

/// A walk never visits an address twice.
pub proof fn lemma_chain_visits_once(links: Map<u32, u32>, start: u32, path: Seq<u32>, i: int, j: int)
    requires
        is_chain(links, start, path),
        0 <= i < j < path.len(),
    ensures
        path[i] != path[j],
    decreases path.len() - j,
{
    if path[i] == path[j] {
        assert(links[path[i]] == path[i + 1]);
        assert(path[i + 1] != TERMINATOR);
        if j + 1 < path.len() {
            assert(links[path[j]] == path[j + 1]);
            lemma_chain_visits_once(links, start, path, i + 1, j + 1);
        } else {
            assert(path[j] == path.last());
        }
    }
}

/// A walk that goes on behind its first address is a walk from the
/// successor of that address.
pub proof fn lemma_chain_tail(links: Map<u32, u32>, start: u32, path: Seq<u32>)
    requires
        is_chain(links, start, path),
        path.len() > 0,
    ensures
        is_chain(links, links[start], path.skip(1)),
{
    let tail = path.skip(1);
    assert(path[0] == start);
    assert forall|k: int| 0 <= k < tail.len() implies (#[trigger] tail[k]) != TERMINATOR
        && links.contains_key(tail[k]) by {
        assert(tail[k] == path[k + 1]);
    }
    assert forall|k: int, l: int| 0 <= k && l == k + 1 && l < tail.len() implies links[#[trigger] tail[k]]
        == #[trigger] tail[l] by {
        assert(tail[k] == path[k + 1]);
        assert(tail[l] == path[l + 1]);
    }
    if tail.len() > 0 {
        assert(tail[0] == path[1]);
        assert(links[path[0]] == path[1]);
        assert(tail.last() == path.last());
    } else {
        assert(path[0] == path.last());
    }
}

/// A walk stays what it was when memory changes only at addresses that it
/// does not visit.
pub proof fn lemma_chain_frame(
    links: Map<u32, u32>,
    changed: Map<u32, u32>,
    start: u32,
    path: Seq<u32>,
)
    requires
        is_chain(links, start, path),
        forall|i: int|
            0 <= i < path.len() ==> changed.contains_key(#[trigger] path[i]) && changed[path[i]]
                == links[path[i]],
    ensures
        is_chain(changed, start, path),
{
    if path.len() > 0 {
        assert(path.last() == path[path.len() - 1]);
    }
}

/// A walk from an address that points at the start of another walk visits
/// that address first and then what the other walk visits.
pub proof fn lemma_chain_cons(links: Map<u32, u32>, first: u32, start: u32, path: Seq<u32>)
    requires
        is_chain(links, start, path),
        first != TERMINATOR,
        links.contains_key(first),
        links[first] == start,
    ensures
        is_chain(links, first, seq![first] + path),
{
    let grown = seq![first] + path;
    assert(grown[0] == first);
    assert forall|k: int| 0 <= k < grown.len() implies (#[trigger] grown[k]) != TERMINATOR
        && links.contains_key(grown[k]) by {
        if k > 0 {
            assert(grown[k] == path[k - 1]);
        }
    }
    assert forall|k: int, l: int| 0 <= k && l == k + 1 && l < grown.len() implies links[#[trigger] grown[k]]
        == #[trigger] grown[l] by {
        assert(grown[l] == path[l - 1]);
        if k > 0 {
            assert(grown[k] == path[k - 1]);
        }
    }
    if path.len() > 0 {
        assert(grown.last() == path.last());
    } else {
        assert(grown.last() == first);
    }
}

/// After `insert_packet` the walk from the first packet visits one address
/// more: the inserted packet comes second, and everything that came after
/// the first packet before comes after the inserted one now.
///
/// This holds when the inserted packet was not on the walk already;
/// inserting a packet a second time closes a cycle.
pub proof fn lemma_insert_packet_chain(
    links: Map<u32, u32>,
    head: PacketView,
    other: PacketView,
    path: Seq<u32>,
)
    requires
        is_chain(links, head.address, path),
        head.address != TERMINATOR,
        links[head.address] == head.next,
        other.address != TERMINATOR,
        !path.contains(other.address),
    ensures
        ({
            let (head_after, other_after) = spliced(head, other);
            let after = links.insert(other_after.address, other_after.next).insert(
                head_after.address,
                head_after.next,
            );
            let tail = path.skip(1);
            &&& is_chain(after, head.address, seq![head.address, other.address] + tail)
            &&& (seq![head.address, other.address] + tail).len() == path.len() + 1
            &&& is_chain(after, other.address, seq![other.address] + tail)
            &&& is_chain(after, head.next, tail)
        }),
{
    let after = links.insert(other.address, head.next).insert(head.address, other.address);
    let tail = path.skip(1);
    assert(path.len() > 0);
    assert(path[0] == head.address);
    assert(path.contains(path[0]));
    lemma_chain_tail(links, head.address, path);
    assert forall|i: int| 0 <= i < tail.len() implies after.contains_key(#[trigger] tail[i])
        && after[tail[i]] == links[tail[i]] by {
        assert(tail[i] == path[i + 1]);
        assert(path.contains(path[i + 1]));
        lemma_chain_visits_once(links, head.address, path, 0, i + 1);
    }
    lemma_chain_frame(links, after, head.next, tail);
    lemma_chain_cons(after, other.address, head.next, tail);
    lemma_chain_cons(after, head.address, other.address, seq![other.address] + tail);
    assert(seq![head.address] + (seq![other.address] + tail) =~= seq![
        head.address,
        other.address,
    ] + tail);
}

/// After `link_list` on packets of which the first pointed nowhere, the
/// walk from the first packet visits every packet in the order of the list
/// and then reads the end-of-list marker, and the header of each packet
/// names the address of the packet behind it.
///
/// A first packet that pointed somewhere hands that successor to the last
/// packet, so the walk goes on past the list: that case is left out.
pub proof fn lemma_link_list_chain(before: Seq<PacketView>, after: Seq<PacketView>)
    requires
        linked(before, after),
        before.len() > 0 ==> before[0].next == TERMINATOR,
        distinct_addresses(before),
        forall|i: int| 0 <= i < before.len() ==> valid_address((#[trigger] before[i]).address as int),
    ensures
        is_chain(
            links_of(after),
            if after.len() > 0 {
                after[0].address
            } else {
                TERMINATOR
            },
            addresses(after),
        ),
        forall|i: int, j: int|
            0 <= i && j == i + 1 && j < after.len() ==> header_next(
                header_word((#[trigger] after[i]).next, after[i].size),
            ) == (#[trigger] after[j]).address,
        after.len() > 0 ==> header_next(header_word(after.last().next, after.last().size))
            == TERMINATOR,
{
    let links = links_of(after);
    let path = addresses(after);
    assert forall|i: int| 0 <= i < path.len() implies (#[trigger] path[i]) != TERMINATOR
        && links.contains_key(path[i]) && links[path[i]] == after[i].next by {
        assert(after[i].address == before[i].address);
        assert(after[i].address == path[i]);
        assert(links.contains_key(path[i]));
        let c = choose|c: int| 0 <= c < after.len() && (#[trigger] after[c]).address == path[i];
        assert(after[c].address == before[c].address);
        assert(c == i);
    }
    assert forall|i: int, j: int| 0 <= i && j == i + 1 && j < path.len() implies links[#[trigger] path[i]]
        == #[trigger] path[j] by {
        assert(after[i].next == before[j].address);
        assert(after[j].address == before[j].address);
    }
    assert forall|i: int, j: int| 0 <= i && j == i + 1 && j < after.len() implies header_next(
        header_word((#[trigger] after[i]).next, after[i].size),
    ) == (#[trigger] after[j]).address by {
        assert(after[i].next == before[j].address);
        assert(after[j].address == before[j].address);
    }
    if after.len() > 0 {
        assert(path.last() == path[path.len() - 1]);
        assert(after.last() == after[after.len() - 1]);
    }
}

/// A walk that has come to its `k`-th address goes on as a walk from
/// there.
pub proof fn lemma_chain_suffix(links: Map<u32, u32>, start: u32, path: Seq<u32>, k: int)
    requires
        is_chain(links, start, path),
        0 <= k < path.len(),
    ensures
        is_chain(links, path[k], path.skip(k)),
    decreases k,
{
    if k == 0 {
        assert(path.skip(0) =~= path);
    } else {
        lemma_chain_suffix(links, start, path, k - 1);
        let from = path.skip(k - 1);
        assert(from[0] == path[k - 1]);
        assert(from[1] == path[k]);
        assert(links[from[0]] == from[1]);
        lemma_chain_tail(links, path[k - 1], from);
        assert(from.skip(1) =~= path.skip(k));
    }
}

/// The first `k` addresses of a walk, followed by any walk from the address
/// that came next, are a walk again, as long as memory is unchanged at those
/// first addresses.
pub proof fn lemma_chain_prefix(
    links: Map<u32, u32>,
    changed: Map<u32, u32>,
    start: u32,
    path: Seq<u32>,
    k: int,
    rest: Seq<u32>,
)
    requires
        is_chain(links, start, path),
        0 <= k < path.len(),
        is_chain(changed, path[k], rest),
        forall|i: int|
            0 <= i < k ==> changed.contains_key(#[trigger] path[i]) && changed[path[i]]
                == links[path[i]],
    ensures
        is_chain(changed, start, path.take(k) + rest),
    decreases k,
{
    if k == 0 {
        assert(path.take(0) + rest =~= rest);
    } else {
        assert(links[path[k - 1]] == path[k]);
        lemma_chain_cons(changed, path[k - 1], path[k], rest);
        let longer = seq![path[k - 1]] + rest;
        lemma_chain_prefix(links, changed, start, path, k - 1, longer);
        assert(path.take(k - 1) + longer =~= path.take(k) + rest);
    }
}

/// After `insert_packet` on a packet that a walk visits, the walk visits
/// one address more: the inserted packet comes right behind that packet and
/// the rest of the walk is as it was. So whatever is inserted behind an
/// entry of an ordering table is visited after that entry and before the
/// next one, in whatever order the insertions are made.
///
/// This holds when the inserted packet was not on the walk already.
pub proof fn lemma_insert_packet_on_chain(
    links: Map<u32, u32>,
    start: u32,
    path: Seq<u32>,
    k: int,
    head: PacketView,
    other: PacketView,
)
    requires
        is_chain(links, start, path),
        0 <= k < path.len(),
        head.address == path[k],
        links[head.address] == head.next,
        other.address != TERMINATOR,
        !path.contains(other.address),
    ensures
        ({
            let (head_after, other_after) = spliced(head, other);
            let after = links.insert(other_after.address, other_after.next).insert(
                head_after.address,
                head_after.next,
            );
            let grown = path.take(k + 1) + seq![other.address] + path.skip(k + 1);
            &&& is_chain(after, start, grown)
            &&& grown.len() == path.len() + 1
        }),
{
    let after = links.insert(other.address, head.next).insert(head.address, other.address);
    let from = path.skip(k);
    lemma_chain_suffix(links, start, path, k);
    assert(!from.contains(other.address)) by {
        if from.contains(other.address) {
            let i = choose|i: int| 0 <= i < from.len() && from[i] == other.address;
            assert(path[k + i] == other.address);
        }
    }
    lemma_insert_packet_chain(links, head, other, from);
    let rest = seq![head.address, other.address] + from.skip(1);
    assert forall|i: int| 0 <= i < k implies after.contains_key(#[trigger] path[i])
        && after[path[i]] == links[path[i]] by {
        lemma_chain_visits_once(links, start, path, i, k);
        assert(path.contains(path[i]));
    }
    lemma_chain_prefix(links, after, start, path, k, rest);
    assert(path.take(k) + rest =~= path.take(k + 1) + seq![other.address] + path.skip(k + 1));
}

/// A walk through a fresh table visits every entry in the order of the
/// table and then reads the end-of-list marker.
pub proof fn lemma_fresh_table_chain(table: Seq<PacketView>, base: u32, n: nat)
    requires
        is_fresh_table(table, base, n),
        table_fits(base, n),
    ensures
        is_chain(
            links_of(table),
            if n > 0 {
                base
            } else {
                TERMINATOR
            },
            addresses(table),
        ),
{
    let unlinked = Seq::new(
        n,
        |i: int| PacketView { address: (base + 4 * i) as u32, next: TERMINATOR, size: 0 },
    );
    assert(linked(unlinked, table)) by {
        if n > 0 {
            assert(table.last() == table[n - 1]);
        }
    }
    lemma_link_list_chain(unlinked, table);
}

/// The memory that `insert_list` leaves: what was there, with the successor
/// of the first packet and of every packet of the run as they are after the
/// insertion.
pub open spec fn with_run(links: Map<u32, u32>, head: PacketView, run: Seq<PacketView>) -> Map<
    u32,
    u32,
> {
    links.insert(head.address, head.next).union_prefer_right(links_of(run))
}

/// A walk from the packet `from` of a linked run visits the rest of the run
/// and then goes on where the last packet of the run points.
proof fn lemma_run_chain(links: Map<u32, u32>, run: Seq<PacketView>, tail: Seq<u32>, from: int)
    requires
        0 <= from <= run.len(),
        run.len() > 0,
        distinct_addresses(run),
        forall|i: int| 0 <= i < run.len() ==> (#[trigger] run[i]).address != TERMINATOR,
        forall|i: int, j: int|
            0 <= i && j == i + 1 && j < run.len() ==> (#[trigger] run[i]).next == (
            #[trigger] run[j]).address,
        forall|i: int|
            0 <= i < run.len() ==> links.contains_key((#[trigger] run[i]).address)
                && links[run[i].address] == run[i].next,
        is_chain(links, run.last().next, tail),
    ensures
        is_chain(
            links,
            if from < run.len() {
                run[from].address
            } else {
                run.last().next
            },
            addresses(run).skip(from) + tail,
        ),
    decreases run.len() - from,
{
    if from == run.len() {
        assert(addresses(run).skip(from) + tail =~= tail);
    } else {
        lemma_run_chain(links, run, tail, from + 1);
        let rest = addresses(run).skip(from + 1) + tail;
        if from + 1 < run.len() {
            assert(run[from].next == run[from + 1].address);
        } else {
            assert(run[from] == run.last());
        }
        lemma_chain_cons(links, run[from].address, links[run[from].address], rest);
        assert(seq![run[from].address] + rest =~= addresses(run).skip(from) + tail);
    }
}

/// After `insert_list` of a linked run the walk from the first packet
/// visits as many addresses more as the run has packets: the run comes
/// behind the first packet, in its order, and everything that came after the
/// first packet before comes after the run now.
///
/// This holds when no packet of the run was on the walk already and no two
/// packets of the run lie at one address.
pub proof fn lemma_insert_list_chain(
    links: Map<u32, u32>,
    head: PacketView,
    run: Seq<PacketView>,
    path: Seq<u32>,
)
    requires
        is_chain(links, head.address, path),
        head.address != TERMINATOR,
        links[head.address] == head.next,
        run.len() > 0,
        distinct_addresses(run),
        forall|i: int|
            0 <= i < run.len() ==> (#[trigger] run[i]).address != TERMINATOR && !path.contains(
                run[i].address,
            ),
        forall|i: int, j: int|
            0 <= i && j == i + 1 && j < run.len() ==> (#[trigger] run[i]).next == (
            #[trigger] run[j]).address,
    ensures
        ({
            let (head_after, run_after) = run_spliced(head, run);
            let after = with_run(links, head_after, run_after);
            let grown = seq![head.address] + addresses(run) + path.skip(1);
            &&& is_chain(after, head.address, grown)
            &&& grown.len() == path.len() + run.len()
            &&& is_chain(after, head.next, path.skip(1))
        }),
{
    let (head_after, run_after) = run_spliced(head, run);
    let after = with_run(links, head_after, run_after);
    let tail = path.skip(1);
    let last = run.len() - 1;
    assert(path.len() > 0);
    assert(path[0] == head.address);
    assert(path.contains(path[0]));
    assert(run_after.len() == run.len());
    assert forall|i: int| 0 <= i < run.len() implies (#[trigger] run_after[i]).address
        == run[i].address by {}
    assert(distinct_addresses(run_after)) by {
        assert forall|i: int, j: int|
            0 <= i < run_after.len() && 0 <= j < run_after.len() && i != j implies (
        #[trigger] run_after[i]).address != (#[trigger] run_after[j]).address by {
            assert(run[i].address != run[j].address);
        }
    }
    assert forall|i: int| 0 <= i < run_after.len() implies after.contains_key(
        (#[trigger] run_after[i]).address,
    ) && after[run_after[i].address] == run_after[i].next by {
        let a = run_after[i].address;
        assert(links_of(run_after).contains_key(a));
        let c = choose|c: int| 0 <= c < run_after.len() && (#[trigger] run_after[c]).address == a;
        assert(c == i);
    }
    lemma_chain_tail(links, head.address, path);
    assert forall|i: int| 0 <= i < tail.len() implies after.contains_key(#[trigger] tail[i])
        && after[tail[i]] == links[tail[i]] by {
        assert(tail[i] == path[i + 1]);
        assert(path.contains(path[i + 1]));
        lemma_chain_visits_once(links, head.address, path, 0, i + 1);
        assert(!links_of(run_after).contains_key(tail[i])) by {
            if links_of(run_after).contains_key(tail[i]) {
                let c = choose|c: int|
                    0 <= c < run_after.len() && (#[trigger] run_after[c]).address == tail[i];
                assert(run[c].address == tail[i]);
            }
        }
    }
    lemma_chain_frame(links, after, head.next, tail);
    assert(run_after.last() == run_after[last]);
    assert(run_after.last().next == head.next);
    assert forall|i: int, j: int| 0 <= i && j == i + 1 && j < run_after.len() implies (
    #[trigger] run_after[i]).next == (#[trigger] run_after[j]).address by {
        assert(run[i].next == run[j].address);
    }
    lemma_run_chain(after, run_after, tail, 0);
    assert(addresses(run_after) =~= addresses(run));
    assert(addresses(run_after).skip(0) =~= addresses(run));
    assert(!links_of(run_after).contains_key(head.address)) by {
        if links_of(run_after).contains_key(head.address) {
            let c = choose|c: int|
                0 <= c < run_after.len() && (#[trigger] run_after[c]).address == head.address;
            assert(run[c].address == head.address);
        }
    }
    assert(after[head.address] == run_after[0].address);
    lemma_chain_cons(after, head.address, run_after[0].address, addresses(run) + tail);
    assert(seq![head.address] + (addresses(run) + tail) =~= seq![head.address] + addresses(run)
        + tail);
}

} // verus!
