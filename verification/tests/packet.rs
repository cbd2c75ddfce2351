use psx::addr::{is_valid_address, PhysAddr, ADDRESS_SPACE, TERMINATOR};
use psx::dma::{Error, LinkedList};
use psx::ordering::OrderingTable;
use psx::packet::{link_list, ordering_table, split_header, DoublePacket, Packet, GPU_BUFFER_SIZE};

/// Where a packet lives and what its header holds.
fn cell<T>(packet: &Packet<T>) -> (u32, u32) {
    (packet.address(), packet.header())
}

/// Follows the headers in `memory` from `start` as the engine does and
/// returns the addresses visited, giving up after `limit` steps.
fn walk(memory: &[(u32, u32)], start: u32, limit: usize) -> Vec<u32> {
    let mut path = Vec::new();
    let mut at = start;
    while at != TERMINATOR && path.len() < limit {
        path.push(at);
        let (_, header) = memory.iter().find(|(address, _)| *address == at).expect("a packet");
        at = header & 0x00FF_FFFF;
    }
    path
}

#[test]
fn phys_addr_round_trips_every_kind_of_address() {
    for address in [0u32, 4, 0x80, 0x1234, 0x12_3456, 0x80_0000, 0xFF_FFFC, 0xFF_FFFE, 0xAB_CDEF] {
        let encoded = PhysAddr::new(address).unwrap();
        assert_eq!(encoded.address(), address);
    }
}

#[test]
fn phys_addr_stores_the_low_byte_first() {
    let encoded = PhysAddr::new(0x12_3456).unwrap();
    assert_eq!(encoded.0, [0x56, 0x34, 0x12]);
}

#[test]
fn phys_addr_refuses_a_nonzero_top_byte() {
    assert!(matches!(PhysAddr::new(ADDRESS_SPACE), Err(Error::UnalignedAddress)));
    assert!(matches!(PhysAddr::new(0x8000_0000), Err(Error::UnalignedAddress)));
    assert!(matches!(PhysAddr::new(u32::MAX), Err(Error::UnalignedAddress)));
    assert!(PhysAddr::new(ADDRESS_SPACE - 1).is_ok());
}

#[test]
fn terminator_is_all_ones() {
    let end = PhysAddr::terminator();
    assert_eq!(end.0, [0xFF, 0xFF, 0xFF]);
    assert_eq!(end.address(), TERMINATOR);
    assert!(end.is_terminator());
    assert!(!PhysAddr::new(0xFF_FFFC).unwrap().is_terminator());
    assert!(!PhysAddr::new(0).unwrap().is_terminator());
}

#[test]
fn valid_addresses_are_aligned_and_in_range() {
    assert!(is_valid_address(0));
    assert!(is_valid_address(0xFF_FFFC));
    assert!(!is_valid_address(2));
    assert!(!is_valid_address(0xFF_FFFF));
    assert!(!is_valid_address(0x100_0000));
}

#[test]
fn empty_packet_points_nowhere_and_has_no_payload() {
    let packet = Packet::empty(0x1000).unwrap();
    assert_eq!(packet.address(), 0x1000);
    assert_eq!(packet.size(), 0);
    assert!(packet.next().is_terminator());
    assert_eq!(packet.header(), 0x00FF_FFFF);
}

#[test]
fn packet_counts_its_payload_in_words() {
    let one = Packet::new(7u32, 0x2000).unwrap();
    assert_eq!(one.size(), 1);
    let four = Packet::new([1u32, 2, 3, 4], 0x2000).unwrap();
    assert_eq!(four.size(), 4);
    assert_eq!(four.contents(), &[1u32, 2, 3, 4]);
    assert_eq!(four.header(), 0x04FF_FFFF);
    let full = Packet::new([0u32; GPU_BUFFER_SIZE / 4], 0x2000).unwrap();
    assert_eq!(full.size(), 16);
}

#[test]
fn oversized_packet_counts_past_the_command_buffer() {
    let big = Packet::new_oversized([0u32; 20], 0x3000).unwrap();
    assert_eq!(big.size(), 20);
    let largest = Packet::new_oversized([0u32; 255], 0x3000).unwrap();
    assert_eq!(largest.size(), 255);
    assert_eq!(largest.header(), 0xFFFF_FFFF);
}

#[test]
fn packets_refuse_bad_addresses() {
    assert!(matches!(Packet::empty(0x1001), Err(Error::UnalignedAddress)));
    assert!(matches!(Packet::empty(0x100_0000), Err(Error::UnalignedAddress)));
    assert!(matches!(Packet::new(1u32, 0x1002), Err(Error::UnalignedAddress)));
    assert!(matches!(Packet::new_oversized(1u32, 0xFFFF_FFFC), Err(Error::UnalignedAddress)));
}

#[test]
fn header_packs_successor_and_size() {
    let mut head = Packet::new([0u32; 4], 0x10_0000).unwrap();
    let mut other = Packet::empty(0x12_3454).unwrap();
    assert!(head.insert_packet(&mut other).is_none());
    assert_eq!(head.header(), 0x0412_3454);
    let (next, size) = split_header(head.header());
    assert_eq!(next.address(), 0x12_3454);
    assert_eq!(size, 4);
}

#[test]
fn split_header_takes_any_word_apart() {
    let (next, size) = split_header(0xFFFF_FFFF);
    assert!(next.is_terminator());
    assert_eq!(size, 255);
    let (next, size) = split_header(0);
    assert_eq!(next.address(), 0);
    assert_eq!(size, 0);
}

#[test]
fn insert_packet_splices_behind_the_head() {
    let mut head = Packet::empty(0x100).unwrap();
    let mut first = Packet::new(1u32, 0x200).unwrap();
    let mut second = Packet::new(2u32, 0x300).unwrap();
    assert!(head.insert_packet(&mut first).is_none());
    assert_eq!(walk(&[cell(&head), cell(&first)], 0x100, 10), vec![0x100, 0x200]);
    assert!(head.insert_packet(&mut second).is_none());
    assert_eq!(head.next().address(), 0x300);
    assert_eq!(second.next().address(), 0x200);
    assert!(first.next().is_terminator());
    assert_eq!(*first.contents(), 1);
    assert_eq!(*second.contents(), 2);
    assert_eq!(head.size(), 0);
    assert_eq!(first.size(), 1);
}

#[test]
fn insert_packet_grows_the_chain_by_one() {
    let mut head = Packet::empty(0x100).unwrap();
    let mut a = Packet::empty(0x200).unwrap();
    let mut b = Packet::new([0u32; 2], 0x300).unwrap();
    let mut c = Packet::new(0u32, 0x400).unwrap();
    head.insert_packet(&mut a);
    head.insert_packet(&mut b);
    let before = walk(&[cell(&head), cell(&a), cell(&b), cell(&c)], head.address(), 10);
    assert_eq!(before, vec![0x100, 0x300, 0x200]);
    let old_successor = head.next().address();
    head.insert_packet(&mut c);
    let memory = [cell(&head), cell(&a), cell(&b), cell(&c)];
    let after = walk(&memory, head.address(), 10);
    assert_eq!(after.len(), before.len() + 1);
    assert_eq!(after, vec![0x100, 0x400, 0x300, 0x200]);
    let from_inserted = walk(&memory, c.address(), 10);
    assert!(from_inserted.contains(&old_successor));
    assert_eq!(from_inserted, vec![0x400, 0x300, 0x200]);
}

#[test]
fn insert_packet_reports_the_tail_it_cuts_off() {
    let mut head = Packet::empty(0x100).unwrap();
    let mut other = Packet::empty(0x200).unwrap();
    let mut tail = Packet::empty(0x300).unwrap();
    other.insert_packet(&mut tail);
    let cut = head.insert_packet(&mut other);
    assert_eq!(cut.map(|a| a.address()), Some(0x300));
    assert!(other.next().is_terminator());
    assert_eq!(head.next().address(), 0x200);
}

#[test]
fn insert_list_with_an_empty_run_changes_nothing() {
    let mut head = Packet::new(5u32, 0x100).unwrap();
    let mut successor = Packet::empty(0x200).unwrap();
    head.insert_packet(&mut successor);
    let header = head.header();
    let mut run: Vec<Packet<u32>> = Vec::new();
    assert!(head.insert_list(&mut run).is_none());
    assert_eq!(head.header(), header);
    assert_eq!(head.next().address(), 0x200);
    assert_eq!(*head.contents(), 5);
}

#[test]
fn insert_list_splices_a_linked_run() {
    let mut head = Packet::empty(0x100).unwrap();
    let mut successor = Packet::empty(0x900).unwrap();
    head.insert_packet(&mut successor);
    let mut run = vec![
        Packet::new(1u32, 0x200).unwrap(),
        Packet::new(2u32, 0x208).unwrap(),
        Packet::new(3u32, 0x210).unwrap(),
    ];
    link_list(&mut run);
    let before = walk(&[cell(&head), cell(&successor)], 0x100, 10);
    assert!(head.insert_list(&mut run).is_none());
    assert_eq!(head.next().address(), 0x200);
    assert_eq!(run[0].next().address(), 0x208);
    assert_eq!(run[1].next().address(), 0x210);
    assert_eq!(run[2].next().address(), 0x900);
    let mut memory = vec![cell(&head), cell(&successor)];
    memory.extend(run.iter().map(cell));
    let after = walk(&memory, 0x100, 10);
    assert_eq!(after, vec![0x100, 0x200, 0x208, 0x210, 0x900]);
    assert_eq!(after.len(), before.len() + run.len());
}

#[test]
fn insert_list_reports_the_tail_of_its_last_packet() {
    let mut head = Packet::empty(0x100).unwrap();
    let mut run = vec![Packet::empty(0x200).unwrap(), Packet::empty(0x204).unwrap()];
    let mut dangling = Packet::empty(0x700).unwrap();
    run[1].insert_packet(&mut dangling);
    let cut = head.insert_list(&mut run);
    assert_eq!(cut.map(|a| a.address()), Some(0x700));
    assert_eq!(head.next().address(), 0x200);
    assert!(run[1].next().is_terminator());
    assert!(run[0].next().is_terminator());
}

#[test]
fn link_list_chains_the_array_in_order() {
    for n in [0usize, 1, 2, 5, 64] {
        let mut list: Vec<Packet<u32>> =
            (0..n).map(|i| Packet::new(i as u32, 0x1000 + 8 * i as u32).unwrap()).collect();
        link_list(&mut list);
        for i in 0..n {
            let (next, size) = split_header(list[i].header());
            assert_eq!(size, 1);
            assert_eq!(*list[i].contents(), i as u32);
            if i + 1 < n {
                assert_eq!(next.address(), list[i + 1].address());
            } else {
                assert!(next.is_terminator());
            }
        }
        if n > 0 {
            let memory: Vec<(u32, u32)> = list.iter().map(cell).collect();
            let path = walk(&memory, list[0].address(), n + 1);
            let expected: Vec<u32> = (0..n).map(|i| 0x1000 + 8 * i as u32).collect();
            assert_eq!(path, expected);
        }
    }
}

#[test]
fn link_list_hands_the_old_successor_of_the_first_to_the_last() {
    let mut list = vec![
        Packet::empty(0x100).unwrap(),
        Packet::empty(0x104).unwrap(),
        Packet::empty(0x108).unwrap(),
    ];
    let mut outside = Packet::empty(0x800).unwrap();
    list[0].insert_packet(&mut outside);
    link_list(&mut list);
    assert_eq!(list[0].next().address(), 0x104);
    assert_eq!(list[1].next().address(), 0x108);
    assert_eq!(list[2].next().address(), 0x800);
}

#[test]
fn a_walk_through_a_fresh_table_visits_every_entry() {
    let table = OrderingTable::<16>::new(0x2_0000).unwrap();
    let memory: Vec<(u32, u32)> = (0..16).map(|i| cell(table.entry(i))).collect();
    let expected: Vec<u32> = (0..16).map(|i| 0x2_0000 + 4 * i).collect();
    assert_eq!(walk(&memory, table.address(), 100), expected);
}

#[test]
fn fresh_ordering_table_of_four_is_linked_to_the_sentinel() {
    let table = OrderingTable::<4>::new(0x8_0000).unwrap();
    for i in 0..4usize {
        let entry = table.entry(i);
        assert_eq!(entry.address(), 0x8_0000 + 4 * i as u32);
        assert_eq!(table.entry_address(i), 0x8_0000 + 4 * i as u32);
        let (next, size) = split_header(entry.header());
        assert_eq!(size, 0);
        if i < 3 {
            assert_eq!(next.address(), table.entry(i + 1).address());
        } else {
            assert!(next.is_terminator());
            assert_eq!(entry.header(), 0x00FF_FFFF);
        }
    }
    assert_eq!(table.address(), 0x8_0000);
}

#[test]
fn inserting_a_four_word_packet_at_index_two() {
    let mut table = OrderingTable::<4>::new(0x8_0000).unwrap();
    let before = table.entry(2).header();
    let mut packet = Packet::new([0xAAu32, 0xBB, 0xCC, 0xDD], 0x9_0000).unwrap();
    assert!(table.insert(2, &mut packet).is_none());
    let (next, size) = split_header(table.entry(2).header());
    assert_eq!(next.address(), 0x9_0000);
    assert_eq!(size, 0);
    assert_eq!(packet.header() & 0x00FF_FFFF, before & 0x00FF_FFFF);
    assert_eq!(packet.next().address(), 0x8_000C);
    assert_eq!(packet.header(), 0x0408_000C);
    assert_eq!(table.entry(0).next().address(), 0x8_0004);
    assert_eq!(table.entry(1).next().address(), 0x8_0008);
    assert!(table.entry(3).next().is_terminator());
}

#[test]
fn later_insertions_at_one_index_come_first() {
    let mut table = OrderingTable::<2>::new(0x100).unwrap();
    let mut first = Packet::new(1u32, 0x200).unwrap();
    let mut second = Packet::new(2u32, 0x300).unwrap();
    table.insert(0, &mut first);
    table.insert(0, &mut second);
    assert_eq!(table.entry(0).next().address(), 0x300);
    assert_eq!(second.next().address(), 0x200);
    assert_eq!(first.next().address(), 0x104);
}

#[test]
fn ordering_table_refuses_what_does_not_fit() {
    assert!(matches!(OrderingTable::<4>::new(0x8_0002), Err(Error::UnalignedAddress)));
    assert!(matches!(OrderingTable::<4>::new(0x100_0000), Err(Error::UnalignedAddress)));
    assert!(matches!(OrderingTable::<4>::new(0xFF_FFF4), Err(Error::UnalignedAddress)));
    assert!(OrderingTable::<4>::new(0xFF_FFF0).is_ok());
    assert!(matches!(OrderingTable::<0>::new(0x100), Err(Error::EmptyBlock)));
}

#[test]
fn ordering_table_function_builds_a_linked_run() {
    let table = ordering_table(0x400, 3).unwrap();
    assert_eq!(table.len(), 3);
    assert_eq!(table[0].header(), 0x0000_0404);
    assert_eq!(table[1].header(), 0x0000_0408);
    assert_eq!(table[2].header(), 0x00FF_FFFF);
    assert!(ordering_table(0x400, 0).unwrap().is_empty());
    assert!(matches!(ordering_table(0x401, 3), Err(Error::UnalignedAddress)));
    assert!(matches!(ordering_table(0xFF_FFFC, 2), Err(Error::UnalignedAddress)));
    assert!(ordering_table(0xFF_FFFC, 1).is_ok());
}

#[test]
fn a_packet_is_a_list_that_starts_at_itself() {
    let packet = Packet::new(9u32, 0x4_4440).unwrap();
    assert_eq!(LinkedList::address(&packet), 0x4_4440);
}

#[test]
fn double_packet_selects_by_the_swap_flag() {
    let one = Packet::new(1u32, 0x100).unwrap();
    let two = Packet::new(2u32, 0x200).unwrap();
    let mut pair = DoublePacket::new(one, two);
    assert_eq!(pair.deref(true).address(), 0x100);
    assert_eq!(pair.deref(false).address(), 0x200);
    let mut other = Packet::empty(0x300).unwrap();
    pair.deref_mut(true).insert_packet(&mut other);
    assert_eq!(pair.deref(true).next().address(), 0x300);
    assert!(pair.deref(false).next().is_terminator());
}

#[test]
fn a_table_is_walked_by_priority_whatever_the_order_of_insertion() {
    let mut table = OrderingTable::<4>::new(0x1000).unwrap();
    let mut low = Packet::new(1u32, 0x2000).unwrap();
    let mut high = Packet::new(2u32, 0x3000).unwrap();
    let mut middle = Packet::new(3u32, 0x4000).unwrap();
    let mut first = Packet::new(4u32, 0x5000).unwrap();
    table.insert(3, &mut high);
    table.insert(0, &mut low);
    table.insert(2, &mut middle);
    let mut memory: Vec<(u32, u32)> = (0..4).map(|i| cell(table.entry(i))).collect();
    memory.extend([cell(&low), cell(&high), cell(&middle), cell(&first)]);
    let before = walk(&memory, table.address(), 100);
    assert_eq!(before, vec![0x1000, 0x2000, 0x1004, 0x1008, 0x4000, 0x100C, 0x3000]);
    table.insert(1, &mut first);
    let mut memory: Vec<(u32, u32)> = (0..4).map(|i| cell(table.entry(i))).collect();
    memory.extend([cell(&low), cell(&high), cell(&middle), cell(&first)]);
    let after = walk(&memory, table.address(), 100);
    assert_eq!(after, vec![0x1000, 0x2000, 0x1004, 0x5000, 0x1008, 0x4000, 0x100C, 0x3000]);
    assert_eq!(after.len(), before.len() + 1);
}
