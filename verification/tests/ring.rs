use veddb_core::ring::mpmc::MpmcRingBuffer;
use veddb_core::ring::spsc::SpscRingBuffer;
use veddb_core::ring::{MpmcRing, Slot, SpscRing};

#[test]
fn test_slot_inline_data() {
    let data = b"hello";
    let slot = Slot::inline_data(data).unwrap();
    assert!(slot.is_inline());
    assert_eq!(slot.len, 5);
    assert_eq!(slot.get_inline_data().unwrap(), data.to_vec());
}

#[test]
fn test_slot_arena_offset() {
    let slot = Slot::arena_offset(100, 0x1000);
    assert!(!slot.is_inline());
    assert_eq!(slot.len, 100);
    assert_eq!(slot.get_arena_offset().unwrap(), 0x1000);
}

#[test]
fn test_slot_too_large_for_inline() {
    let data = b"this is too long for inline storage";
    assert!(Slot::inline_data(data).is_none());
}

#[test]
fn inline_bytes_are_packed_little_endian() {
    let slot = Slot::inline_data(&[1, 2, 3]).unwrap();
    assert_eq!(slot.data_or_offset, 0x030201);
    let full = Slot::inline_data(b"12345678").unwrap();
    assert_eq!(full.get_inline_data().unwrap(), b"12345678".to_vec());
    let empty = Slot::inline_data(&[]).unwrap();
    assert!(empty.is_empty());
    assert!(empty.get_inline_data().is_none());
    assert!(empty.get_arena_offset().is_none());
    assert!(Slot::empty().is_empty());
}

#[test]
fn test_spsc_basic_operations() {
    let mut ring_buf = SpscRingBuffer::new(8);
    let ring = ring_buf.ring_mut();

    assert!(ring.is_empty());
    assert!(!ring.is_full());
    assert_eq!(ring.capacity(), 8);

    let slot1 = Slot::inline_data(b"hello").unwrap();
    let slot2 = Slot::arena_offset(100, 0x1000);

    assert!(ring.try_push(slot1));
    assert!(ring.try_push(slot2));
    assert_eq!(ring.len(), 2);

    let popped1 = ring.try_pop().unwrap();
    let popped2 = ring.try_pop().unwrap();

    assert_eq!(popped1.get_inline_data().unwrap(), b"hello");
    assert_eq!(popped2.get_arena_offset().unwrap(), 0x1000);

    assert!(ring.is_empty());
    assert!(ring.try_pop().is_none());
}

#[test]
fn test_spsc_full_ring() {
    let mut ring_buf = SpscRingBuffer::new(4);
    let ring = ring_buf.ring_mut();
    let slot = Slot::inline_data(b"test").unwrap();

    for _ in 0..4 {
        assert!(ring.try_push(slot));
    }
    assert!(ring.is_full());
    assert!(!ring.try_push(slot));

    for _ in 0..4 {
        assert!(ring.try_pop().is_some());
    }
    assert!(ring.is_empty());
}

#[test]
fn spsc_is_fifo_across_wraparound() {
    let mut ring = SpscRing::init(4);
    let mut next = 0u64;
    let mut expect = 0u64;
    for round in 0..10u64 {
        for _ in 0..3 {
            ring.push(Slot::arena_offset(9, next));
            next += 1;
        }
        for _ in 0..3 {
            assert_eq!(ring.pop().get_arena_offset(), Some(expect));
            expect += 1;
        }
        assert_eq!(ring.len(), 0, "round {}", round);
    }
    assert_eq!(SpscRing::size_for_capacity(8), 192 + 8 * 16);
}

#[test]
fn test_mpmc_basic_operations() {
    let mut ring_buf = MpmcRingBuffer::new(8);
    let ring = ring_buf.ring_mut();

    assert!(ring.is_empty());
    assert_eq!(ring.capacity(), 8);

    let slot1 = Slot::inline_data(b"hello").unwrap();
    let slot2 = Slot::arena_offset(100, 0x1000);

    assert!(ring.try_push(slot1));
    assert!(ring.try_push(slot2));

    let popped1 = ring.try_pop().unwrap();
    let popped2 = ring.try_pop().unwrap();

    assert_eq!(popped1.get_inline_data().unwrap(), b"hello");
    assert_eq!(popped2.get_arena_offset().unwrap(), 0x1000);

    assert!(ring.try_pop().is_none());
}

#[test]
fn mpmc_first_lap_is_fifo() {
    let mut ring = MpmcRing::init(1024);
    for i in 0..1000u64 {
        ring.push(Slot::arena_offset(100, i));
    }
    assert_eq!(ring.len(), 1000);
    assert_eq!(ring.head(), 1000);
    for i in 0..1000u64 {
        assert_eq!(ring.pop().get_arena_offset(), Some(i));
    }
    assert_eq!(MpmcRing::size_for_capacity(8), 192 + 8 * 24);
}

#[test]
fn mpmc_reuses_positions_on_every_lap() {
    let mut ring = MpmcRing::init(2);
    ring.push(Slot::arena_offset(100, 1));
    assert_eq!(ring.pop().get_arena_offset(), Some(1));
    ring.push(Slot::arena_offset(100, 2));
    assert_eq!(ring.pop().get_arena_offset(), Some(2));
    ring.push(Slot::arena_offset(100, 3));
    assert_eq!(ring.pop().get_arena_offset(), Some(3));
    for lap in 0..50u64 {
        assert!(ring.try_push(Slot::arena_offset(10, 2 * lap)));
        assert!(ring.try_push(Slot::arena_offset(10, 2 * lap + 1)));
        assert!(!ring.try_push(Slot::arena_offset(10, 999)));
        assert_eq!(ring.len(), 2);
        assert_eq!(ring.try_pop().unwrap().get_arena_offset(), Some(2 * lap));
        assert_eq!(ring.try_pop().unwrap().get_arena_offset(), Some(2 * lap + 1));
        assert!(ring.try_pop().is_none());
    }
}

#[test]
fn mpmc_refused_push_and_failed_pop_change_nothing() {
    let mut ring_buf = MpmcRingBuffer::new(8);
    let ring = ring_buf.ring_mut();
    assert!(ring.try_pop().is_none());
    assert!(ring.try_push(Slot::arena_offset(100, 0x1000)));
    assert!(!ring.is_empty());
    assert_eq!(ring.len(), 1);
    assert_eq!(ring.try_pop().unwrap().get_arena_offset(), Some(0x1000));

    let mut small = MpmcRing::init(2);
    let s = Slot::arena_offset(100, 7);
    assert!(small.try_push(s));
    assert!(small.try_push(s));
    assert!(!small.try_push(s));
    assert_eq!(small.len(), 2);
    assert!(small.is_full());
    assert_eq!(small.head(), 2);
}

#[test]
fn mpmc_of_one_position() {
    let mut ring = MpmcRing::init(1);
    assert!(ring.try_push(Slot::arena_offset(1, 10)));
    assert!(!ring.try_push(Slot::arena_offset(1, 11)));
    assert_eq!(ring.try_pop().unwrap().get_arena_offset(), Some(10));
    assert!(ring.try_push(Slot::arena_offset(1, 12)));
    assert_eq!(ring.try_pop().unwrap().get_arena_offset(), Some(12));
}

#[test]
fn arena_slots_keep_their_offset_at_any_length() {
    for len in 0..20u32 {
        let slot = Slot::arena_offset(len, 5 + len as u64);
        assert_eq!(slot.get_arena_offset(), Some(5 + len as u64));
        assert!(!slot.is_inline());
        assert!(slot.get_inline_data().is_none());
    }
    let mut ring = MpmcRing::init(1024);
    for i in 0..1000u64 {
        ring.push(Slot::arena_offset(i as u32, i));
    }
    let mut received = Vec::new();
    for _ in 0..1000 {
        if let Some(offset) = ring.pop().get_arena_offset() {
            received.push(offset);
        }
    }
    assert_eq!(received, (0..1000u64).collect::<Vec<u64>>());
}
