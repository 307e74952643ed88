use hooch::utils::ring_buffer::LockFreeBoundedRingBuffer;

#[test]
fn new_buffer_is_empty() {
    let mut ring: LockFreeBoundedRingBuffer<u32> = LockFreeBoundedRingBuffer::new(3);
    assert_eq!(ring.capacity(), 3);
    assert_eq!(ring.len(), 0);
    assert!(ring.is_empty());
    assert_eq!(ring.pop(), None);
}

#[test]
fn elements_come_out_in_order_across_the_wrap() {
    let mut ring = LockFreeBoundedRingBuffer::new(3);
    ring.push(1).unwrap();
    ring.push(2).unwrap();
    assert_eq!(ring.pop(), Some(1));
    ring.push(3).unwrap();
    ring.push(4).unwrap();
    assert_eq!(ring.len(), 3);
    assert_eq!(ring.pop(), Some(2));
    assert_eq!(ring.pop(), Some(3));
    assert_eq!(ring.pop(), Some(4));
    assert_eq!(ring.pop(), None);
    assert!(ring.is_empty());
}

#[test]
fn full_buffer_refuses() {
    let mut ring = LockFreeBoundedRingBuffer::new(2);
    assert_eq!(ring.push('a'), Ok(()));
    assert_eq!(ring.push('b'), Ok(()));
    assert_eq!(ring.push('c'), Err("Buffer is full!".to_string()));
    assert_eq!(ring.len(), 2);
    assert_eq!(ring.pop(), Some('a'));
    assert_eq!(ring.push('c'), Ok(()));
    assert_eq!(ring.pop(), Some('b'));
    assert_eq!(ring.pop(), Some('c'));
}

#[test]
fn buffer_without_slots_holds_nothing() {
    let mut ring = LockFreeBoundedRingBuffer::new(0);
    assert_eq!(ring.capacity(), 0);
    assert_eq!(ring.push(1), Err("Buffer is full!".to_string()));
    assert_eq!(ring.pop(), None);
}

#[test]
fn insert_value_exchanges_the_element_in_the_slot() {
    let mut ring = LockFreeBoundedRingBuffer::new(3);
    ring.push(10).unwrap();
    ring.push(20).unwrap();
    ring.insert_value(1, 21);
    ring.insert_value(2, 99);
    assert_eq!(ring.len(), 2);
    assert_eq!(ring.pop(), Some(10));
    assert_eq!(ring.pop(), Some(21));
    assert_eq!(ring.pop(), None);
}

#[test]
fn default_buffer_has_a_mebi_of_slots() {
    let ring: LockFreeBoundedRingBuffer<u8> = LockFreeBoundedRingBuffer::default();
    assert_eq!(ring.capacity(), 1024 * 1024);
    assert!(ring.is_empty());
}

#[test]
fn elements_of_size_zero_take_no_room() {
    let mut ring = LockFreeBoundedRingBuffer::new(3);
    assert_eq!(ring.capacity(), usize::MAX);
    for _ in 0..5 {
        assert_eq!(ring.push(()), Ok(()));
    }
    assert_eq!(ring.len(), 5);
    ring.insert_value(1_000_000, ());
    assert_eq!(ring.len(), 5);
    for _ in 0..5 {
        assert_eq!(ring.pop(), Some(()));
    }
    assert_eq!(ring.pop(), None);
}

#[test]
fn what_was_put_into_a_slot_comes_out_of_it() {
    let mut ring = LockFreeBoundedRingBuffer::new(4);
    for element in ["a", "b", "c"] {
        ring.push(element).unwrap();
    }
    ring.insert_value(0, "z");
    assert_eq!((ring.len(), ring.capacity()), (3, 4));
    assert_eq!(ring.pop(), Some("z"));
    assert_eq!(ring.capacity(), 4);
    assert_eq!(ring.pop(), Some("b"));
    assert_eq!(ring.pop(), Some("c"));
}
