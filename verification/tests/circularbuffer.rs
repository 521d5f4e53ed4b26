use midimaxe::circularbuffer::CircularBuffer;

#[test]
fn test_cb() {
    let mut cb = CircularBuffer::<i32>::new(3);
    assert!(!cb.is_full());
    cb.add(5);
    cb.add(7);
    cb.add(9);
    assert!(cb.is_full());
    assert!(cb.get_buf().iter().eq([5, 7, 9].iter()));
    cb.add(11);
    assert!(cb.get_buf().iter().eq([7, 9, 11].iter()));
}

#[test]
fn test_resize() {
    let mut cb = CircularBuffer::<i32>::new(3);
    cb.add(1);
    cb.add(2);
    cb.add(3);
    cb.add(4);
    cb.add(5);
    assert!(cb.get_buf().iter().eq([3, 4, 5].iter()));
    cb.resize(4);
    cb.add(6);
    assert!(cb.get_buf().iter().eq([3, 4, 5, 6].iter()));
    cb.resize(2);
    assert!(cb.get_buf().iter().eq([5, 6].iter()));
}

#[test]
fn test_fifo_overflow_keeps_newest() {
    let mut cb = CircularBuffer::<u64>::new(2);
    for v in 0..10u64 {
        cb.add(v);
    }
    assert!(cb.get_buf().iter().eq([8, 9].iter()));
    assert_eq!(cb.capacity(), 2);
    assert!(cb.is_full());
}

#[test]
fn test_clear_and_zero_capacity() {
    let mut cb = CircularBuffer::<u8>::new(0);
    cb.add(1);
    assert_eq!(cb.get_buf().len(), 0);
    let mut cb2 = CircularBuffer::<u8>::new(2);
    cb2.add(1);
    cb2.add(2);
    cb2.clear();
    assert_eq!(cb2.get_buf().len(), 0);
    assert_eq!(cb2.capacity(), 2);
}
