use dictatord::ring_buffer::RingBuffer;

#[test]
fn new_buffer_is_empty() {
    let rb = RingBuffer::new(4);
    assert_eq!(rb.capacity(), 4);
    assert_eq!(rb.snapshot(10), Vec::<i16>::new());
}

#[test]
fn snapshot_before_wrap_returns_most_recent() {
    let mut rb = RingBuffer::new(5);
    rb.push(&[1, 2, 3]);
    assert_eq!(rb.snapshot(10), vec![1, 2, 3]);
    assert_eq!(rb.snapshot(2), vec![2, 3]);
    assert_eq!(rb.snapshot(0), Vec::<i16>::new());
}

#[test]
fn snapshot_after_wrap_keeps_last_capacity() {
    let mut rb = RingBuffer::new(4);
    rb.push(&[1, 2, 3, 4, 5, 6]);
    assert_eq!(rb.snapshot(4), vec![3, 4, 5, 6]);
    assert_eq!(rb.snapshot(100), vec![3, 4, 5, 6]);
    assert_eq!(rb.snapshot(3), vec![4, 5, 6]);
    assert_eq!(rb.snapshot(1), vec![6]);
}

#[test]
fn exactly_full_buffer() {
    let mut rb = RingBuffer::new(3);
    rb.push(&[7, 8, 9]);
    assert_eq!(rb.snapshot(3), vec![7, 8, 9]);
    rb.push(&[10]);
    assert_eq!(rb.snapshot(3), vec![8, 9, 10]);
}

#[test]
fn pushing_in_chunks_equals_pushing_at_once() {
    let all: Vec<i16> = (0..23).collect();
    let mut whole = RingBuffer::new(7);
    whole.push(&all);
    let mut parts = RingBuffer::new(7);
    parts.push(&all[0..5]);
    parts.push(&all[5..6]);
    parts.push(&all[6..17]);
    parts.push(&all[17..23]);
    for n in 0..9 {
        assert_eq!(whole.snapshot(n), parts.snapshot(n));
    }
    assert_eq!(whole.snapshot(7), vec![16, 17, 18, 19, 20, 21, 22]);
}

#[test]
fn zero_capacity_buffer_takes_empty_chunks() {
    let mut rb = RingBuffer::new(0);
    rb.push(&[]);
    assert_eq!(rb.snapshot(5), Vec::<i16>::new());
}

#[test]
fn many_wraps_keep_order() {
    let mut rb = RingBuffer::new(3);
    for i in 0..100i16 {
        rb.push(&[i]);
    }
    assert_eq!(rb.snapshot(3), vec![97, 98, 99]);
    assert_eq!(rb.snapshot(2), vec![98, 99]);
}
