use history_buffer::HistoryBuffer;

#[test]
fn writes_under_capacity_return_nothing() {
    let mut b: HistoryBuffer<i32> = HistoryBuffer::new(4);
    assert_eq!(b.write(10), None);
    assert_eq!(b.write(20), None);
    assert_eq!(b.write(30), None);
    assert_eq!(b.len(), 3);
    assert!(!b.is_full());
    assert!(!b.is_empty());
}

#[test]
fn full_exactly_at_capacity_write() {
    let mut b: HistoryBuffer<i32> = HistoryBuffer::new(3);
    b.write(1);
    assert!(!b.is_full());
    b.write(2);
    assert!(!b.is_full());
    b.write(3);
    assert!(b.is_full());
    assert_eq!(b.len(), b.max_len());
}

#[test]
fn displacement_is_fifo() {
    let mut b: HistoryBuffer<i32> = HistoryBuffer::new(3);
    assert_eq!(b.write(1), None);
    assert_eq!(b.write(2), None);
    assert_eq!(b.write(3), None);
    assert_eq!(b.write(4), Some(1));
    assert_eq!(b.write(5), Some(2));
    assert_eq!(b.write(6), Some(3));
    assert_eq!(b.write(7), Some(4));
}

#[test]
fn most_recent_is_last_write() {
    let mut b: HistoryBuffer<i32> = HistoryBuffer::new(3);
    for i in 0..10 {
        b.write(i);
        assert_eq!(b.most_recent(), Some(&i));
    }
}

#[test]
fn chronological_order_under_capacity() {
    let mut b: HistoryBuffer<char> = HistoryBuffer::new(5);
    b.write('a');
    b.write('b');
    b.write('c');
    let mut it = b.all();
    assert_eq!(it.next(), Some(&'a'));
    assert_eq!(it.next(), Some(&'b'));
    assert_eq!(it.next(), Some(&'c'));
    assert_eq!(it.next(), None);
}

#[test]
fn chronological_order_after_wraparound() {
    let mut b: HistoryBuffer<i32> = HistoryBuffer::new(3);
    for i in 1..=5 {
        b.write(i);
    }
    let mut it = b.all();
    assert_eq!(it.next(), Some(&3));
    assert_eq!(it.next(), Some(&4));
    assert_eq!(it.next(), Some(&5));
    assert_eq!(it.next(), None);
}

#[test]
fn double_ended_traversal_is_consistent() {
    let mut b: HistoryBuffer<i32> = HistoryBuffer::new(4);
    for i in 1..=6 {
        b.write(i);
    }
    let mut forward = Vec::new();
    let mut it = b.all();
    while let Some(x) = it.next() {
        forward.push(*x);
    }
    let mut backward = Vec::new();
    let mut it = b.all();
    while let Some(x) = it.next_back() {
        backward.push(*x);
    }
    backward.reverse();
    assert_eq!(forward, backward);
    assert_eq!(forward, vec![3, 4, 5, 6]);
}

#[test]
fn double_ended_traversal_meets_in_middle() {
    let mut b: HistoryBuffer<i32> = HistoryBuffer::new(3);
    for i in 1..=4 {
        b.write(i);
    }
    let mut it = b.all();
    assert_eq!(it.next(), Some(&2));
    assert_eq!(it.next_back(), Some(&4));
    assert_eq!(it.next(), Some(&3));
    assert_eq!(it.next(), None);
    assert_eq!(it.next_back(), None);
}

#[test]
fn clear_resets_and_write_restarts_fresh() {
    let mut b: HistoryBuffer<i32> = HistoryBuffer::new(3);
    b.write(1);
    b.write(2);
    b.write(3);
    b.write(4);
    b.clear();
    assert_eq!(b.len(), 0);
    assert!(b.is_empty());
    assert_eq!(b.duration_since_last_measurement(), None);
    assert_eq!(b.write(5), None);
    assert_eq!(b.most_recent(), Some(&5));
    let mut it = b.all();
    assert_eq!(it.next(), Some(&5));
    assert_eq!(it.next(), None);
}

#[test]
fn scenario_four_writes_into_three_slots() {
    let mut b: HistoryBuffer<char> = HistoryBuffer::new(3);
    assert_eq!(b.write('A'), None);
    assert_eq!(b.write('B'), None);
    assert_eq!(b.write('C'), None);
    assert_eq!(b.write('D'), Some('A'));
    let mut it = b.all();
    assert_eq!(it.next(), Some(&'B'));
    assert_eq!(it.next(), Some(&'C'));
    assert_eq!(it.next(), Some(&'D'));
    assert_eq!(it.next(), None);
    assert_eq!(b.most_recent(), Some(&'D'));
    assert_eq!(b.len(), 3);
    assert!(b.is_full());
}

#[test]
fn scenario_untouched_buffer() {
    let b: HistoryBuffer<char> = HistoryBuffer::new(3);
    assert!(b.is_empty());
    assert_eq!(b.most_recent(), None);
    let mut it = b.all();
    assert_eq!(it.next(), None);
    assert_eq!(it.next_back(), None);
    assert_eq!(b.duration_since_last_measurement(), None);
}

#[test]
fn scenario_write_clear_write() {
    let mut b: HistoryBuffer<char> = HistoryBuffer::new(3);
    b.write('A');
    b.clear();
    assert!(b.is_empty());
    assert_eq!(b.len(), 0);
    b.write('B');
    assert_eq!(b.most_recent(), Some(&'B'));
    let mut it = b.all();
    assert_eq!(it.next(), Some(&'B'));
    assert_eq!(it.next(), None);
}

#[test]
fn max_len_is_constant() {
    let mut b: HistoryBuffer<u8> = HistoryBuffer::new(4);
    assert_eq!(b.max_len(), 4);
    for i in 0..9 {
        b.write(i);
    }
    assert_eq!(b.max_len(), 4);
    b.clear();
    assert_eq!(b.max_len(), 4);
}

#[test]
fn zero_capacity_rejects_every_write() {
    let mut b: HistoryBuffer<i32> = HistoryBuffer::new(0);
    assert!(b.is_empty());
    assert!(b.is_full());
    assert_eq!(b.write(1), Some(1));
    assert_eq!(b.write(2), Some(2));
    assert_eq!(b.len(), 0);
    assert_eq!(b.most_recent(), None);
    assert_eq!(b.duration_since_last_measurement(), None);
}

#[test]
fn unsorted_view_shows_physical_slots() {
    let mut b: HistoryBuffer<i32> = HistoryBuffer::new(3);
    for i in 1..=4 {
        b.write(i);
    }
    assert_eq!(b.all_unsorted().to_vec(), vec![4, 2, 3]);
    let mut g: HistoryBuffer<i32> = HistoryBuffer::new(3);
    g.write(1);
    g.write(2);
    assert_eq!(g.all_unsorted().to_vec(), vec![1, 2]);
}

#[test]
fn duration_reported_only_with_data() {
    let mut b: HistoryBuffer<i32> = HistoryBuffer::new(2);
    assert_eq!(b.duration_since_last_measurement(), None);
    b.write(1);
    assert!(b.duration_since_last_measurement().is_some());
    b.clear();
    assert_eq!(b.duration_since_last_measurement(), None);
}
