use termviz::tui::history::HistoryBuffer;

#[test]
fn new_buffer_is_empty() {
    let buffer: HistoryBuffer<i64> = HistoryBuffer::new(10);
    assert_eq!(buffer.len(), 0);
    assert_eq!(buffer.capacity(), 10);
    assert_eq!(buffer.snapshot(), Vec::<i64>::new());
}

#[test]
fn buffer_below_capacity_keeps_everything_in_order() {
    let mut buffer = HistoryBuffer::new(5);
    buffer.push(30);
    buffer.push(-10);
    buffer.push(20);
    assert_eq!(buffer.snapshot(), vec![30, -10, 20]);
    assert_eq!(buffer.len(), 3);
}

#[test]
fn buffer_keeps_the_last_k_values() {
    let mut buffer = HistoryBuffer::new(3);
    for v in 1..=5 {
        buffer.push(v);
    }
    assert_eq!(buffer.snapshot(), vec![3, 4, 5]);
    assert_eq!(buffer.len(), 3);
    assert_eq!(buffer.capacity(), 3);
}

#[test]
fn buffer_at_exact_capacity_evicts_only_on_the_next_push() {
    let mut buffer = HistoryBuffer::new(2);
    buffer.push(7);
    buffer.push(8);
    assert_eq!(buffer.snapshot(), vec![7, 8]);
    buffer.push(9);
    assert_eq!(buffer.snapshot(), vec![8, 9]);
}

#[test]
fn buffer_of_capacity_zero_stays_empty() {
    let mut buffer: HistoryBuffer<i64> = HistoryBuffer::new(0);
    buffer.push(1);
    buffer.push(2);
    assert_eq!(buffer.len(), 0);
    assert_eq!(buffer.snapshot(), Vec::<i64>::new());
}

#[test]
fn snapshot_length_is_min_of_capacity_and_pushes() {
    for capacity in 0..6usize {
        let mut buffer = HistoryBuffer::new(capacity);
        let mut pushed: Vec<i64> = Vec::new();
        for n in 0..12i64 {
            buffer.push(n * n - 20);
            pushed.push(n * n - 20);
            let keep = capacity.min(pushed.len());
            assert_eq!(buffer.snapshot(), pushed[pushed.len() - keep..].to_vec());
        }
    }
}

#[test]
fn snapshot_is_a_copy() {
    let mut buffer = HistoryBuffer::new(4);
    buffer.push(1);
    let before = buffer.snapshot();
    buffer.push(2);
    assert_eq!(before, vec![1]);
    assert_eq!(buffer.snapshot(), vec![1, 2]);
}

#[test]
fn buffer_holds_any_float() {
    let mut buffer: HistoryBuffer<f64> = HistoryBuffer::new(3);
    for v in [1.5, f64::NAN, -2.0, f64::INFINITY] {
        buffer.push(v);
    }
    let kept = buffer.snapshot();
    assert_eq!(kept.len(), 3);
    assert!(kept[0].is_nan());
    assert_eq!(kept[1], -2.0);
    assert_eq!(kept[2], f64::INFINITY);
}
