use cosmic_crunchers::input::{InputBuffer, InputData, INPUT_BUFFER_CAPACITY};

fn frame(sequence: u32, thrust: f32) -> InputData {
    InputData {
        sequence,
        timestamp: 1_000 + sequence as u64,
        thrust: thrust.to_bits(),
        turn: 0.0f32.to_bits(),
        primary_fire: false,
        secondary_fire: false,
    }
}

fn sequences(buffer: &InputBuffer) -> Vec<u32> {
    buffer.buffer.iter().map(|input| input.sequence).collect()
}

#[test]
fn default_input_is_neutral() {
    let input = InputData::default();
    assert_eq!(input.sequence, 0);
    assert_eq!(input.timestamp, 0);
    assert_eq!(f32::from_bits(input.thrust), 0.0);
    assert_eq!(f32::from_bits(input.turn), 0.0);
    assert!(!input.primary_fire);
    assert!(!input.secondary_fire);
}

#[test]
fn default_buffer_is_empty_with_capacity_sixty() {
    let buffer = InputBuffer::default();
    assert!(buffer.buffer.is_empty());
    assert_eq!(buffer.last_processed_sequence, 0);
    assert_eq!(buffer.max_buffer_size, 60);
    assert_eq!(INPUT_BUFFER_CAPACITY, 60);
}

#[test]
fn add_input_orders_by_sequence() {
    let mut buffer = InputBuffer::default();
    for sequence in [3, 1, 2, 5, 4] {
        buffer.add_input(frame(sequence, 0.0));
    }
    assert_eq!(sequences(&buffer), vec![1, 2, 3, 4, 5]);
}

#[test]
fn add_input_puts_equal_sequence_before_the_older_frame() {
    let mut buffer = InputBuffer::default();
    buffer.add_input(frame(1, 0.1));
    buffer.add_input(frame(2, 0.2));
    buffer.add_input(frame(2, 0.9));
    assert_eq!(sequences(&buffer), vec![1, 2, 2]);
    assert_eq!(f32::from_bits(buffer.buffer[1].thrust), 0.9);
    assert_eq!(f32::from_bits(buffer.buffer[2].thrust), 0.2);
}

#[test]
fn add_input_drops_lowest_sequence_beyond_capacity() {
    let mut buffer = InputBuffer::default();
    for sequence in 1..=61 {
        buffer.add_input(frame(sequence, 0.0));
        assert!(buffer.buffer.len() <= buffer.max_buffer_size);
    }
    assert_eq!(buffer.buffer.len(), 60);
    assert_eq!(buffer.buffer.front().unwrap().sequence, 2);
    assert_eq!(buffer.buffer.back().unwrap().sequence, 61);
}

#[test]
fn add_input_below_a_full_buffer_is_dropped_again() {
    let mut buffer = InputBuffer::default();
    buffer.max_buffer_size = 3;
    for sequence in [10, 11, 12] {
        buffer.add_input(frame(sequence, 0.0));
    }
    buffer.add_input(frame(5, 0.0));
    assert_eq!(sequences(&buffer), vec![10, 11, 12]);
}

#[test]
fn add_input_with_capacity_zero_keeps_nothing() {
    let mut buffer = InputBuffer::default();
    buffer.max_buffer_size = 0;
    buffer.add_input(frame(1, 0.0));
    assert!(buffer.buffer.is_empty());
}

#[test]
fn get_next_input_hands_out_in_order_only() {
    let mut buffer = InputBuffer::default();
    buffer.add_input(frame(1, 0.1));
    buffer.add_input(frame(2, 0.2));
    buffer.add_input(frame(4, 0.4));
    assert_eq!(buffer.get_next_input(), Some(frame(1, 0.1)));
    assert_eq!(buffer.last_processed_sequence, 1);
    assert_eq!(buffer.get_next_input(), Some(frame(2, 0.2)));
    assert_eq!(buffer.last_processed_sequence, 2);
    assert_eq!(buffer.get_next_input(), None);
    assert_eq!(buffer.last_processed_sequence, 2);
    assert_eq!(sequences(&buffer), vec![4]);
}

#[test]
fn get_next_input_on_empty_buffer_is_none() {
    let mut buffer = InputBuffer::default();
    assert_eq!(buffer.get_next_input(), None);
    assert_eq!(buffer.last_processed_sequence, 0);
}

#[test]
fn get_next_input_never_follows_the_highest_sequence() {
    let mut buffer = InputBuffer::default();
    buffer.last_processed_sequence = u32::MAX;
    buffer.add_input(frame(0, 0.0));
    assert_eq!(buffer.get_next_input(), None);
    assert_eq!(buffer.last_processed_sequence, u32::MAX);
    assert_eq!(sequences(&buffer), vec![0]);
}

#[test]
fn last_processed_sequence_never_goes_down() {
    let mut buffer = InputBuffer::default();
    let mut last = buffer.last_processed_sequence;
    for sequence in [2, 1, 3, 7, 4, 5, 6] {
        buffer.add_input(frame(sequence, 0.0));
        assert!(buffer.last_processed_sequence >= last);
        last = buffer.last_processed_sequence;
        buffer.get_next_input();
        assert!(buffer.last_processed_sequence >= last);
        last = buffer.last_processed_sequence;
    }
    buffer.clear_old_inputs(100);
    assert!(buffer.last_processed_sequence >= last);
}

#[test]
fn clear_old_inputs_drops_stale_heads() {
    let mut buffer = InputBuffer::default();
    for sequence in [1, 2, 3, 4, 5] {
        buffer.add_input(frame(sequence, 0.0));
    }
    buffer.clear_old_inputs(3);
    assert_eq!(sequences(&buffer), vec![3, 4, 5]);
    buffer.clear_old_inputs(3);
    assert_eq!(sequences(&buffer), vec![3, 4, 5]);
    buffer.clear_old_inputs(9);
    assert!(buffer.buffer.is_empty());
    assert_eq!(buffer.last_processed_sequence, 0);
}

#[test]
fn clear_old_inputs_stops_at_the_first_fresh_head() {
    let mut buffer = InputBuffer::default();
    buffer.buffer.push_back(frame(1, 0.0));
    buffer.buffer.push_back(frame(8, 0.0));
    buffer.buffer.push_back(frame(2, 0.0));
    buffer.clear_old_inputs(5);
    assert_eq!(sequences(&buffer), vec![8, 2]);
}

#[test]
fn keep_latest_keeps_the_newest_readable_frame() {
    let mut buffer = InputBuffer::default();
    buffer.last_processed_sequence = 4;
    buffer.add_input(frame(5, 0.2));
    buffer.add_input(frame(6, 0.5));
    buffer.add_input(frame(7, 1.0));
    let discarded = buffer.keep_latest();
    assert_eq!(discarded, 2);
    assert_eq!(buffer.last_processed_sequence, 7);
    assert_eq!(buffer.buffer.len(), 1);
    assert_eq!(buffer.pending(), Some(frame(7, 1.0)));
    assert_eq!(f32::from_bits(buffer.pending().unwrap().thrust), 1.0);
}

#[test]
fn keep_latest_stops_at_a_gap_and_drops_what_lies_behind_it() {
    let mut buffer = InputBuffer::default();
    buffer.add_input(frame(1, 0.1));
    buffer.add_input(frame(2, 0.2));
    buffer.add_input(frame(9, 0.9));
    assert_eq!(buffer.keep_latest(), 1);
    assert_eq!(sequences(&buffer), vec![2]);
    assert_eq!(buffer.last_processed_sequence, 2);
}

#[test]
fn keep_latest_leaves_an_unreadable_buffer_alone() {
    let mut buffer = InputBuffer::default();
    buffer.add_input(frame(3, 0.3));
    buffer.add_input(frame(4, 0.4));
    assert_eq!(buffer.keep_latest(), 0);
    assert_eq!(sequences(&buffer), vec![3, 4]);
    assert_eq!(buffer.last_processed_sequence, 0);
}

#[test]
fn keep_latest_twice_changes_nothing_more() {
    let mut buffer = InputBuffer::default();
    buffer.add_input(frame(1, 0.1));
    buffer.add_input(frame(2, 0.2));
    assert_eq!(buffer.keep_latest(), 1);
    assert_eq!(buffer.keep_latest(), 0);
    assert_eq!(sequences(&buffer), vec![2]);
    assert_eq!(buffer.last_processed_sequence, 2);
}

#[test]
fn take_pending_hands_out_the_newest_and_empties() {
    let mut buffer = InputBuffer::default();
    assert_eq!(buffer.take_pending(), None);
    buffer.add_input(frame(1, 0.1));
    buffer.add_input(frame(2, 0.2));
    assert_eq!(buffer.pending(), Some(frame(2, 0.2)));
    assert_eq!(buffer.take_pending(), Some(frame(2, 0.2)));
    assert!(buffer.buffer.is_empty());
    assert_eq!(buffer.take_pending(), None);
    assert_eq!(buffer.last_processed_sequence, 0);
    assert_eq!(buffer.max_buffer_size, 60);
}
