use cbuffer::{
    action_matches, match_char, state_is, validate_config, Action, ChunkRing, ConfigError,
    Recorder, RingError, State, Step, BUFSIZE, fill_parts, size_parts, time_parts, Size, SEGLEN,
};
use std::sync::{Arc, Mutex};

/// A stream of bytes that never repeats within a short window.
fn stream_byte(pos: usize) -> u8 {
    (pos % 251) as u8
}

fn chunk_at(index: usize) -> Vec<u8> {
    (0..BUFSIZE).map(|j| stream_byte(index * BUFSIZE + j)).collect()
}

fn setup(bitrate: usize, seconds: usize) -> (Recorder, State) {
    let config = validate_config(bitrate, seconds).unwrap();
    (
        Recorder::new(config),
        State::new(config.byte_rate, config.seconds),
    )
}

#[test]
fn config_scenario_sizes() {
    let config = validate_config(16000 * 8, 5).unwrap();
    assert_eq!(config.byte_rate, 16000);
    assert_eq!(config.seconds, 5);
    assert_eq!(config.capacity, 79);
    assert_eq!(config.offset, 896);
}

#[test]
fn config_exact_multiple_has_no_offset() {
    let config = validate_config(1024 * 8, 4).unwrap();
    assert_eq!(config.capacity, 4);
    assert_eq!(config.offset, 0);
}

#[test]
fn config_rate_too_low() {
    assert_eq!(validate_config(8191, 5), Err(ConfigError::RateTooLow));
    assert!(validate_config(8192, 5).is_ok());
}

#[test]
fn config_window_too_short() {
    assert_eq!(validate_config(128000, 1), Err(ConfigError::WindowTooShort));
    assert_eq!(validate_config(128000, 0), Err(ConfigError::WindowTooShort));
}

#[test]
fn config_window_too_large() {
    assert_eq!(validate_config(usize::MAX, 16), Err(ConfigError::WindowTooLarge));
    assert_eq!(validate_config(usize::MAX, 9), Err(ConfigError::WindowTooLarge));
}

#[test]
fn ring_keeps_latest_chunks_in_order() {
    let mut ring = ChunkRing::new(3);
    for i in 0..7u8 {
        ring.push(vec![i]);
    }
    assert_eq!(ring.len(), 3);
    assert_eq!(ring.capacity(), 3);
    assert!(ring.is_full());
    assert_eq!(ring.pop(), Ok(vec![4]));
    assert_eq!(ring.pop(), Ok(vec![5]));
    assert!(ring.peek_has_more());
    assert_eq!(ring.pop(), Ok(vec![6]));
    assert!(!ring.peek_has_more());
    assert_eq!(ring.pop(), Err(RingError::EmptyBuffer));
}

#[test]
fn ring_under_capacity_keeps_everything() {
    let mut ring = ChunkRing::new(5);
    ring.push(vec![1, 2]);
    ring.push(vec![3]);
    assert_eq!(ring.len(), 2);
    assert!(!ring.is_full());
    assert_eq!(ring.pop(), Ok(vec![1, 2]));
    assert_eq!(ring.pop(), Ok(vec![3]));
}

#[test]
fn buffered_follows_ring_with_trim_when_full() {
    let (mut rec, mut state) = setup(16000 * 8, 5);
    for i in 0..78 {
        rec.push_chunk(&mut state, chunk_at(i));
        assert_eq!(state.buffered, (i + 1) * BUFSIZE);
    }
    rec.push_chunk(&mut state, chunk_at(78));
    assert_eq!(state.buffered, 79 * 1024 - 896);
    rec.push_chunk(&mut state, chunk_at(79));
    assert_eq!(state.buffered, 80000);
    assert_eq!(state.written, 0);
}

#[test]
fn scenario_full_ring_drain_is_trimmed() {
    let (mut rec, mut state) = setup(16000 * 8, 5);
    for i in 0..79 {
        rec.push_chunk(&mut state, chunk_at(i));
    }
    state.set_mode(Action::Record);
    assert_eq!(rec.next_step(state.action), Step::Drain);
    let out = rec.drain(&mut state);
    assert_eq!(out.len(), 80000);
    assert_eq!(state.written, 80000);
    assert_eq!(state.buffered, 0);
    // the last 80000 bytes of the 80896 read
    for (k, b) in out.iter().enumerate() {
        assert_eq!(*b, stream_byte(896 + k));
    }
    assert_eq!(rec.next_step(state.action), Step::ReadAny);
}

#[test]
fn drain_after_overflowing_ring_sends_last_window() {
    let (mut rec, mut state) = setup(16000 * 8, 5);
    for i in 0..200 {
        rec.push_chunk(&mut state, chunk_at(i));
    }
    state.set_mode(Action::Record);
    let out = rec.drain(&mut state);
    let total = 200 * BUFSIZE;
    assert_eq!(out.len(), 80000);
    for (k, b) in out.iter().enumerate() {
        assert_eq!(*b, stream_byte(total - 80000 + k));
    }
}

#[test]
fn scenario_partial_ring_drain_is_untrimmed() {
    let (mut rec, mut state) = setup(16000 * 8, 5);
    for i in 0..10 {
        rec.push_chunk(&mut state, chunk_at(i));
    }
    assert_eq!(state.buffered, 10240);
    state.set_mode(Action::Record);
    let out = rec.drain(&mut state);
    assert_eq!(out.len(), 10240);
    assert_eq!(state.written, 10240);
    assert_eq!(state.buffered, 0);
    for (k, b) in out.iter().enumerate() {
        assert_eq!(*b, stream_byte(k));
    }
}

#[test]
fn written_counts_drain_then_copies() {
    let (mut rec, mut state) = setup(16000 * 8, 5);
    for i in 0..90 {
        rec.push_chunk(&mut state, chunk_at(i));
    }
    state.set_mode(Action::Record);
    let out = rec.drain(&mut state);
    rec.copied(&mut state, 500);
    rec.copied(&mut state, 1024);
    assert_eq!(state.written, out.len() + 1524);
    assert_eq!(state.written, 81524);
    assert_eq!(state.action, Action::Record);
}

#[test]
fn scenario_record_buffer_record_cycle() {
    let (mut rec, mut state) = setup(16000 * 8, 5);
    for i in 0..5 {
        rec.push_chunk(&mut state, chunk_at(i));
    }
    state.set_mode(Action::Record);
    let first = rec.drain(&mut state);
    assert_eq!(first.len(), 5120);
    rec.copied(&mut state, 100);
    assert_eq!(state.written, 5220);

    state.set_mode(Action::Buffer);
    assert_eq!(rec.next_step(state.action), Step::ReadChunk);
    for i in 0..85 {
        rec.push_chunk(&mut state, chunk_at(1000 + i));
    }
    assert_eq!(state.buffered, 80000);
    state.set_mode(Action::Record);
    assert_eq!(rec.next_step(state.action), Step::Drain);
    let second = rec.drain(&mut state);
    assert_eq!(second.len(), 80000);
    assert_eq!(state.written, 5220 + 80000);
    assert_eq!(state.buffered, 0);
    let end = (1000 + 85) * BUFSIZE;
    for (k, b) in second.iter().enumerate() {
        assert_eq!(*b, stream_byte(end - 80000 + k));
    }
}

#[test]
fn closed_input_finishes() {
    let (mut rec, mut state) = setup(16000 * 8, 5);
    state.set_mode(Action::Record);
    let out = rec.drain(&mut state);
    assert!(out.is_empty());
    rec.copied(&mut state, 0);
    assert_eq!(state.action, Action::Finish);
    assert_eq!(state.written, 0);
    assert_eq!(rec.next_step(state.action), Step::Stop);
}

#[test]
fn forced_finish_stops_from_any_mode() {
    let (mut rec, mut state) = setup(16000 * 8, 5);
    rec.push_chunk(&mut state, chunk_at(0));
    state.set_mode(Action::Finish);
    assert_eq!(rec.next_step(state.action), Step::Stop);
    state.set_mode(Action::Record);
    assert_eq!(state.action, Action::Finish);
    state.set_mode(Action::Buffer);
    assert_eq!(rec.next_step(state.action), Step::Stop);

    let (mut rec2, mut state2) = setup(16000 * 8, 5);
    state2.set_mode(Action::Record);
    let _ = rec2.drain(&mut state2);
    rec2.copied(&mut state2, 10);
    state2.set_mode(Action::Finish);
    assert_eq!(rec2.next_step(state2.action), Step::Stop);
    assert_eq!(state2.written, 10);
}

#[test]
fn set_mode_to_current_changes_nothing() {
    let (mut rec, mut state) = setup(16000 * 8, 5);
    for i in 0..3 {
        rec.push_chunk(&mut state, chunk_at(i));
    }
    state.set_mode(Action::Buffer);
    assert_eq!(state.action, Action::Buffer);
    assert_eq!(state.buffered, 3072);
    assert_eq!(state.written, 0);
    state.set_mode(Action::Record);
    state.set_mode(Action::Record);
    assert_eq!(state.action, Action::Record);
    assert_eq!(state.buffered, 3072);
    assert_eq!(state.byte_rate, 16000);
    assert_eq!(state.seconds, 5);
}

#[test]
fn keys_map_to_modes() {
    assert_eq!(match_char(0x03, &Action::Buffer), Action::Finish);
    assert_eq!(match_char(b'q', &Action::Record), Action::Finish);
    assert_eq!(match_char(b'Q', &Action::Buffer), Action::Finish);
    assert_eq!(match_char(b' ', &Action::Buffer), Action::Record);
    assert_eq!(match_char(b' ', &Action::Record), Action::Buffer);
    assert_eq!(match_char(b'x', &Action::Finish), Action::Record);
}

#[test]
fn shared_state_is_read_under_lock() {
    let shared = Arc::new(Mutex::new(State::new(16000, 5)));
    assert!(state_is(&shared, Action::Buffer));
    assert!(!state_is(&shared, Action::Record));
    shared.lock().unwrap().set_mode(Action::Record);
    assert!(state_is(&shared, Action::Record));
    assert!(action_matches(Some(Action::Finish), Action::Finish));
    assert!(!action_matches(None, Action::Finish));
}

#[test]
fn time_parts_splits_elapsed_time() {
    let t = time_parts(176400 * 3725, 176400);
    assert_eq!((t.hours, t.minutes, t.seconds), (1, 2, 5));
    let t = time_parts(1000, 16000);
    assert_eq!((t.hours, t.minutes, t.seconds), (0, 0, 0));
}

#[test]
fn size_parts_picks_unit() {
    assert_eq!(size_parts(999), Size::Bytes(999));
    assert_eq!(size_parts(1000), Size::Kilo(1));
    assert_eq!(size_parts(999_999), Size::Kilo(999));
    assert_eq!(size_parts(2_345_678), Size::Mega(2, 3));
    assert_eq!(size_parts(1_000_000), Size::Mega(1, 0));
}

#[test]
fn fill_parts_scales_to_bar_and_seconds() {
    let f = fill_parts(40000, 16000, 5);
    assert_eq!((f.segments, f.seconds), (5, 2));
    let f = fill_parts(80000, 16000, 5);
    assert_eq!((f.segments, f.seconds), (SEGLEN, 5));
    let f = fill_parts(0, 16000, 5);
    assert_eq!((f.segments, f.seconds), (0, 0));
}
