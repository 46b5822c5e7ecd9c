//! The engine driven by a deterministic, scripted time source.

use sequence_generator::clock::ScriptedClock;
use sequence_generator::codec::{decode_id_unix_epoch_micros, decode_node_id, decode_sequence_id};
use sequence_generator::engine::{generate_id, issue_at, wait_next_timestamp, wait_until_last_timestamp};
use sequence_generator::errors::SequenceGeneratorError;
use sequence_generator::properties::SequenceProperties;

/// 0 unused | 53 timestamp | 9 node | 2 sequence, microsecond ticks from
/// the Unix epoch: a tick carries four identifiers.
fn tiny_sequence_layout() -> SequenceProperties {
    SequenceProperties::new(0, 9, 1, 2, 0, 0, 1000).unwrap()
}

#[test]
fn sequence_wraps_within_one_tick() {
    // Four identifiers fit tick 100; the fourth call exhausts it, waits
    // for the clock to advance and restarts the count at zero.
    let mut clock = ScriptedClock::new(vec![100, 100, 100, 100, 100, 101]);
    let mut properties = tiny_sequence_layout();
    let mut ids: Vec<u64> = Vec::new();
    for _ in 0..5 {
        ids.push(generate_id(&mut properties, &mut clock).unwrap());
    }
    let sequences: Vec<u16> =
        ids.iter().map(|id| decode_sequence_id(*id, &properties)).collect();
    assert_eq!(sequences, vec![0, 1, 2, 3, 0]);
    let ticks: Vec<u64> =
        ids.iter().map(|id| decode_id_unix_epoch_micros(*id, &properties)).collect();
    assert_eq!(ticks, vec![100, 100, 100, 100, 101]);
    for pair in ids.windows(2) {
        assert!(pair[0] < pair[1]);
    }
}

#[test]
fn regression_waits_until_caught_up() {
    // The second call samples 50, below the last tick 100; the engine
    // polls until the clock reads 100 again and continues the count.
    let mut clock = ScriptedClock::new(vec![100, 50, 80, 100]);
    let mut properties = tiny_sequence_layout();
    let first = generate_id(&mut properties, &mut clock).unwrap();
    let second = generate_id(&mut properties, &mut clock).unwrap();
    assert!(second > first);
    assert_eq!(decode_sequence_id(second, &properties), 1);
    assert_eq!(decode_id_unix_epoch_micros(second, &properties), 100);
}

#[test]
fn regression_overshoot_keeps_the_count() {
    // Catching up lands past the stale tick: the count still carries
    // over instead of restarting.
    let mut clock = ScriptedClock::new(vec![100, 50, 120]);
    let mut properties = tiny_sequence_layout();
    let first = generate_id(&mut properties, &mut clock).unwrap();
    let second = generate_id(&mut properties, &mut clock).unwrap();
    assert!(second > first);
    assert_eq!(decode_sequence_id(second, &properties), 1);
    assert_eq!(decode_id_unix_epoch_micros(second, &properties), 120);
}

#[test]
fn regression_on_a_spent_tick_needs_a_fresh_one() {
    // With the stale tick's capacity spent, catching up is not enough:
    // the engine waits for a strictly newer tick and restarts at zero.
    let mut clock = ScriptedClock::new(vec![100, 50, 80, 101]);
    let mut properties = tiny_sequence_layout();
    let first = generate_id(&mut properties, &mut clock).unwrap();
    properties.sequence = properties.max_sequence;
    let second = generate_id(&mut properties, &mut clock).unwrap();
    assert!(second > first);
    assert_eq!(decode_sequence_id(second, &properties), 0);
    assert_eq!(decode_id_unix_epoch_micros(second, &properties), 101);
}

#[test]
fn spent_tick_without_advance_waits() {
    // The clock still reads the exhausted tick: the engine waits for a
    // fresh one before minting.
    let mut clock = ScriptedClock::new(vec![100, 100, 100, 101]);
    let mut properties = tiny_sequence_layout();
    let first = generate_id(&mut properties, &mut clock).unwrap();
    properties.sequence = properties.max_sequence;
    let second = generate_id(&mut properties, &mut clock).unwrap();
    assert!(second > first);
    assert_eq!(decode_sequence_id(second, &properties), 0);
    assert_eq!(decode_id_unix_epoch_micros(second, &properties), 101);
}

#[test]
fn identifiers_increase_across_ticks() {
    let mut clock = ScriptedClock::new(vec![5, 5, 5, 5, 5, 6, 7, 7, 7, 7, 7, 8, 30]);
    let mut properties = tiny_sequence_layout();
    let mut previous: Option<u64> = None;
    for _ in 0..9 {
        let id = generate_id(&mut properties, &mut clock).unwrap();
        if let Some(p) = previous {
            assert!(id > p);
        }
        previous = Some(id);
    }
}

#[test]
fn example_millisecond_layout() {
    // Unix epoch, 1 unused | 41 timestamp | 10 node | 12 sequence,
    // millisecond resolution, node id 5: two calls within one
    // millisecond decode to node 5, sequences 0 and 1, the same tick.
    let mut clock = ScriptedClock::new(vec![1_700_000_123_456, 1_700_000_123_999]);
    let mut properties = SequenceProperties::new(0, 10, 5, 12, 3, 1, 1500).unwrap();
    let first = generate_id(&mut properties, &mut clock).unwrap();
    let second = generate_id(&mut properties, &mut clock).unwrap();
    assert_eq!(decode_node_id(first, &properties), 5);
    assert_eq!(decode_node_id(second, &properties), 5);
    assert_eq!(decode_sequence_id(first, &properties), 0);
    assert_eq!(decode_sequence_id(second, &properties), 1);
    assert_eq!(decode_id_unix_epoch_micros(first, &properties), 1_700_000_123_000);
    assert_eq!(decode_id_unix_epoch_micros(second, &properties), 1_700_000_123_000);
}

#[test]
fn clock_failure_leaves_the_state_unchanged() {
    let mut clock = ScriptedClock::new(vec![]);
    let mut properties = tiny_sequence_layout();
    let r = generate_id(&mut properties, &mut clock);
    assert_eq!(r, Err(SequenceGeneratorError::ClockUnavailable));
    assert!(properties.current_timestamp.is_none());
    assert_eq!(properties.sequence, 0);
}

#[test]
fn tick_overflow_is_reported_and_harmless() {
    // 46 unused | 1 timestamp | 16 node | 1 sequence: the timestamp field
    // holds only the ticks 0 and 1.
    let mut clock = ScriptedClock::new(vec![5]);
    let mut properties = SequenceProperties::new(0, 16, 5, 1, 0, 46, 1000).unwrap();
    let r = generate_id(&mut properties, &mut clock);
    assert_eq!(r, Err(SequenceGeneratorError::TickOverflow));
    assert!(properties.current_timestamp.is_none());
    assert_eq!(properties.sequence, 0);
}

#[test]
fn wait_until_accepts_equality() {
    let mut clock = ScriptedClock::new(vec![90, 95, 100]);
    assert_eq!(wait_until_last_timestamp(&mut clock, 100, 0, 0, 1000), Ok(100));
}

#[test]
fn wait_until_returns_at_once_when_caught_up() {
    let mut clock = ScriptedClock::new(vec![150]);
    assert_eq!(wait_until_last_timestamp(&mut clock, 100, 0, 0, 1000), Ok(150));
}

#[test]
fn wait_next_demands_strict_advance() {
    let mut clock = ScriptedClock::new(vec![90, 100, 101]);
    assert_eq!(wait_next_timestamp(&mut clock, 100, 0, 0, 1000), Ok(101));
}

#[test]
fn wait_reports_a_failing_clock() {
    let mut clock = ScriptedClock::new(vec![]);
    assert_eq!(
        wait_next_timestamp(&mut clock, 100, 0, 0, 1000),
        Err(SequenceGeneratorError::ClockUnavailable)
    );
}

#[test]
fn tick_at_field_capacity_boundary() {
    // 45 unused | 2 timestamp | 16 node | 1 sequence: ticks 0..=3 fit.
    let mut clock = ScriptedClock::new(vec![3, 4]);
    let mut properties = SequenceProperties::new(0, 16, 9, 1, 0, 45, 1000).unwrap();
    let id = generate_id(&mut properties, &mut clock).unwrap();
    assert_eq!(decode_id_unix_epoch_micros(id, &properties), 3);
    assert_eq!(decode_node_id(id, &properties), 9);
    // The very next tick no longer fits the field.
    let overflowed = generate_id(&mut properties, &mut clock);
    assert_eq!(overflowed, Err(SequenceGeneratorError::TickOverflow));
}

#[test]
fn issue_at_steps_the_state() {
    let mut properties = tiny_sequence_layout();
    // A first mint at tick 40 starts its count at zero.
    let first = issue_at(&mut properties, 40, false);
    assert_eq!(decode_sequence_id(first, &properties), 0);
    assert_eq!(properties.current_timestamp, Some(40));
    assert_eq!(properties.sequence, 1);
    // A mint at the unchanged tick uses the running counter.
    let second = issue_at(&mut properties, 40, false);
    assert_eq!(decode_sequence_id(second, &properties), 1);
    assert_eq!(second, first + 1);
    // A mint concluding a regression keeps the count on a newer tick.
    let third = issue_at(&mut properties, 41, true);
    assert_eq!(decode_sequence_id(third, &properties), 2);
    assert_eq!(decode_id_unix_epoch_micros(third, &properties), 41);
    assert_eq!(properties.last_timestamp, Some(40));
    // A mint on a fresh tick without a regression restarts at zero.
    let fourth = issue_at(&mut properties, 50, false);
    assert_eq!(decode_sequence_id(fourth, &properties), 0);
    assert!(fourth > third && third > second);
}
