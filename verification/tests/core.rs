use lightyear::codec::{
    decode_value, decode_value_exact, encode_value_to_vec, ComponentValue, ProtocolError,
};
use lightyear::id::Entity;
use lightyear::interp::{InterpolationBuffer, PositionSnapshot};
use lightyear::predict::{step, InputAction, PredictedState, PredictionEngine};
use lightyear::channel::{fragment, reassemble, OrderedReceiver, SequencedReceiver};
use lightyear::sync::{decide_adjust, adjusted_interval_us, SyncManager, TickAdjust};
use lightyear::tick::{Tick, TickClock};

fn no_input() -> InputAction {
    InputAction { up: false, down: false, left: false, right: false }
}

fn up_input() -> InputAction {
    InputAction { up: true, down: false, left: false, right: false }
}

#[test]
fn tick_clock_counts_every_advance() {
    let mut clock = TickClock::new(Tick(7));
    assert_eq!(clock.now(), Tick(7));
    clock.advance();
    assert_eq!(clock.now(), Tick(8));
    clock.advance_by(92);
    assert_eq!(clock.now(), Tick(100));
    clock.advance_by(0);
    assert_eq!(clock.now(), Tick(100));
}

#[test]
fn tick_ordering() {
    assert!(Tick(5).is_after(Tick(4)));
    assert!(!Tick(4).is_after(Tick(4)));
    assert_eq!(Tick(4).next(), Tick(5));
}

#[test]
fn codec_round_trips_every_kind() {
    let values = vec![
        ComponentValue::Marker,
        ComponentValue::Flag(false),
        ComponentValue::Flag(true),
        ComponentValue::Scalar(0),
        ComponentValue::Scalar(u64::MAX),
        ComponentValue::Scalar(0x0123_4567_89ab_cdef),
        ComponentValue::Position(0, 0),
        ComponentValue::Position(-5, 12),
        ComponentValue::Position(i64::MIN, i64::MAX),
        ComponentValue::EntityRef(Entity(42)),
    ];
    for v in values {
        let bytes = encode_value_to_vec(&v);
        assert_eq!(decode_value_exact(&bytes), Ok(v));
        let (decoded, used) = decode_value(&bytes, 0).unwrap();
        assert_eq!(decoded, v);
        assert_eq!(used, bytes.len());
    }
}

#[test]
fn codec_scalar_wire_bytes_are_little_endian() {
    let bytes = encode_value_to_vec(&ComponentValue::Scalar(0x0102_0304_0506_0708));
    assert_eq!(bytes, vec![2u8, 0x08, 0x07, 0x06, 0x05, 0x04, 0x03, 0x02, 0x01]);
}

#[test]
fn codec_rejects_truncated_buffer() {
    let empty: Vec<u8> = Vec::new();
    assert_eq!(decode_value_exact(&empty), Err(ProtocolError::Truncated));
    let cut = vec![2u8, 1, 2, 3];
    assert_eq!(decode_value_exact(&cut), Err(ProtocolError::Truncated));
}

#[test]
fn codec_rejects_unknown_tag() {
    let bad = vec![9u8];
    assert_eq!(decode_value_exact(&bad), Err(ProtocolError::UnknownTag));
}

#[test]
fn codec_rejects_bad_flag_value() {
    let bad = vec![1u8, 7u8];
    assert_eq!(decode_value_exact(&bad), Err(ProtocolError::BadValue));
}

#[test]
fn codec_decodes_at_offset_inside_stream() {
    let mut bytes = encode_value_to_vec(&ComponentValue::Flag(true));
    let second = encode_value_to_vec(&ComponentValue::Scalar(9));
    bytes.extend(second);
    let (first, mid) = decode_value(&bytes, 0).unwrap();
    assert_eq!(first, ComponentValue::Flag(true));
    let (next, end) = decode_value(&bytes, mid).unwrap();
    assert_eq!(next, ComponentValue::Scalar(9));
    assert_eq!(end, bytes.len());
}

#[test]
fn interpolation_midpoint_and_clamp() {
    let mut buf = InterpolationBuffer::new();
    assert_eq!(buf.at(Tick(15)), None);
    buf.push(PositionSnapshot { tick: Tick(10), x: 0, y: 0 });
    buf.push(PositionSnapshot { tick: Tick(20), x: 10, y: 100 });
    // Midpoint of the interval: half-way between the snapshots.
    assert_eq!(buf.at(Tick(15)), Some((5, 50)));
    // Past the newest snapshot: clamp, never extrapolate.
    assert_eq!(buf.at(Tick(25)), Some((10, 100)));
    // Before the oldest snapshot: the older position.
    assert_eq!(buf.at(Tick(5)), Some((0, 0)));
    assert_eq!(buf.at(Tick(12)), Some((2, 20)));
}

#[test]
fn interpolation_seeds_both_slots_on_spawn() {
    let mut buf = InterpolationBuffer::new();
    buf.push(PositionSnapshot { tick: Tick(10), x: 3, y: 4 });
    assert_eq!(buf.at(Tick(0)), Some((3, 4)));
    assert_eq!(buf.at(Tick(10)), Some((3, 4)));
    assert_eq!(buf.at(Tick(99)), Some((3, 4)));
}

#[test]
fn interpolation_descending_positions() {
    let mut buf = InterpolationBuffer::new();
    buf.push(PositionSnapshot { tick: Tick(0), x: 10, y: -10 });
    buf.push(PositionSnapshot { tick: Tick(10), x: 0, y: -20 });
    assert_eq!(buf.at(Tick(5)), Some((5, -15)));
}

#[test]
fn prediction_steps_deterministically() {
    let s = PredictedState { x: 0, y: 0 };
    let s1 = step(&s, &up_input());
    assert_eq!(s1, PredictedState { x: 0, y: 1 });
    let s2 = step(&s1, &InputAction { up: false, down: false, left: true, right: false });
    assert_eq!(s2, PredictedState { x: -1, y: 1 });
}

#[test]
fn rollback_matching_confirmation_keeps_prediction() {
    let mut engine = PredictionEngine::new(Tick(100), PredictedState { x: 0, y: 0 });
    engine.predict(up_input());
    engine.predict(up_input());
    engine.predict(no_input());
    let predicted = engine.current();
    // The server agrees with what we predicted for tick 101.
    let matched = engine.confirm(Tick(101), PredictedState { x: 0, y: 1 });
    assert!(matched);
    assert_eq!(engine.current(), predicted);
}

#[test]
fn rollback_divergence_resimulates_from_confirmed_state() {
    let mut engine = PredictionEngine::new(Tick(100), PredictedState { x: 0, y: 0 });
    engine.predict(up_input());
    engine.predict(up_input());
    engine.predict(up_input());
    assert_eq!(engine.current(), PredictedState { x: 0, y: 3 });
    // The server disagrees about tick 101: we were really at x=5, y=1.
    let confirmed = PredictedState { x: 5, y: 1 };
    let matched = engine.confirm(Tick(101), confirmed);
    assert!(!matched);
    // Replaying the two remaining inputs on the confirmed state directly:
    let by_hand = step(&step(&confirmed, &up_input()), &up_input());
    assert_eq!(engine.current(), by_hand);
    assert_eq!(engine.current(), PredictedState { x: 5, y: 3 });
}

#[test]
fn end_to_end_input_delay_prediction_matches_server() {
    // Client captures {up=true} at tick 100 with input delay 2: both sides
    // apply it at tick 102.
    let capture_tick = 100u64;
    let delay = 2u64;
    let apply_tick = Tick(capture_tick + delay);

    // Server side: authoritative simulation applies the input at tick 102.
    let mut server_state = PredictedState { x: 0, y: 0 };
    for t in 101..=apply_tick.0 {
        let input = if t == apply_tick.0 { up_input() } else { no_input() };
        server_state = step(&server_state, &input);
    }

    // Client side: predicts the same motion locally.
    let mut engine = PredictionEngine::new(Tick(100), PredictedState { x: 0, y: 0 });
    engine.predict(no_input());
    engine.predict(up_input());
    assert_eq!(engine.current(), PredictedState { x: 0, y: 1 });

    // The replicated authoritative state for tick 102 arrives: zero
    // correction is observed.
    let matched = engine.confirm(apply_tick, server_state);
    assert!(matched);
    assert_eq!(engine.current(), PredictedState { x: 0, y: 1 });
}

#[test]
fn sync_ewma_and_timeouts() {
    let mut sync = SyncManager::new(80_000, 0);
    sync.on_pong(1_000_000, 160_000);
    // Seven parts old estimate, one part sample.
    assert_eq!(sync.rtt_us(), (7 * 80_000 + 160_000) / 8);
    assert!(!sync.is_degraded());
    // No pong for longer than 3 ping intervals: degraded.
    let late = sync.check_timeout(2_000_000, 250_000, 3);
    assert!(late);
    assert!(sync.is_degraded());
    // A fresh pong clears the flag.
    sync.on_pong(2_100_000, 100_000);
    assert!(!sync.is_degraded());
}

#[test]
fn sync_desired_offset_and_adjust() {
    let sync = SyncManager::new(100_000, 0);
    // 50 ms one way at about 16.7 ms per tick: three ticks, plus margin.
    let offset = sync.desired_offset_ticks(16_667, 1);
    assert_eq!(offset, (50_000 + 16_666) / 16_667 + 1);
    assert_eq!(decide_adjust(10, 4, 2), TickAdjust::SlowDown);
    assert_eq!(decide_adjust(4, 10, 2), TickAdjust::SpeedUp);
    assert_eq!(decide_adjust(5, 4, 2), TickAdjust::Keep);
    assert_eq!(decide_adjust(4, 4, 0), TickAdjust::Keep);
    assert_eq!(adjusted_interval_us(16_667, 200, TickAdjust::SlowDown), 16_867);
    assert_eq!(adjusted_interval_us(16_667, 200, TickAdjust::SpeedUp), 16_467);
    assert_eq!(adjusted_interval_us(16_667, 200, TickAdjust::Keep), 16_667);
}

#[test]
fn fragmentation_round_trip() {
    let payload: Vec<u8> = (0u8..=250).collect();
    let frags = fragment(&payload, 99);
    assert_eq!(frags.len(), 3);
    assert!(frags.iter().all(|f| f.len() <= 99));
    assert_eq!(reassemble(&frags), payload);

    let empty: Vec<u8> = Vec::new();
    assert_eq!(fragment(&empty, 10).len(), 0);
    assert_eq!(reassemble(&fragment(&empty, 10)), empty);

    let exact: Vec<u8> = vec![1, 2, 3, 4];
    let frags = fragment(&exact, 2);
    assert_eq!(frags, vec![vec![1, 2], vec![3, 4]]);
    assert_eq!(reassemble(&frags), exact);
}

#[test]
fn sequenced_channel_keeps_only_newest() {
    let mut recv = SequencedReceiver::new();
    assert!(recv.accept(5));
    assert!(!recv.accept(5));
    assert!(!recv.accept(3));
    assert!(recv.accept(9));
}

#[test]
fn ordered_channel_delivers_in_order_without_gaps() {
    let mut recv = OrderedReceiver::new(0);
    assert!(recv.accept(0));
    // A duplicate of an already-delivered sequence is dropped.
    assert!(!recv.accept(0));
    // An out-of-order sequence is not deliverable yet.
    assert!(!recv.accept(2));
    assert!(recv.accept(1));
    assert!(recv.accept(2));
}
