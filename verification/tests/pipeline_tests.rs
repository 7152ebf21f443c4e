use kps_meter::capture::map_raw_keys;
use kps_meter::keymap::{Keymap, SemanticEvent};
use kps_meter::presentation::render_frame;
use kps_meter::scheduler::TickScheduler;
use kps_meter::stats::{SharedState, Stats};

#[test]
fn default_keymap_maps_x_and_b() {
    let km = Keymap::default();
    assert_eq!(km.lookup('x'), Some(SemanticEvent::Press));
    assert_eq!(km.lookup('b'), Some(SemanticEvent::Press));
    assert_eq!(km.lookup('q'), None);
    assert_eq!(km.lookup(' '), None);
}

#[test]
fn capture_keeps_order_and_drops_unmapped() {
    let km = Keymap::default();
    let raw = vec!['q', 'x', 'z', 'b', 'x'];
    let events = map_raw_keys(&km, &raw);
    assert_eq!(
        events,
        vec![SemanticEvent::Press, SemanticEvent::Press, SemanticEvent::Press]
    );
}

#[test]
fn three_presses_in_rhythm() {
    // Presses at t = 0.0 s, 0.3 s, 0.6 s.
    let mut s = TickScheduler::new();
    let keys = vec!['x'];
    s.tick(&keys, 0);
    s.tick(&keys, 300_000);
    let frame = s.tick(&keys, 600_000);
    assert_eq!(frame.total, 3);
    assert_eq!(frame.combo, 3);
    assert_eq!(frame.score, 6);
}

#[test]
fn long_gap_resets_combo() {
    // Presses at t = 0.0 s, 0.3 s, 1.5 s: the 1.2 s gap breaks the streak.
    let mut s = TickScheduler::new();
    let keys = vec!['b'];
    s.tick(&keys, 0);
    s.tick(&keys, 300_000);
    let frame = s.tick(&keys, 1_500_000);
    assert_eq!(frame.total, 3);
    assert_eq!(frame.combo, 1);
    assert_eq!(frame.score, 4);
}

#[test]
fn gap_of_exactly_one_second_keeps_combo() {
    // The streak breaks only when the gap strictly exceeds one second.
    let mut s = TickScheduler::new();
    let keys = vec!['x'];
    s.tick(&keys, 0);
    let frame = s.tick(&keys, 1_000_000);
    assert_eq!(frame.combo, 2);
    let frame = s.tick(&keys, 2_000_001);
    assert_eq!(frame.combo, 1);
}

#[test]
fn unmapped_key_leaves_stats_unchanged() {
    let mut s = TickScheduler::new();
    let frame = s.tick(&vec!['q'], 100);
    assert_eq!(frame.total, 0);
    assert_eq!(frame.combo, 0);
    assert_eq!(frame.score, 0);
    assert!(frame.timing.is_none());
    // A mapped press afterwards is the first event the pipeline sees.
    let frame = s.tick(&vec!['x'], 200);
    assert_eq!(frame.total, 1);
    assert_eq!(frame.combo, 1);
    assert_eq!(frame.score, 1);
}

#[test]
fn several_keys_in_one_tick() {
    let mut s = TickScheduler::new();
    let frame = s.tick(&vec!['x', 'b', 'q', 'x'], 50_000);
    assert_eq!(frame.total, 3);
    assert_eq!(frame.combo, 3);
    assert_eq!(frame.score, 6);
}

#[test]
fn empty_window_frame_has_no_timing() {
    let state = SharedState::new();
    let frame = render_frame(&state.window, &state.stats);
    assert_eq!(frame.total, 0);
    assert_eq!(frame.combo, 0);
    assert_eq!(frame.score, 0);
    assert!(frame.timing.is_none());
}

#[test]
fn single_timestamp_raw_sum_is_zero() {
    // One retained timestamp: the delta sum is empty, no division happens.
    let mut state = SharedState::new();
    state.on_event(700_000);
    let frame = render_frame(&state.window, &state.stats);
    let tm = frame.timing.expect("one retained timestamp anchors the metrics");
    assert_eq!(tm.raw_sum_micros, 0);
    assert_eq!(tm.avg_micros, 0);
}

#[test]
fn average_divided_above_threshold() {
    // Timestamps 0.0 s, 0.3 s, 0.6 s: raw sum 0.9 s > 0.01 s, so the
    // average is the sum divided by the two deltas.
    let mut state = SharedState::new();
    state.on_event(0);
    state.on_event(300_000);
    state.on_event(600_000);
    let frame = render_frame(&state.window, &state.stats);
    let tm = frame.timing.unwrap();
    assert_eq!(tm.raw_sum_micros, 900_000);
    assert_eq!(tm.avg_micros, 450_000);
}

#[test]
fn average_raw_below_threshold() {
    // Timestamps 0 s, 0.003 s, 0.006 s: raw sum 0.009 s <= 0.01 s, so the
    // undivided raw sum is reported.
    let mut state = SharedState::new();
    state.on_event(0);
    state.on_event(3_000);
    state.on_event(6_000);
    let frame = render_frame(&state.window, &state.stats);
    let tm = frame.timing.unwrap();
    assert_eq!(tm.raw_sum_micros, 9_000);
    assert_eq!(tm.avg_micros, 9_000);
}

#[test]
fn on_event_scores_by_post_increment_combo() {
    let mut state = SharedState::new();
    assert_eq!(state.stats, Stats { total: 0, combo: 0, score: 0 });
    state.on_event(0);
    assert_eq!(state.stats, Stats { total: 1, combo: 1, score: 1 });
    state.on_event(500_000);
    assert_eq!(state.stats, Stats { total: 2, combo: 2, score: 3 });
    // Streak reset: the press after the pause still scores 1.
    state.on_event(2_000_000);
    assert_eq!(state.stats, Stats { total: 3, combo: 1, score: 4 });
}

#[test]
fn eviction_moves_the_metric_anchor() {
    // After capacity is exceeded the front timestamp moves forward, so the
    // delta sum is anchored at the oldest retained entry, not the first ever.
    let mut state = SharedState::new();
    for i in 0..9u64 {
        state.on_event(i * 100_000);
    }
    let frame = render_frame(&state.window, &state.stats);
    let tm = frame.timing.unwrap();
    // Retained: 0.1 s .. 0.8 s; deltas from 0.1 s sum to 2.8 s.
    assert_eq!(tm.raw_sum_micros, 2_800_000);
    assert_eq!(tm.avg_micros, 400_000);
}

#[test]
fn non_monotonic_press_does_not_reset() {
    // A press not later than the previous one has a non-positive gap and
    // must not break the streak.
    let mut state = SharedState::new();
    state.on_event(500_000);
    state.on_event(400_000);
    assert_eq!(state.stats.combo, 2);
}
