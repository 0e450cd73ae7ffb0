use std::collections::VecDeque;

use pace_coach::{
    compute_counts, is_correction, is_typing_key, prune_old_events, CollectorState, InputEvent,
    Key, KeyEvent,
};

const SEC: u64 = 1_000_000_000;
const MS: u64 = 1_000_000;

#[test]
fn backspace_is_correction() {
    assert!(is_correction(Key::Backspace, false, false, false));
}

#[test]
fn delete_is_correction() {
    assert!(is_correction(Key::Delete, false, false, false));
}

#[test]
fn ctrl_w_is_correction() {
    assert!(is_correction(Key::KeyW, true, false, false));
}

#[test]
fn ctrl_h_is_correction() {
    assert!(is_correction(Key::KeyH, true, false, false));
}

#[test]
fn ctrl_u_is_correction() {
    assert!(is_correction(Key::KeyU, true, false, false));
}

#[test]
fn ctrl_k_is_correction() {
    assert!(is_correction(Key::KeyK, true, false, false));
}

#[test]
fn alt_backspace_is_correction() {
    assert!(is_correction(Key::Backspace, false, false, true));
}

#[test]
fn cmd_backspace_is_correction() {
    assert!(is_correction(Key::Backspace, false, true, false));
}

#[test]
fn regular_keys_not_corrections() {
    assert!(!is_correction(Key::KeyA, false, false, false));
    assert!(!is_correction(Key::Space, false, false, false));
    assert!(!is_correction(Key::KeyW, false, false, false));
}

#[test]
fn ctrl_other_letters_not_corrections() {
    assert!(!is_correction(Key::KeyA, true, false, false));
    assert!(!is_correction(Key::Other, true, true, true));
    assert!(!is_correction(Key::ControlLeft, true, false, false));
}

#[test]
fn typing_keys() {
    assert!(is_typing_key(Key::KeyA));
    assert!(is_typing_key(Key::KeyZ));
    assert!(is_typing_key(Key::Space));
    assert!(is_typing_key(Key::Return));
    assert!(is_typing_key(Key::Tab));
    assert!(is_typing_key(Key::Backspace));
    assert!(is_typing_key(Key::Delete));
    assert!(!is_typing_key(Key::ControlLeft));
    assert!(!is_typing_key(Key::MetaRight));
    assert!(!is_typing_key(Key::Alt));
    assert!(!is_typing_key(Key::Other));
}

#[test]
fn compute_metrics_empty_state_returns_inactive() {
    let now = 100 * SEC;
    let state = CollectorState {
        key_events: VecDeque::new(),
        last_input: Some(now - 10 * SEC),
        ctrl_pressed: false,
        cmd_pressed: false,
        alt_pressed: false,
    };
    let m = compute_counts(&state, now);
    assert!(!m.is_active);
    assert_eq!(m.key_count_60, 0);
    assert_eq!(m.corrections, 0);
    assert!(m.intervals.is_empty());
}

#[test]
fn compute_metrics_counts_corrections() {
    let now = 100 * SEC;
    let mut events = VecDeque::new();
    events.push_back(KeyEvent { timestamp: now - 200 * MS, is_correction: false });
    events.push_back(KeyEvent { timestamp: now - 100 * MS, is_correction: true });
    let state = CollectorState {
        key_events: events,
        last_input: Some(now - 100 * MS),
        ctrl_pressed: false,
        cmd_pressed: false,
        alt_pressed: false,
    };
    let m = compute_counts(&state, now);
    assert!(m.is_active);
    assert_eq!(m.corrections, 1);
    assert_eq!(m.key_count_60, 2);
    assert!(((m.corrections as f64 / m.key_count_60 as f64) - 0.5).abs() < f64::EPSILON);
}

#[test]
fn prune_removes_old_events() {
    let now = 100 * SEC;
    let mut deque = VecDeque::new();
    deque.push_back(KeyEvent { timestamp: now - 61 * SEC, is_correction: false });
    deque.push_back(KeyEvent { timestamp: now - SEC, is_correction: false });
    prune_old_events(&mut deque, now);
    assert_eq!(deque.len(), 1);
}

#[test]
fn prune_keeps_the_window_boundary() {
    let now = 100 * SEC;
    let mut deque = VecDeque::new();
    deque.push_back(KeyEvent { timestamp: now - 60 * SEC - 1, is_correction: false });
    deque.push_back(KeyEvent { timestamp: now - 60 * SEC, is_correction: true });
    deque.push_back(KeyEvent { timestamp: now, is_correction: false });
    prune_old_events(&mut deque, now);
    assert_eq!(deque.len(), 2);
    assert_eq!(deque[0].timestamp, now - 60 * SEC);
    // Pruning again removes nothing more.
    prune_old_events(&mut deque, now);
    assert_eq!(deque.len(), 2);
}

#[test]
fn prune_stops_at_first_fresh_event() {
    let now = 100 * SEC;
    let mut deque = VecDeque::new();
    deque.push_back(KeyEvent { timestamp: now - SEC, is_correction: false });
    deque.push_back(KeyEvent { timestamp: now - 90 * SEC, is_correction: false });
    prune_old_events(&mut deque, now);
    assert_eq!(deque.len(), 2);
}

#[test]
fn counts_short_window_and_intervals() {
    let now = 100 * SEC;
    let mut events = VecDeque::new();
    events.push_back(KeyEvent { timestamp: now - 30 * SEC, is_correction: false });
    events.push_back(KeyEvent { timestamp: now - 10 * SEC, is_correction: false });
    events.push_back(KeyEvent { timestamp: now - 4 * SEC, is_correction: true });
    events.push_back(KeyEvent { timestamp: now - 4 * SEC, is_correction: false });
    let state = CollectorState {
        key_events: events,
        last_input: Some(now - 5 * SEC),
        ctrl_pressed: false,
        cmd_pressed: false,
        alt_pressed: false,
    };
    let m = compute_counts(&state, now);
    assert!(!m.is_active);
    assert_eq!(m.key_count_60, 4);
    assert_eq!(m.key_count_10, 3);
    assert_eq!(m.corrections, 1);
    assert_eq!(m.intervals, vec![20 * SEC, 6 * SEC, 0]);
}

#[test]
fn out_of_order_gap_counts_as_zero() {
    let mut events = VecDeque::new();
    events.push_back(KeyEvent { timestamp: 5 * SEC, is_correction: false });
    events.push_back(KeyEvent { timestamp: 3 * SEC, is_correction: false });
    let state = CollectorState {
        key_events: events,
        last_input: Some(5 * SEC),
        ctrl_pressed: false,
        cmd_pressed: false,
        alt_pressed: false,
    };
    let m = compute_counts(&state, 5 * SEC);
    assert_eq!(m.intervals, vec![0]);
    assert!(m.is_active);
}

#[test]
fn events_record_keystrokes_and_modifiers() {
    let mut st = CollectorState::new();
    st.record_event(InputEvent::KeyPress(Key::KeyA), SEC);
    st.record_event(InputEvent::KeyPress(Key::ControlLeft), 2 * SEC);
    assert!(st.ctrl_pressed);
    st.record_event(InputEvent::KeyPress(Key::KeyW), 3 * SEC);
    st.record_event(InputEvent::KeyRelease(Key::ControlLeft), 4 * SEC);
    assert!(!st.ctrl_pressed);
    st.record_event(InputEvent::KeyPress(Key::KeyW), 5 * SEC);
    st.record_event(InputEvent::KeyPress(Key::MetaLeft), 6 * SEC);
    st.record_event(InputEvent::KeyPress(Key::Alt), 6 * SEC);
    assert!(st.cmd_pressed && st.alt_pressed);
    st.record_event(InputEvent::Other, 7 * SEC);
    assert_eq!(st.key_events.len(), 3);
    assert!(!st.key_events[0].is_correction);
    assert!(st.key_events[1].is_correction);
    assert!(!st.key_events[2].is_correction);
    assert_eq!(st.key_events[2].timestamp, 5 * SEC);
    // Modifier presses are not input.
    assert_eq!(st.last_input, Some(5 * SEC));
}

#[test]
fn sample_prunes_then_counts() {
    let mut st = CollectorState::new();
    st.record_event(InputEvent::KeyPress(Key::Backspace), SEC);
    st.record_event(InputEvent::KeyPress(Key::KeyB), 70 * SEC);
    st.record_event(InputEvent::KeyPress(Key::KeyC), 72 * SEC);
    let m = st.sample(75 * SEC);
    assert_eq!(st.key_events.len(), 2);
    assert_eq!(m.key_count_60, 2);
    assert_eq!(m.key_count_10, 2);
    assert_eq!(m.corrections, 0);
    assert_eq!(m.intervals, vec![2 * SEC]);
    assert!(m.is_active);
}

#[test]
fn fresh_collector_is_idle_until_first_typing_key() {
    let mut st = CollectorState::new();
    let m = st.sample(SEC);
    assert!(!m.is_active);
    // Modifier presses are not typing.
    st.record_event(InputEvent::KeyPress(Key::ControlLeft), 2 * SEC);
    assert!(!st.sample(2 * SEC).is_active);
    st.record_event(InputEvent::KeyPress(Key::KeyQ), 3 * SEC);
    assert!(st.sample(3 * SEC).is_active);
    assert!(st.sample(3 * SEC + 4_999_999_999).is_active);
    assert!(!st.sample(8 * SEC).is_active);
}

#[test]
fn metrics_do_not_depend_on_letters() {
    let run = |letter: Key, ctrl_letter: Key| {
        let mut st = CollectorState::new();
        st.record_event(InputEvent::KeyPress(letter), SEC);
        st.record_event(InputEvent::KeyPress(Key::ControlRight), 2 * SEC);
        st.record_event(InputEvent::KeyPress(ctrl_letter), 3 * SEC);
        st.record_event(InputEvent::KeyRelease(Key::ControlRight), 4 * SEC);
        let m = st.sample(5 * SEC);
        (m.is_active, m.key_count_60, m.key_count_10, m.corrections, m.intervals)
    };
    assert_eq!(run(Key::KeyA, Key::KeyW), run(Key::KeyZ, Key::KeyU));
    assert_eq!(run(Key::KeyA, Key::KeyB), run(Key::Space, Key::KeyC));
    assert_ne!(run(Key::KeyA, Key::KeyW), run(Key::KeyA, Key::KeyB));
}
