//! The keystroke window behind the typing metrics.
//!
//! Key presses and releases arrive from the keyboard listener together with
//! the time at which they were seen, in nanoseconds on a monotonic clock.
//! The collector keeps the typing keys of the last minute, tracks the
//! modifier keys that turn a letter into an editing shortcut, and reduces
//! the window to the counts from which the metrics are computed.

use std::collections::VecDeque;
use vstd::prelude::*;

verus! {

/// Length of the keystroke window: one minute.
pub const WINDOW_NANOS: u64 = 60_000_000_000;

/// Length of the short window used for the recent typing pace: ten seconds.
pub const SHORT_WINDOW_NANOS: u64 = 10_000_000_000;

/// Typing within this span counts as activity: five seconds.
pub const ACTIVE_THRESHOLD_NANOS: u64 = 5_000_000_000;

/// The keys that the collector tells apart; every other key is `Other`.
#[derive(Debug, Clone, Copy, PartialEq, Eq, Structural)]
pub enum Key {
    Alt,
    AltGr,
    Backspace,
    ControlLeft,
    ControlRight,
    Delete,
    MetaLeft,
    MetaRight,
    Return,
    Space,
    Tab,
    KeyA,
    KeyB,
    KeyC,
    KeyD,
    KeyE,
    KeyF,
    KeyG,
    KeyH,
    KeyI,
    KeyJ,
    KeyK,
    KeyL,
    KeyM,
    KeyN,
    KeyO,
    KeyP,
    KeyQ,
    KeyR,
    KeyS,
    KeyT,
    KeyU,
    KeyV,
    KeyW,
    KeyX,
    KeyY,
    KeyZ,
    Other,
}

/// A keyboard event as the collector sees it.
#[derive(Debug, Clone, Copy, PartialEq, Eq, Structural)]
pub enum InputEvent {
    KeyPress(Key),
    KeyRelease(Key),
    /// Mouse and wheel events, which the collector ignores.
    Other,
}

/// One recorded keystroke.
#[derive(Debug, Clone, Copy, PartialEq, Eq, Structural)]
pub struct KeyEvent {
    /// When the key was pressed, in nanoseconds.
    pub timestamp: u64,
    /// Whether the key undid typing (backspace, delete, ctrl-word-delete ...).
    pub is_correction: bool,
}

/// The collector's state between keyboard events.
pub struct CollectorState {
    /// The recorded keystrokes, oldest first.
    pub key_events: VecDeque<KeyEvent>,
    /// When the last typing key was pressed; `None` before the first one.
    pub last_input: Option<u64>,
    pub ctrl_pressed: bool,
    pub cmd_pressed: bool,
    pub alt_pressed: bool,
}

/// What the metrics are computed from, at one moment.
pub struct MetricCounts {
    /// A typing key was pressed less than five seconds ago.
    pub is_active: bool,
    /// Keystrokes in the window.
    pub key_count_60: usize,
    /// Keystrokes of the last ten seconds.
    pub key_count_10: usize,
    /// Corrections in the window.
    pub corrections: usize,
    /// Gaps between consecutive keystrokes of the window, in nanoseconds.
    pub intervals: Vec<u64>,
}

// ---------------------------------------------------------------------------
// Specification
// ---------------------------------------------------------------------------

/// Time from `then` to `now`; zero when `then` is later.
pub open spec fn elapsed(now: u64, then: u64) -> int {
    if now >= then {
        now - then
    } else {
        0
    }
}

pub open spec fn is_typing_key_spec(key: Key) -> bool {
    match key {
        Key::Space | Key::Return | Key::Tab | Key::Backspace | Key::Delete => true,
        Key::KeyA | Key::KeyB | Key::KeyC | Key::KeyD | Key::KeyE | Key::KeyF | Key::KeyG
        | Key::KeyH | Key::KeyI | Key::KeyJ | Key::KeyK | Key::KeyL | Key::KeyM | Key::KeyN
        | Key::KeyO | Key::KeyP | Key::KeyQ | Key::KeyR | Key::KeyS | Key::KeyT | Key::KeyU
        | Key::KeyV | Key::KeyW | Key::KeyX | Key::KeyY | Key::KeyZ => true,
        _ => false,
    }
}

/// Backspace and delete always correct; with ctrl held, W, H, U and K are the
/// terminal shortcuts that delete a word, a character, or part of the line.
pub open spec fn is_correction_spec(key: Key, ctrl: bool) -> bool {
    match key {
        Key::Backspace | Key::Delete => true,
        Key::KeyW | Key::KeyH | Key::KeyU | Key::KeyK => ctrl,
        _ => false,
    }
}

pub open spec fn is_ctrl(key: Key) -> bool {
    key == Key::ControlLeft || key == Key::ControlRight
}

pub open spec fn is_cmd(key: Key) -> bool {
    key == Key::MetaLeft || key == Key::MetaRight
}

pub open spec fn is_alt(key: Key) -> bool {
    key == Key::Alt || key == Key::AltGr
}

/// Keystrokes in time order.
pub open spec fn sorted(s: Seq<KeyEvent>) -> bool {
    forall|i: int, j: int| 0 <= i <= j < s.len() ==> s[i].timestamp <= s[j].timestamp
}

/// A keystroke older than the window.
pub open spec fn expired(e: KeyEvent, now: u64) -> bool {
    elapsed(now, e.timestamp) > WINDOW_NANOS
}

/// A keystroke of the short window.
pub open spec fn recent(e: KeyEvent, now: u64) -> bool {
    elapsed(now, e.timestamp) <= SHORT_WINDOW_NANOS
}

/// The window after dropping expired keystrokes from its front, up to the
/// first one that has not expired.
pub open spec fn pruned(s: Seq<KeyEvent>, now: u64) -> Seq<KeyEvent>
    decreases s.len(),
{
    if s.len() > 0 && expired(s[0], now) {
        pruned(s.drop_first(), now)
    } else {
        s
    }
}

/// Number of keystrokes of the short window.
pub open spec fn count_recent(s: Seq<KeyEvent>, now: u64) -> nat
    decreases s.len(),
{
    if s.len() == 0 {
        0
    } else {
        count_recent(s.drop_last(), now) + if recent(s.last(), now) { 1nat } else { 0nat }
    }
}

/// Number of corrections.
pub open spec fn count_corrections(s: Seq<KeyEvent>) -> nat
    decreases s.len(),
{
    if s.len() == 0 {
        0
    } else {
        count_corrections(s.drop_last()) + if s.last().is_correction { 1nat } else { 0nat }
    }
}

/// The gaps between consecutive keystrokes.
pub open spec fn intervals_spec(s: Seq<KeyEvent>) -> Seq<u64> {
    Seq::new(
        if s.len() > 0 { (s.len() - 1) as nat } else { 0nat },
        |i: int| elapsed(s[i + 1].timestamp, s[i].timestamp) as u64,
    )
}

// ---------------------------------------------------------------------------
// Key classification
// ---------------------------------------------------------------------------

/// Whether a key press is typing: letters, space, return, tab, backspace
/// and delete.
pub fn is_typing_key(key: Key) -> (r: bool)
    ensures
        r == is_typing_key_spec(key),
        r == !(key == Key::Alt || key == Key::AltGr || key == Key::ControlLeft || key
            == Key::ControlRight || key == Key::MetaLeft || key == Key::MetaRight || key
            == Key::Other),
{
    matches!(
        key,
        Key::Space | Key::Return | Key::Tab | Key::Backspace | Key::Delete | Key::KeyA | Key::KeyB
            | Key::KeyC | Key::KeyD | Key::KeyE | Key::KeyF | Key::KeyG | Key::KeyH | Key::KeyI
            | Key::KeyJ | Key::KeyK | Key::KeyL | Key::KeyM | Key::KeyN | Key::KeyO | Key::KeyP
            | Key::KeyQ | Key::KeyR | Key::KeyS | Key::KeyT | Key::KeyU | Key::KeyV | Key::KeyW
            | Key::KeyX | Key::KeyY | Key::KeyZ
    )
}

/// Whether a key press undoes typing. Command and alt do not matter.
pub fn is_correction(key: Key, ctrl: bool, _cmd: bool, _alt: bool) -> (r: bool)
    ensures
        r == is_correction_spec(key, ctrl),
        r == (key == Key::Backspace || key == Key::Delete || (ctrl && (key == Key::KeyW || key
            == Key::KeyH || key == Key::KeyU || key == Key::KeyK))),
{
    match key {
        Key::Backspace | Key::Delete => true,
        Key::KeyW | Key::KeyH | Key::KeyU | Key::KeyK => ctrl,
        _ => false,
    }
}

// ---------------------------------------------------------------------------
// The keystroke window
// ---------------------------------------------------------------------------

/// Time from `then` to `now`, zero when `then` is later.
pub fn elapsed_nanos(now: u64, then: u64) -> (r: u64)
    ensures
        r == elapsed(now, then),
{
    if now >= then {
        now - then
    } else {
        0
    }
}

/// Drops the keystrokes that have left the one-minute window from the front
/// of the window. It stops at the first keystroke still inside the window.
pub fn prune_old_events(deque: &mut VecDeque<KeyEvent>, now: u64)
    ensures
        final(deque)@ == pruned(old(deque)@, now),
{
    broadcast use vstd::std_specs::vecdeque::group_vec_dequeue_axioms;

    loop
        invariant
            pruned(deque@, now) == pruned(old(deque)@, now),
        ensures
            deque@ == pruned(old(deque)@, now),
        decreases deque@.len(),
    {
        if deque.len() == 0 {
            break;
        }
        let front: KeyEvent = deque[0];
        if elapsed_nanos(now, front.timestamp) > WINDOW_NANOS {
            let ghost before = deque@;
            deque.pop_front();
            assert(deque@ == before.drop_first());
        } else {
            break;
        }
    }
}

/// Whether the user counts as typing at `now`: a typing key was pressed
/// less than five seconds earlier. Before the first typing key, never.
pub open spec fn is_active_at(last_input: Option<u64>, now: u64) -> bool {
    match last_input {
        Some(t) => elapsed(now, t) < ACTIVE_THRESHOLD_NANOS,
        None => false,
    }
}

/// Reduces the window to the counts the metrics are computed from:
/// activity, the number of keystrokes in the window and in its last ten
/// seconds, the number of corrections, and the gaps between keystrokes.
pub fn compute_counts(state: &CollectorState, now: u64) -> (r: MetricCounts)
    ensures
        r.is_active == is_active_at(state.last_input, now),
        r.key_count_60 == state.key_events@.len(),
        r.key_count_10 == count_recent(state.key_events@, now),
        r.corrections == count_corrections(state.key_events@),
        r.intervals@ == intervals_spec(state.key_events@),
        r.key_count_10 <= r.key_count_60,
        r.corrections <= r.key_count_60,
        r.corrections == state.key_events@.filter(|e: KeyEvent| e.is_correction).len(),
        r.key_count_10 == state.key_events@.filter(|e: KeyEvent| recent(e, now)).len(),
{
    broadcast use vstd::std_specs::vecdeque::group_vec_dequeue_axioms;

    let is_active = match state.last_input {
        Some(t) => elapsed_nanos(now, t) < ACTIVE_THRESHOLD_NANOS,
        None => false,
    };
    let events = &state.key_events;
    let ghost s = events@;
    let n: usize = events.len();
    let mut key_count_10: usize = 0;
    let mut corrections: usize = 0;
    let mut intervals: Vec<u64> = Vec::new();
    let mut i: usize = 0;
    while i < n
        invariant
            n == s.len(),
            s == events@,
            0 <= i <= n,
            key_count_10 == count_recent(s.take(i as int), now),
            corrections == count_corrections(s.take(i as int)),
            key_count_10 <= i,
            corrections <= i,
            intervals@ =~= intervals_spec(s.take(i as int)),
        decreases n - i,
    {
        let e: KeyEvent = events[i];
        assert(s.take(i + 1).drop_last() =~= s.take(i as int));
        assert(s.take(i + 1).last() == e);
        if elapsed_nanos(now, e.timestamp) <= SHORT_WINDOW_NANOS {
            key_count_10 = key_count_10 + 1;
        }
        if e.is_correction {
            corrections = corrections + 1;
        }
        if i > 0 {
            let prev: KeyEvent = events[i - 1];
            intervals.push(elapsed_nanos(e.timestamp, prev.timestamp));
        }
        i = i + 1;
    }
    assert(s.take(n as int) =~= s);
    proof {
        lemma_corrections_are_flagged_keystrokes(s);
        lemma_recent_are_short_window_keystrokes(s, now);
    }
    MetricCounts { is_active, key_count_60: n, key_count_10, corrections, intervals }
}

/// The collector's state as a mathematical value.
pub struct CollectorModel {
    pub key_events: Seq<KeyEvent>,
    pub last_input: Option<u64>,
    pub ctrl_pressed: bool,
    pub cmd_pressed: bool,
    pub alt_pressed: bool,
}

impl View for CollectorState {
    type V = CollectorModel;

    open spec fn view(&self) -> CollectorModel {
        CollectorModel {
            key_events: self.key_events@,
            last_input: self.last_input,
            ctrl_pressed: self.ctrl_pressed,
            cmd_pressed: self.cmd_pressed,
            alt_pressed: self.alt_pressed,
        }
    }
}

/// The effect of one keyboard event seen at `now`. A press or release of a
/// modifier sets or clears its flag; a press of a typing key appends a
/// keystroke, a correction or not under the ctrl flag held, and becomes the
/// last input; everything else changes nothing.
pub open spec fn record_spec(m: CollectorModel, event: InputEvent, now: u64) -> CollectorModel {
    match event {
        InputEvent::KeyPress(key) => CollectorModel {
            key_events: if is_typing_key_spec(key) {
                m.key_events.push(
                    KeyEvent { timestamp: now, is_correction: is_correction_spec(key, m.ctrl_pressed) },
                )
            } else {
                m.key_events
            },
            last_input: if is_typing_key_spec(key) {
                Some(now)
            } else {
                m.last_input
            },
            ctrl_pressed: m.ctrl_pressed || is_ctrl(key),
            cmd_pressed: m.cmd_pressed || is_cmd(key),
            alt_pressed: m.alt_pressed || is_alt(key),
        },
        InputEvent::KeyRelease(key) => CollectorModel {
            key_events: m.key_events,
            last_input: m.last_input,
            ctrl_pressed: m.ctrl_pressed && !is_ctrl(key),
            cmd_pressed: m.cmd_pressed && !is_cmd(key),
            alt_pressed: m.alt_pressed && !is_alt(key),
        },
        InputEvent::Other => m,
    }
}

/// The state after one pass of the metrics loop at `now`: the expired
/// keystrokes are dropped, nothing else changes.
pub open spec fn sample_spec(m: CollectorModel, now: u64) -> CollectorModel {
    CollectorModel {
        key_events: pruned(m.key_events, now),
        last_input: m.last_input,
        ctrl_pressed: m.ctrl_pressed,
        cmd_pressed: m.cmd_pressed,
        alt_pressed: m.alt_pressed,
    }
}

/// The counts that a pass of the metrics loop at `now` reports, from the
/// state it leaves: activity, keystrokes in the window, keystrokes of the
/// last ten seconds, corrections, and the gaps between keystrokes.
pub open spec fn sample_counts(m: CollectorModel, now: u64) -> (bool, nat, nat, nat, Seq<u64>) {
    (
        is_active_at(m.last_input, now),
        m.key_events.len(),
        count_recent(m.key_events, now),
        count_corrections(m.key_events),
        intervals_spec(m.key_events),
    )
}

impl CollectorState {
    /// A collector that has seen no keystroke yet, so it has no last input
    /// and reports no activity until the first typing key.
    pub fn new() -> (r: CollectorState)
        ensures
            r.key_events@ == Seq::<KeyEvent>::empty(),
            r.last_input is None,
            !r.ctrl_pressed,
            !r.cmd_pressed,
            !r.alt_pressed,
    {
        CollectorState {
            key_events: VecDeque::new(),
            last_input: None,
            ctrl_pressed: false,
            cmd_pressed: false,
            alt_pressed: false,
        }
    }

    /// Takes one keyboard event seen at `now`: see `record_spec`.
    pub fn record_event(&mut self, event: InputEvent, now: u64)
        ensures
            final(self)@ == record_spec(old(self)@, event, now),
            // Keystrokes that arrive in time order are kept in time order.
            sorted(old(self).key_events@) && (forall|i: int|
                0 <= i < old(self).key_events@.len() ==> #[trigger] old(
                    self,
                ).key_events@[i].timestamp <= now) ==> sorted(final(self).key_events@),
    {
        match event {
            InputEvent::KeyPress(key) => {
                match key {
                    Key::ControlLeft | Key::ControlRight => self.ctrl_pressed = true,
                    Key::MetaLeft | Key::MetaRight => self.cmd_pressed = true,
                    Key::Alt | Key::AltGr => self.alt_pressed = true,
                    _ => {},
                }
                if is_typing_key(key) {
                    let correction = is_correction(
                        key,
                        self.ctrl_pressed,
                        self.cmd_pressed,
                        self.alt_pressed,
                    );
                    self.key_events.push_back(KeyEvent { timestamp: now, is_correction: correction });
                    self.last_input = Some(now);
                }
            },
            InputEvent::KeyRelease(key) => match key {
                Key::ControlLeft | Key::ControlRight => self.ctrl_pressed = false,
                Key::MetaLeft | Key::MetaRight => self.cmd_pressed = false,
                Key::Alt | Key::AltGr => self.alt_pressed = false,
                _ => {},
            },
            InputEvent::Other => {},
        }
    }

    /// One pass of the metrics loop: drops the keystrokes that left the
    /// window, then counts what remains.
    pub fn sample(&mut self, now: u64) -> (r: MetricCounts)
        ensures
            final(self)@ == sample_spec(old(self)@, now),
            (r.is_active, r.key_count_60 as nat, r.key_count_10 as nat, r.corrections as nat, r.intervals@)
                == sample_counts(final(self)@, now),
    {
        prune_old_events(&mut self.key_events, now);
        compute_counts(self, now)
    }
}

// ---------------------------------------------------------------------------
// Laws
// ---------------------------------------------------------------------------

/// Every correction is a typing key, so every correction is also counted
/// among the keystrokes.
pub proof fn lemma_correction_is_typing_key(key: Key, ctrl: bool)
    ensures
        is_correction_spec(key, ctrl) ==> is_typing_key_spec(key),
{
}

/// Pruning keeps a suffix of the window: everything it drops has expired,
/// and the first keystroke it keeps has not. When the keystrokes are in time
/// order, none of those it keeps has expired, and they stay in order.
pub proof fn lemma_pruned_window(s: Seq<KeyEvent>, now: u64)
    ensures
        pruned(s, now).len() <= s.len(),
        pruned(s, now) == s.subrange(s.len() - pruned(s, now).len(), s.len() as int),
        forall|i: int| 0 <= i < s.len() - pruned(s, now).len() ==> expired(#[trigger] s[i], now),
        pruned(s, now).len() > 0 ==> !expired(pruned(s, now)[0], now),
        sorted(s) ==> sorted(pruned(s, now)),
        sorted(s) ==> forall|i: int|
            0 <= i < pruned(s, now).len() ==> !expired(#[trigger] pruned(s, now)[i], now),
    decreases s.len(),
{
    if s.len() > 0 && expired(s[0], now) {
        let t = s.drop_first();
        lemma_pruned_window(t, now);
        assert(s.subrange(s.len() - pruned(t, now).len(), s.len() as int) =~= t.subrange(
            t.len() - pruned(t, now).len(),
            t.len() as int,
        ));
        assert forall|i: int| 0 <= i < s.len() - pruned(s, now).len() implies expired(
            #[trigger] s[i],
            now,
        ) by {
            if i > 0 {
                assert(s[i] == t[i - 1]);
            }
        }
    } else {
        assert(s.subrange(0, s.len() as int) =~= s);
        if sorted(s) && s.len() > 0 {
            assert forall|i: int| 0 <= i < s.len() implies !expired(#[trigger] s[i], now) by {
                assert(s[0].timestamp <= s[i].timestamp);
            }
        }
    }
}

/// Pruning twice at the same moment prunes nothing more.
pub proof fn lemma_prune_idempotent(s: Seq<KeyEvent>, now: u64)
    ensures
        pruned(pruned(s, now), now) == pruned(s, now),
    decreases s.len(),
{
    if s.len() > 0 && expired(s[0], now) {
        lemma_prune_idempotent(s.drop_first(), now);
    }
}

/// Two keys of the same kind: both typing keys or both not, and the same
/// modifier, if either is one.
pub open spec fn same_key_kind(a: Key, b: Key) -> bool {
    &&& is_typing_key_spec(a) == is_typing_key_spec(b)
    &&& is_ctrl(a) == is_ctrl(b)
    &&& is_cmd(a) == is_cmd(b)
    &&& is_alt(a) == is_alt(b)
}

/// A press of a key is seen only through its kind and, under the ctrl
/// flag held, whether it is a correction; a release only through its
/// modifier. Which letter was typed does not matter.
pub proof fn lemma_record_sees_only_key_kind(m: CollectorModel, a: Key, b: Key, now: u64)
    ensures
        same_key_kind(a, b) && is_correction_spec(a, m.ctrl_pressed) == is_correction_spec(
            b,
            m.ctrl_pressed,
        ) ==> record_spec(m, InputEvent::KeyPress(a), now) == record_spec(
            m,
            InputEvent::KeyPress(b),
            now,
        ),
        same_key_kind(a, b) ==> record_spec(m, InputEvent::KeyRelease(a), now) == record_spec(
            m,
            InputEvent::KeyRelease(b),
            now,
        ),
{
}

/// One step of the collector: a keyboard event, or a pass of the metrics
/// loop.
pub enum CollectorStep {
    Input(InputEvent),
    Sample,
}

pub open spec fn step_spec(m: CollectorModel, step: CollectorStep, now: u64) -> CollectorModel {
    match step {
        CollectorStep::Input(event) => record_spec(m, event, now),
        CollectorStep::Sample => sample_spec(m, now),
    }
}

/// The state after the first `k` steps, the step `i` taken at `times[i]`.
pub open spec fn run_collector(
    m0: CollectorModel,
    steps: Seq<CollectorStep>,
    times: Seq<u64>,
    k: nat,
) -> CollectorModel
    decreases k,
{
    if k == 0 {
        m0
    } else {
        step_spec(
            run_collector(m0, steps, times, (k - 1) as nat),
            steps[k - 1],
            times[k - 1],
        )
    }
}

/// Two steps that the collector cannot tell apart, given the ctrl flag
/// held: two passes of the metrics loop, two presses of keys of the same
/// kind that are both corrections or both not, two releases of keys of the
/// same kind, or two other events.
pub open spec fn alike_steps(s1: CollectorStep, s2: CollectorStep, ctrl: bool) -> bool {
    match (s1, s2) {
        (CollectorStep::Sample, CollectorStep::Sample) => true,
        (
            CollectorStep::Input(InputEvent::KeyPress(a)),
            CollectorStep::Input(InputEvent::KeyPress(b)),
        ) => same_key_kind(a, b) && is_correction_spec(a, ctrl) == is_correction_spec(b, ctrl),
        (
            CollectorStep::Input(InputEvent::KeyRelease(a)),
            CollectorStep::Input(InputEvent::KeyRelease(b)),
        ) => same_key_kind(a, b),
        (CollectorStep::Input(InputEvent::Other), CollectorStep::Input(InputEvent::Other)) => true,
        _ => false,
    }
}

/// The metrics reveal nothing about which letters were typed: two runs
/// from the same state, with their steps at the same times and alike step
/// by step, pass through the same states, so every pass of the metrics loop
/// reports the same counts in both.
pub proof fn lemma_metrics_blind_to_letters(
    m0: CollectorModel,
    steps1: Seq<CollectorStep>,
    steps2: Seq<CollectorStep>,
    times: Seq<u64>,
)
    requires
        steps1.len() == times.len(),
        steps2.len() == times.len(),
        forall|k: int|
            0 <= k < times.len() ==> alike_steps(
                #[trigger] steps1[k],
                steps2[k],
                run_collector(m0, steps1, times, k as nat).ctrl_pressed,
            ),
    ensures
        forall|k: nat|
            k <= times.len() ==> #[trigger] run_collector(m0, steps1, times, k) == run_collector(
                m0,
                steps2,
                times,
                k,
            ),
        forall|k: int|
            0 <= k < times.len() && steps1[k] is Sample ==> sample_counts(
                #[trigger] run_collector(m0, steps1, times, (k + 1) as nat),
                times[k],
            ) == sample_counts(run_collector(m0, steps2, times, (k + 1) as nat), times[k]),
{
    assert forall|k: nat| k <= times.len() implies #[trigger] run_collector(
        m0,
        steps1,
        times,
        k,
    ) == run_collector(m0, steps2, times, k) by {
        lemma_runs_agree(m0, steps1, steps2, times, k);
    }
    assert forall|k: int| 0 <= k < times.len() && steps1[k] is Sample implies sample_counts(
        #[trigger] run_collector(m0, steps1, times, (k + 1) as nat),
        times[k],
    ) == sample_counts(run_collector(m0, steps2, times, (k + 1) as nat), times[k]) by {
        lemma_runs_agree(m0, steps1, steps2, times, (k + 1) as nat);
    }
}

proof fn lemma_runs_agree(
    m0: CollectorModel,
    steps1: Seq<CollectorStep>,
    steps2: Seq<CollectorStep>,
    times: Seq<u64>,
    k: nat,
)
    requires
        steps1.len() == times.len(),
        steps2.len() == times.len(),
        k <= times.len(),
        forall|j: int|
            0 <= j < times.len() ==> alike_steps(
                #[trigger] steps1[j],
                steps2[j],
                run_collector(m0, steps1, times, j as nat).ctrl_pressed,
            ),
    ensures
        run_collector(m0, steps1, times, k) == run_collector(m0, steps2, times, k),
    decreases k,
{
    if k > 0 {
        let j = (k - 1) as nat;
        lemma_runs_agree(m0, steps1, steps2, times, j);
        let m = run_collector(m0, steps1, times, j);
        assert(alike_steps(steps1[j as int], steps2[j as int], m.ctrl_pressed));
        match (steps1[j as int], steps2[j as int]) {
            (CollectorStep::Input(InputEvent::KeyPress(a)), CollectorStep::Input(InputEvent::KeyPress(b))) => {
                lemma_record_sees_only_key_kind(m, a, b, times[j as int]);
            },
            (CollectorStep::Input(InputEvent::KeyRelease(a)), CollectorStep::Input(InputEvent::KeyRelease(b))) => {
                lemma_record_sees_only_key_kind(m, a, b, times[j as int]);
            },
            _ => {},
        }
    }
}

// ---------------------------------------------------------------------------
// What the key classification and the counts are, stated independently
// ---------------------------------------------------------------------------

/// The typing keys are exactly the keys that are neither a modifier (ctrl,
/// command, alt) nor an unlisted key: every letter A to Z, space, return,
/// tab, backspace and delete.
pub proof fn lemma_typing_keys_are_all_but_modifiers(key: Key)
    ensures
        is_typing_key_spec(key) <==> !(key == Key::Alt || key == Key::AltGr || key
            == Key::ControlLeft || key == Key::ControlRight || key == Key::MetaLeft || key
            == Key::MetaRight || key == Key::Other),
        (key == Key::KeyA || key == Key::KeyB || key == Key::KeyC || key == Key::KeyD || key
            == Key::KeyE || key == Key::KeyF || key == Key::KeyG || key == Key::KeyH || key
            == Key::KeyI || key == Key::KeyJ || key == Key::KeyK || key == Key::KeyL || key
            == Key::KeyM || key == Key::KeyN || key == Key::KeyO || key == Key::KeyP || key
            == Key::KeyQ || key == Key::KeyR || key == Key::KeyS || key == Key::KeyT || key
            == Key::KeyU || key == Key::KeyV || key == Key::KeyW || key == Key::KeyX || key
            == Key::KeyY || key == Key::KeyZ) ==> is_typing_key_spec(key),
        (key == Key::Space || key == Key::Return || key == Key::Tab || key == Key::Backspace
            || key == Key::Delete) ==> is_typing_key_spec(key),
{
}

/// Without ctrl, only backspace and delete correct; with ctrl, also W, H,
/// U and K. Command and alt make no difference, and no other key corrects.
pub proof fn lemma_corrections_without_and_with_ctrl(key: Key)
    ensures
        is_correction_spec(key, false) <==> (key == Key::Backspace || key == Key::Delete),
        is_correction_spec(key, true) <==> (key == Key::Backspace || key == Key::Delete || key
            == Key::KeyW || key == Key::KeyH || key == Key::KeyU || key == Key::KeyK),
        is_correction_spec(key, false) ==> is_correction_spec(key, true),
{
}

/// The correction count is the number of keystrokes flagged as
/// corrections.
pub proof fn lemma_corrections_are_flagged_keystrokes(s: Seq<KeyEvent>)
    ensures
        count_corrections(s) == s.filter(|e: KeyEvent| e.is_correction).len(),
    decreases s.len(),
{
    reveal(Seq::filter);
    if s.len() > 0 {
        lemma_corrections_are_flagged_keystrokes(s.drop_last());
    }
}

/// The short-window count is the number of keystrokes at most ten seconds
/// old.
pub proof fn lemma_recent_are_short_window_keystrokes(s: Seq<KeyEvent>, now: u64)
    ensures
        count_recent(s, now) == s.filter(|e: KeyEvent| recent(e, now)).len(),
    decreases s.len(),
{
    reveal(Seq::filter);
    if s.len() > 0 {
        lemma_recent_are_short_window_keystrokes(s.drop_last(), now);
    }
}

/// Appending one keystroke raises the correction count by one exactly when
/// it is a correction, and the short-window count by one exactly when it is
/// at most ten seconds old; the counts of two windows put together add up.
pub proof fn lemma_counts_add_up(s: Seq<KeyEvent>, t: Seq<KeyEvent>, e: KeyEvent, now: u64)
    ensures
        count_corrections(s.push(e)) == count_corrections(s) + if e.is_correction {
            1int
        } else {
            0int
        },
        count_recent(s.push(e), now) == count_recent(s, now) + if elapsed(now, e.timestamp)
            <= SHORT_WINDOW_NANOS {
            1int
        } else {
            0int
        },
        count_corrections(s + t) == count_corrections(s) + count_corrections(t),
        count_recent(s + t, now) == count_recent(s, now) + count_recent(t, now),
    decreases t.len(),
{
    assert(s.push(e).drop_last() =~= s);
    if t.len() > 0 {
        lemma_counts_add_up(s, t.drop_last(), e, now);
        assert((s + t).drop_last() =~= s + t.drop_last());
    } else {
        assert(s + t =~= s);
    }
}

/// A modifier flag changes only through its own keys: pressing ctrl (left
/// or right) sets the ctrl flag and releasing it clears it; no other event
/// changes it. The same holds for command (meta) and alt (alt, alt-gr).
/// Releasing a key that is no modifier changes nothing at all.
pub proof fn lemma_modifier_flags_follow_their_keys(m: CollectorModel, event: InputEvent, now: u64)
    ensures
        ({
            let r = record_spec(m, event, now);
            &&& r.ctrl_pressed != m.ctrl_pressed ==> (event == InputEvent::KeyPress(
                Key::ControlLeft,
            ) || event == InputEvent::KeyPress(Key::ControlRight) || event
                == InputEvent::KeyRelease(Key::ControlLeft) || event == InputEvent::KeyRelease(
                Key::ControlRight,
            ))
            &&& r.cmd_pressed != m.cmd_pressed ==> (event == InputEvent::KeyPress(Key::MetaLeft)
                || event == InputEvent::KeyPress(Key::MetaRight) || event
                == InputEvent::KeyRelease(Key::MetaLeft) || event == InputEvent::KeyRelease(
                Key::MetaRight,
            ))
            &&& r.alt_pressed != m.alt_pressed ==> (event == InputEvent::KeyPress(Key::Alt)
                || event == InputEvent::KeyPress(Key::AltGr) || event == InputEvent::KeyRelease(
                Key::Alt,
            ) || event == InputEvent::KeyRelease(Key::AltGr))
            &&& (event == InputEvent::KeyPress(Key::ControlLeft) || event == InputEvent::KeyPress(
                Key::ControlRight,
            )) ==> r.ctrl_pressed
            &&& (event == InputEvent::KeyRelease(Key::ControlLeft) || event
                == InputEvent::KeyRelease(Key::ControlRight)) ==> !r.ctrl_pressed
            &&& (event == InputEvent::KeyPress(Key::MetaLeft) || event == InputEvent::KeyPress(
                Key::MetaRight,
            )) ==> r.cmd_pressed
            &&& (event == InputEvent::KeyRelease(Key::MetaLeft) || event == InputEvent::KeyRelease(
                Key::MetaRight,
            )) ==> !r.cmd_pressed
            &&& (event == InputEvent::KeyPress(Key::Alt) || event == InputEvent::KeyPress(
                Key::AltGr,
            )) ==> r.alt_pressed
            &&& (event == InputEvent::KeyRelease(Key::Alt) || event == InputEvent::KeyRelease(
                Key::AltGr,
            )) ==> !r.alt_pressed
        }),
        forall|key: Key|
            !(key == Key::Alt || key == Key::AltGr || key == Key::ControlLeft || key
                == Key::ControlRight || key == Key::MetaLeft || key == Key::MetaRight)
                ==> #[trigger] record_spec(m, InputEvent::KeyRelease(key), now) == m,
{
    assert forall|key: Key|
        !(key == Key::Alt || key == Key::AltGr || key == Key::ControlLeft || key
            == Key::ControlRight || key == Key::MetaLeft || key == Key::MetaRight)
            implies #[trigger] record_spec(m, InputEvent::KeyRelease(key), now) == m by {
        assert(record_spec(m, InputEvent::KeyRelease(key), now) =~= m);
    }
}

/// Only a press of a typing key adds to the window, and it adds exactly one
/// keystroke, stamped `now`, and makes `now` the last input; it is a
/// correction exactly when the key corrects under the ctrl flag held.
pub proof fn lemma_only_typing_presses_are_recorded(m: CollectorModel, event: InputEvent, now: u64)
    ensures
        ({
            let r = record_spec(m, event, now);
            match event {
                InputEvent::KeyPress(key) => if is_typing_key_spec(key) {
                    &&& r.key_events.len() == m.key_events.len() + 1
                    &&& r.key_events.drop_last() == m.key_events
                    &&& r.key_events.last().timestamp == now
                    &&& r.key_events.last().is_correction == is_correction_spec(key, m.ctrl_pressed)
                    &&& r.last_input == Some(now)
                } else {
                    r.key_events == m.key_events && r.last_input == m.last_input
                },
                _ => r.key_events == m.key_events && r.last_input == m.last_input,
            }
        }),
{
    if let InputEvent::KeyPress(key) = event {
        if is_typing_key_spec(key) {
            assert(record_spec(m, event, now).key_events.drop_last() =~= m.key_events);
        }
    }
}

} // verus!
