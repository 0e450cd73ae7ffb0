//! When to nudge the user.
//!
//! A nudge fires once the typing has been STRESSED for long enough, and
//! not again before the cooldown has passed since the last one. Times are
//! nanoseconds on the monotonic clock, counted from when the `NudgeState`
//! was made.

use std::time::{Duration, Instant};
use vstd::prelude::*;

use crate::classifier::State;

verus! {

#[verifier::external_type_specification]
#[verifier::external_body]
pub struct ExInstant(Instant);

/// Nanoseconds in a number of seconds.
pub open spec fn secs_to_nanos(secs: u64) -> int {
    secs * 1_000_000_000
}

/// Time from `then` to `now`; zero when `then` is later.
pub open spec fn time_since(now: u128, then: u128) -> int {
    if now >= then {
        now - then
    } else {
        0
    }
}

/// The label under which the classifier reports the stressed state.
pub open spec fn is_stressed_label(label: Seq<char>) -> bool {
    label == "STRESSED"@
}

/// One step of the nudge policy, given whether the current state is
/// STRESSED, when the current stressed stretch began, when the last nudge
/// fired, the two durations in seconds, and the current time. It gives the
/// new start of the stressed stretch, the new time of the last nudge, and
/// whether a nudge fires now.
pub open spec fn nudge_step(
    stressed: bool,
    stressed_since: Option<u128>,
    last_nudge: Option<u128>,
    stress_duration_secs: u64,
    nudge_cooldown_secs: u64,
    now: u128,
) -> (Option<u128>, Option<u128>, bool) {
    if stressed {
        let since = match stressed_since {
            Some(t) => t,
            None => now,
        };
        let past_threshold = time_since(now, since) >= secs_to_nanos(stress_duration_secs);
        let past_cooldown = match last_nudge {
            Some(t) => time_since(now, t) >= secs_to_nanos(nudge_cooldown_secs),
            None => true,
        };
        let fire = past_threshold && past_cooldown;
        (Some(since), if fire { Some(now) } else { last_nudge }, fire)
    } else {
        (None, last_nudge, false)
    }
}

/// Calls `Instant::now`: a reading of the monotonic clock. Nothing is
/// stated of it; it depends on the time.
#[verifier::external_body]
fn clock_now() -> (r: Instant) {
    Instant::now()
}

/// Calls `Instant::elapsed`: the time since `origin`. Nothing is stated of
/// it; it depends on the time.
#[verifier::external_body]
fn clock_elapsed(origin: &Instant) -> (r: Duration) {
    origin.elapsed()
}

/// Calls `Duration::as_nanos`. A `Duration` is opaque here, so nothing is
/// stated of the number it holds.
#[verifier::external_body]
fn duration_nanos(d: &Duration) -> (r: u128) {
    d.as_nanos()
}

/// Byte-wise equality of two slices.
fn bytes_equal(a: &[u8], b: &[u8]) -> (r: bool)
    ensures
        r == (a@ == b@),
{
    if a.len() != b.len() {
        return false;
    }
    let mut i: usize = 0;
    while i < a.len()
        invariant
            a@.len() == b@.len(),
            0 <= i <= a@.len(),
            forall|j: int| 0 <= j < i ==> a@[j] == b@[j],
        decreases a@.len() - i,
    {
        if a[i] != b[i] {
            return false;
        }
        i = i + 1;
    }
    assert(a@ =~= b@);
    true
}

/// Whether a state label is the STRESSED label.
pub fn label_is_stressed(label: &str) -> (r: bool)
    ensures
        r == is_stressed_label(label@),
{
    let stressed = "STRESSED";
    let r = bytes_equal(label.as_bytes(), stressed.as_bytes());
    proof {
        vstd::utf8::encode_utf8_decode_utf8(label@);
        vstd::utf8::encode_utf8_decode_utf8(stressed@);
    }
    r
}

/// The nudge policy's memory.
pub struct NudgeState {
    /// When the current stretch of STRESSED samples began.
    pub stressed_since: Option<u128>,
    /// When the last nudge fired.
    pub last_nudge: Option<u128>,
    /// The clock reading that times are counted from.
    pub origin: Instant,
}

impl NudgeState {
    /// No stressed stretch and no nudge yet.
    pub fn new() -> (r: NudgeState)
        ensures
            r.stressed_since is None,
            r.last_nudge is None,
    {
        NudgeState { stressed_since: None, last_nudge: None, origin: clock_now() }
    }

    /// One step of the policy at time `now`: a STRESSED label starts or
    /// continues a stressed stretch, and a nudge fires when the stretch has
    /// lasted `stress_duration_secs` and `nudge_cooldown_secs` have passed
    /// since the last nudge; any other label ends the stretch and never
    /// fires.
    pub fn update_at(
        &mut self,
        state_label: &str,
        stress_duration_secs: u64,
        nudge_cooldown_secs: u64,
        now: u128,
    ) -> (fired: bool)
        ensures
            (final(self).stressed_since, final(self).last_nudge, fired) == nudge_step(
                is_stressed_label(state_label@),
                old(self).stressed_since,
                old(self).last_nudge,
                stress_duration_secs,
                nudge_cooldown_secs,
                now,
            ),
            final(self).origin == old(self).origin,
    {
        if label_is_stressed(state_label) {
            let since: u128 = match self.stressed_since {
                Some(t) => t,
                None => now,
            };
            self.stressed_since = Some(since);
            let stress_nanos: u128 = stress_duration_secs as u128 * 1_000_000_000;
            let cooldown_nanos: u128 = nudge_cooldown_secs as u128 * 1_000_000_000;
            let past_threshold = since_nanos(now, since) >= stress_nanos;
            let past_cooldown = match self.last_nudge {
                Some(t) => since_nanos(now, t) >= cooldown_nanos,
                None => true,
            };
            if past_threshold && past_cooldown {
                self.last_nudge = Some(now);
                return true;
            }
        } else {
            self.stressed_since = None;
        }
        false
    }

    /// One step of the policy at the current time. What it does is what
    /// `update_at` does at some reading of the clock.
    pub fn update(
        &mut self,
        state_label: &str,
        stress_duration_secs: u64,
        nudge_cooldown_secs: u64,
    ) -> (fired: bool)
        ensures
            exists|now: u128|
                (final(self).stressed_since, final(self).last_nudge, fired) == #[trigger] nudge_step(
                    is_stressed_label(state_label@),
                    old(self).stressed_since,
                    old(self).last_nudge,
                    stress_duration_secs,
                    nudge_cooldown_secs,
                    now,
                ),
            final(self).origin == old(self).origin,
            !is_stressed_label(state_label@) ==> {
                &&& !fired
                &&& final(self).stressed_since is None
                &&& final(self).last_nudge == old(self).last_nudge
            },
            is_stressed_label(state_label@) ==> final(self).stressed_since is Some,
            is_stressed_label(state_label@) && old(self).stressed_since is Some
                ==> final(self).stressed_since == old(self).stressed_since,
            fired ==> final(self).last_nudge is Some,
            !fired ==> final(self).last_nudge == old(self).last_nudge,
    {
        let elapsed = clock_elapsed(&self.origin);
        let now: u128 = duration_nanos(&elapsed);
        self.update_at(state_label, stress_duration_secs, nudge_cooldown_secs, now)
    }
}

/// Time from `then` to `now`, zero when `then` is later.
fn since_nanos(now: u128, then: u128) -> (r: u128)
    ensures
        r == time_since(now, then),
{
    if now >= then {
        now - then
    } else {
        0
    }
}

// ---------------------------------------------------------------------------
// Laws
// ---------------------------------------------------------------------------

/// The nudge policy reacts to exactly one classifier state: a state's label
/// is the STRESSED label if and only if the state is `Stressed`.
pub proof fn lemma_stressed_label_is_stressed_state(s: State)
    ensures
        is_stressed_label(s.label_spec()) <==> s == State::Stressed,
{
    crate::classifier::lemma_label_names_state(s, State::Stressed);
}

/// No nudge without stress: any other label ends the stressed stretch,
/// keeps the time of the last nudge and does not fire.
pub proof fn lemma_no_nudge_unless_stressed(
    stressed_since: Option<u128>,
    last_nudge: Option<u128>,
    stress_duration_secs: u64,
    nudge_cooldown_secs: u64,
    now: u128,
)
    ensures
        nudge_step(false, stressed_since, last_nudge, stress_duration_secs, nudge_cooldown_secs, now)
            == (None::<u128>, last_nudge, false),
{
}

/// A nudge fires only after a stressed stretch of at least the stress
/// duration, and it records the moment it fired.
pub proof fn lemma_nudge_needs_sustained_stress(
    stressed: bool,
    stressed_since: Option<u128>,
    last_nudge: Option<u128>,
    stress_duration_secs: u64,
    nudge_cooldown_secs: u64,
    now: u128,
)
    ensures
        ({
            let (since, last, fired) = nudge_step(
                stressed,
                stressed_since,
                last_nudge,
                stress_duration_secs,
                nudge_cooldown_secs,
                now,
            );
            fired ==> {
                &&& stressed
                &&& since is Some
                &&& time_since(now, since->0) >= secs_to_nanos(stress_duration_secs)
                &&& last == Some(now)
            }
        }),
{
}

/// A nudge is due and fires as soon as the stressed stretch has lasted the
/// stress duration and the cooldown has passed since the last nudge (or no
/// nudge fired yet).
pub proof fn lemma_nudge_fires_when_due(
    since: u128,
    last_nudge: Option<u128>,
    stress_duration_secs: u64,
    nudge_cooldown_secs: u64,
    now: u128,
)
    requires
        time_since(now, since) >= secs_to_nanos(stress_duration_secs),
        match last_nudge {
            Some(t) => time_since(now, t) >= secs_to_nanos(nudge_cooldown_secs),
            None => true,
        },
    ensures
        nudge_step(true, Some(since), last_nudge, stress_duration_secs, nudge_cooldown_secs, now)
            == (Some(since), Some(now), true),
{
}

/// While the state stays STRESSED, the stretch keeps the moment it began.
pub proof fn lemma_stretch_start_kept(
    since: u128,
    last_nudge: Option<u128>,
    stress_duration_secs: u64,
    nudge_cooldown_secs: u64,
    now: u128,
)
    ensures
        nudge_step(true, Some(since), last_nudge, stress_duration_secs, nudge_cooldown_secs, now).0
            == Some(since),
{
}

/// Cooldown: after a nudge fires at `t1`, a step at `t2` less than the
/// cooldown later does not fire, and keeps `t1` as the last nudge.
pub proof fn lemma_cooldown_between_nudges(
    stressed1: bool,
    stressed2: bool,
    stressed_since: Option<u128>,
    last_nudge: Option<u128>,
    stress_duration_secs: u64,
    nudge_cooldown_secs: u64,
    t1: u128,
    t2: u128,
)
    requires
        nudge_step(
            stressed1,
            stressed_since,
            last_nudge,
            stress_duration_secs,
            nudge_cooldown_secs,
            t1,
        ).2,
        time_since(t2, t1) < secs_to_nanos(nudge_cooldown_secs),
    ensures
        ({
            let (since1, last1, _) = nudge_step(
                stressed1,
                stressed_since,
                last_nudge,
                stress_duration_secs,
                nudge_cooldown_secs,
                t1,
            );
            let (_, last2, fired2) = nudge_step(
                stressed2,
                since1,
                last1,
                stress_duration_secs,
                nudge_cooldown_secs,
                t2,
            );
            !fired2 && last2 == Some(t1)
        }),
{
}

// ---------------------------------------------------------------------------
// Laws over a run of steps
// ---------------------------------------------------------------------------

/// The policy's memory `(stressed_since, last_nudge)` after the first `k`
/// steps of a run that starts as `NudgeState::new` leaves it: step `i`
/// sees a STRESSED label when `stressed[i]`, the stress duration
/// `durations[i]`, the cooldown `cooldown`, at time `times[i]`.
pub open spec fn run_state(
    stressed: Seq<bool>,
    durations: Seq<u64>,
    cooldown: u64,
    times: Seq<u128>,
    k: nat,
) -> (Option<u128>, Option<u128>)
    decreases k,
{
    if k == 0 {
        (None, None)
    } else {
        let (since, last) = run_state(stressed, durations, cooldown, times, (k - 1) as nat);
        let (since2, last2, _) = nudge_step(
            stressed[k - 1],
            since,
            last,
            durations[k - 1],
            cooldown,
            times[k - 1],
        );
        (since2, last2)
    }
}

/// Whether step `k` of the run fires a nudge.
pub open spec fn run_fires(
    stressed: Seq<bool>,
    durations: Seq<u64>,
    cooldown: u64,
    times: Seq<u128>,
    k: nat,
) -> bool {
    let (since, last) = run_state(stressed, durations, cooldown, times, k);
    nudge_step(stressed[k as int], since, last, durations[k as int], cooldown, times[k as int]).2
}

/// After a nudge at step `i`, the last nudge recorded is at a time no
/// earlier than `times[i]` (for a positive cooldown).
proof fn lemma_last_nudge_not_before(
    stressed: Seq<bool>,
    durations: Seq<u64>,
    cooldown: u64,
    times: Seq<u128>,
    i: nat,
    m: nat,
)
    requires
        stressed.len() == times.len(),
        durations.len() == times.len(),
        cooldown > 0,
        i < m <= times.len(),
        run_fires(stressed, durations, cooldown, times, i),
    ensures
        run_state(stressed, durations, cooldown, times, m).1 is Some,
        run_state(stressed, durations, cooldown, times, m).1->0 >= times[i as int],
    decreases m,
{
    if m > i + 1 {
        lemma_last_nudge_not_before(stressed, durations, cooldown, times, i, (m - 1) as nat);
    }
}

/// Minimum time between nudges: over any run with one cooldown, two steps
/// that both fire are at least the cooldown apart.
pub proof fn lemma_nudges_cooldown_apart(
    stressed: Seq<bool>,
    durations: Seq<u64>,
    cooldown: u64,
    times: Seq<u128>,
    i: nat,
    j: nat,
)
    requires
        stressed.len() == times.len(),
        durations.len() == times.len(),
        i < j < times.len(),
        run_fires(stressed, durations, cooldown, times, i),
        run_fires(stressed, durations, cooldown, times, j),
    ensures
        time_since(times[j as int], times[i as int]) >= secs_to_nanos(cooldown),
{
    if cooldown > 0 {
        lemma_last_nudge_not_before(stressed, durations, cooldown, times, i, j);
    }
}

/// The stretch that the run is in after `k` steps began at a step `i`
/// before `k`, and every step from `i` on saw a STRESSED label.
proof fn lemma_stretch_began_at_a_step(
    stressed: Seq<bool>,
    durations: Seq<u64>,
    cooldown: u64,
    times: Seq<u128>,
    k: nat,
)
    requires
        stressed.len() == times.len(),
        durations.len() == times.len(),
        k <= times.len(),
    ensures
        run_state(stressed, durations, cooldown, times, k).0 is Some ==> exists|i: nat|
            #![trigger times[i as int]]
            i < k && run_state(stressed, durations, cooldown, times, k).0 == Some(times[i as int])
                && forall|l: int| i <= l < k ==> #[trigger] stressed[l],
    decreases k,
{
    if k > 0 {
        let p = (k - 1) as nat;
        lemma_stretch_began_at_a_step(stressed, durations, cooldown, times, p);
        if stressed[p as int] {
            match run_state(stressed, durations, cooldown, times, p).0 {
                Some(t) => {
                    let i = choose|i: nat|
                        #![trigger times[i as int]]
                        i < p && run_state(stressed, durations, cooldown, times, p).0 == Some(
                            times[i as int],
                        ) && forall|l: int| i <= l < p ==> #[trigger] stressed[l];
                    assert(forall|l: int| i <= l < k ==> #[trigger] stressed[l]);
                },
                None => {
                    assert(run_state(stressed, durations, cooldown, times, k).0 == Some(
                        times[p as int],
                    ));
                    assert(forall|l: int| p <= l < k ==> #[trigger] stressed[l]);
                },
            }
        }
    }
}

/// Sustained stress before a nudge: when step `j` fires, there is a step
/// `i` at or before it such that every step from `i` to `j` saw a STRESSED
/// label and `times[j]` is at least the stress duration after `times[i]`.
pub proof fn lemma_nudge_after_sustained_stretch(
    stressed: Seq<bool>,
    durations: Seq<u64>,
    cooldown: u64,
    times: Seq<u128>,
    j: nat,
)
    requires
        stressed.len() == times.len(),
        durations.len() == times.len(),
        j < times.len(),
        run_fires(stressed, durations, cooldown, times, j),
    ensures
        exists|i: nat|
            #![trigger times[i as int]]
            i <= j && (forall|l: int| i <= l <= j ==> #[trigger] stressed[l]) && time_since(
                times[j as int],
                times[i as int],
            ) >= secs_to_nanos(durations[j as int]),
{
    lemma_stretch_began_at_a_step(stressed, durations, cooldown, times, j);
    match run_state(stressed, durations, cooldown, times, j).0 {
        Some(t) => {
            let i = choose|i: nat|
                #![trigger times[i as int]]
                i < j && run_state(stressed, durations, cooldown, times, j).0 == Some(
                    times[i as int],
                ) && forall|l: int| i <= l < j ==> #[trigger] stressed[l];
            assert(forall|l: int| i <= l <= j ==> #[trigger] stressed[l]);
        },
        None => {
            assert(forall|l: int| j <= l <= j ==> #[trigger] stressed[l]);
            assert(times[j as int] == times[j as int]);
        },
    }
}

} // verus!
