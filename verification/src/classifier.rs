//! Threshold-based state classifier.
//!
//! The metric comparisons themselves (keystrokes per minute against the
//! passive threshold, rhythm variance, correction rate against the user's
//! threshold) are made by the caller; this module decides which state those
//! signals amount to, and how each state is shown.

use vstd::prelude::*;

verus! {

/// The typing state reported to the user.
#[derive(Debug, Clone, Copy, PartialEq, Eq, Structural)]
pub enum State {
    /// Collector reports no active typing.
    Idle,
    /// Low typing activity or high rhythm variance: reading or browsing.
    Passive,
    /// Active typing, correction rate within normal range.
    Normal,
    /// Active typing, high correction rate: stress signal.
    Stressed,
}

impl State {
    /// The menu-bar glyph of each state.
    pub open spec fn emoji_spec(self) -> Seq<char> {
        match self {
            State::Idle => "⚪"@,
            State::Passive => "🔵"@,
            State::Normal => "🟡"@,
            State::Stressed => "🔴"@,
        }
    }

    /// The upper-case name of each state.
    pub open spec fn label_spec(self) -> Seq<char> {
        match self {
            State::Idle => "IDLE"@,
            State::Passive => "PASSIVE"@,
            State::Normal => "NORMAL"@,
            State::Stressed => "STRESSED"@,
        }
    }

    pub fn emoji(&self) -> (r: &'static str)
        ensures
            r@ == self.emoji_spec(),
    {
        match self {
            State::Idle => "⚪",
            State::Passive => "🔵",
            State::Normal => "🟡",
            State::Stressed => "🔴",
        }
    }

    pub fn label(&self) -> (r: &'static str)
        ensures
            r@ == self.label_spec(),
    {
        match self {
            State::Idle => "IDLE",
            State::Passive => "PASSIVE",
            State::Normal => "NORMAL",
            State::Stressed => "STRESSED",
        }
    }
}

/// The state that the classifier assigns to its three signals: whether the
/// user typed recently, whether the typing is slow or irregular, and whether
/// the correction rate is above the user's threshold.
pub open spec fn classify_spec(is_active: bool, slow_or_irregular: bool, over_threshold: bool) -> State {
    if !is_active {
        State::Idle
    } else if slow_or_irregular {
        State::Passive
    } else if !over_threshold {
        State::Normal
    } else {
        State::Stressed
    }
}

/// Decides the typing state. Inactivity takes precedence over everything,
/// slow or irregular typing over the correction rate.
pub fn classify_signals(is_active: bool, slow_or_irregular: bool, over_threshold: bool) -> (s: State)
    ensures
        s == classify_spec(is_active, slow_or_irregular, over_threshold),
        (s == State::Idle) <==> !is_active,
        (s == State::Passive) <==> (is_active && slow_or_irregular),
        (s == State::Normal) <==> (is_active && !slow_or_irregular && !over_threshold),
        (s == State::Stressed) <==> (is_active && !slow_or_irregular && over_threshold),
{
    if !is_active {
        return State::Idle;
    }
    if slow_or_irregular {
        return State::Passive;
    }
    if !over_threshold {
        return State::Normal;
    }
    State::Stressed
}

/// Each state has its own label: the label names the state.
pub proof fn lemma_label_names_state(a: State, b: State)
    ensures
        (a.label_spec() == b.label_spec()) <==> (a == b),
{
    reveal_strlit("IDLE");
    reveal_strlit("PASSIVE");
    reveal_strlit("NORMAL");
    reveal_strlit("STRESSED");
    assert("IDLE"@.len() == 4);
    assert("PASSIVE"@.len() == 7);
    assert("NORMAL"@.len() == 6);
    assert("STRESSED"@.len() == 8);
}

/// Each state has its own glyph.
pub proof fn lemma_emoji_names_state(a: State, b: State)
    ensures
        (a.emoji_spec() == b.emoji_spec()) <==> (a == b),
{
    reveal_strlit("⚪");
    reveal_strlit("🔵");
    reveal_strlit("🟡");
    reveal_strlit("🔴");
    assert("⚪"@[0] == '⚪');
    assert("🔵"@[0] == '🔵');
    assert("🟡"@[0] == '🟡');
    assert("🔴"@[0] == '🔴');
}

} // verus!
