use pace_coach::{classify_signals, State};

#[test]
fn idle_when_not_active_signals() {
    assert_eq!(classify_signals(false, false, false), State::Idle);
    assert_eq!(classify_signals(false, true, true), State::Idle);
}

#[test]
fn passive_when_slow_or_irregular() {
    assert_eq!(classify_signals(true, true, false), State::Passive);
    assert_eq!(classify_signals(true, true, true), State::Passive);
}

#[test]
fn normal_when_within_threshold() {
    assert_eq!(classify_signals(true, false, false), State::Normal);
}

#[test]
fn stressed_when_over_threshold() {
    assert_eq!(classify_signals(true, false, true), State::Stressed);
}

#[test]
fn labels_and_emojis() {
    assert_eq!(State::Idle.label(), "IDLE");
    assert_eq!(State::Passive.label(), "PASSIVE");
    assert_eq!(State::Normal.label(), "NORMAL");
    assert_eq!(State::Stressed.label(), "STRESSED");
    assert_eq!(State::Idle.emoji(), "⚪");
    assert_eq!(State::Passive.emoji(), "🔵");
    assert_eq!(State::Normal.emoji(), "🟡");
    assert_eq!(State::Stressed.emoji(), "🔴");
}
