use pace_coach::{label_is_stressed, NudgeState, State};

#[test]
fn nudge_not_fired_for_non_stressed_states() {
    let mut n = NudgeState::new();
    assert!(!n.update("NORMAL", 0, 0));
    assert!(!n.update("IDLE", 0, 0));
    assert!(!n.update("PASSIVE", 0, 0));
}

#[test]
fn nudge_not_fired_below_stress_duration() {
    let mut n = NudgeState::new();
    assert!(!n.update("STRESSED", 60, 0));
}

#[test]
fn nudge_fires_when_stress_duration_is_zero() {
    let mut n = NudgeState::new();
    assert!(n.update("STRESSED", 0, 0));
}

#[test]
fn nudge_respects_cooldown() {
    let mut n = NudgeState::new();
    assert!(n.update("STRESSED", 0, 0));
    assert!(!n.update("STRESSED", 0, 60));
}

#[test]
fn stressed_since_resets_on_non_stressed_state() {
    let mut n = NudgeState::new();
    n.update("STRESSED", 0, 0);
    n.update("NORMAL", 0, 0);
    assert!(n.stressed_since.is_none());
}

#[test]
fn update_at_fires_after_sustained_stress() {
    let mut n = NudgeState::new();
    // Stretch starts at 1 s; 10 s are needed.
    assert!(!n.update_at("STRESSED", 10, 60, 1_000_000_000));
    assert_eq!(n.stressed_since, Some(1_000_000_000));
    assert!(!n.update_at("STRESSED", 10, 60, 10_999_999_999));
    assert!(n.update_at("STRESSED", 10, 60, 11_000_000_000));
    assert_eq!(n.last_nudge, Some(11_000_000_000));
    // The stretch keeps its start.
    assert_eq!(n.stressed_since, Some(1_000_000_000));
}

#[test]
fn update_at_cooldown_boundary() {
    let mut n = NudgeState::new();
    assert!(n.update_at("STRESSED", 0, 60, 5_000_000_000));
    assert!(!n.update_at("STRESSED", 0, 60, 64_999_999_999));
    assert_eq!(n.last_nudge, Some(5_000_000_000));
    assert!(n.update_at("STRESSED", 0, 60, 65_000_000_000));
    assert_eq!(n.last_nudge, Some(65_000_000_000));
}

#[test]
fn update_at_non_stressed_keeps_last_nudge() {
    let mut n = NudgeState::new();
    assert!(n.update_at("STRESSED", 0, 0, 7));
    assert!(!n.update_at("NORMAL", 0, 0, 8));
    assert_eq!(n.stressed_since, None);
    assert_eq!(n.last_nudge, Some(7));
    // A new stretch starts at the next stressed sample.
    assert!(n.update_at("STRESSED", 0, 0, 9));
    assert_eq!(n.stressed_since, Some(9));
}

#[test]
fn label_matching_is_exact() {
    assert!(label_is_stressed("STRESSED"));
    assert!(!label_is_stressed("stressed"));
    assert!(!label_is_stressed("STRESSED "));
    assert!(!label_is_stressed("STRESSE"));
    assert!(!label_is_stressed(""));
}

#[test]
fn only_the_stressed_state_triggers() {
    assert!(label_is_stressed(State::Stressed.label()));
    assert!(!label_is_stressed(State::Normal.label()));
    assert!(!label_is_stressed(State::Passive.label()));
    assert!(!label_is_stressed(State::Idle.label()));
}

#[test]
fn cooldown_holds_across_quiet_steps() {
    let s = 1_000_000_000u128;
    let mut n = NudgeState::new();
    assert!(n.update_at("STRESSED", 0, 60, 0));
    assert!(!n.update_at("NORMAL", 0, 60, 10 * s));
    assert!(!n.update_at("STRESSED", 0, 60, 20 * s));
    assert!(!n.update_at("STRESSED", 0, 60, 59 * s));
    assert!(n.update_at("STRESSED", 0, 60, 61 * s));
}

#[test]
fn interrupted_stretch_starts_over() {
    let s = 1_000_000_000u128;
    let mut n = NudgeState::new();
    assert!(!n.update_at("STRESSED", 10, 0, 0));
    assert!(!n.update_at("PASSIVE", 10, 0, 5 * s));
    assert!(!n.update_at("STRESSED", 10, 0, 6 * s));
    // Ten seconds after the start of the first stretch, but only nine into
    // the current one.
    assert!(!n.update_at("STRESSED", 10, 0, 15 * s));
    assert!(n.update_at("STRESSED", 10, 0, 16 * s));
}
