//! Typing-pace monitoring: the keystroke window that the metrics come from,
//! the state classifier, the nudge policy that decides when to interrupt the
//! user, and the reading of the daemon's pid file.

pub mod classifier;
pub mod collector;
pub mod nudge;
pub mod pid;

pub use classifier::{classify_signals, State};
pub use collector::{
    compute_counts, elapsed_nanos, is_correction, is_typing_key, prune_old_events,
    CollectorState, InputEvent, Key, KeyEvent, MetricCounts,
};
pub use nudge::{label_is_stressed, NudgeState};
pub use pid::parse_pid;
