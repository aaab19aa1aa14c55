//! Script-facing state: DOM event listeners and timer bookkeeping.

pub mod events;
pub mod timers;
