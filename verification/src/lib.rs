//! Per-command invocation throttling ("cooldowns").
//!
//! A [`cooldown::Cooldowns`] tracker decides, for an incoming invocation
//! identified by user, channel and optionally guild, whether execution is
//! blocked by an active cooldown bucket, and records a new invocation
//! timestamp once execution proceeds. Time is measured in abstract monotonic
//! ticks supplied by the caller; the tracker itself never reads a clock.

pub mod cooldown;
pub mod laws;
pub mod store;
