//! Pulse Orbit: the decision logic of a macOS menu-bar system monitor.
//!
//! The library holds what the monitor computes between reading the system and
//! showing or storing the result: the metric payload types, the Apple Silicon
//! core topology, counter deltas and their baselines, the alert cooldown
//! state, the history schedule and the text the monitor produces.
pub mod text;
pub mod types;
pub mod m_series;
pub mod name_map;
pub mod counters;
pub mod snapshot;
pub mod alerts;
pub mod schedule;
pub mod processes;
pub mod iokit;
