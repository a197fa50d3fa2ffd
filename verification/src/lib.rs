//! Interactive assignment wizard for billing time intervals.
//!
//! A tracked time interval carries free-form tags; before it can be billed it
//! must be classified by project and service. This library holds the verified
//! core of that bridge: the tag classifier, the compact date-time parser and
//! duration computation, the project catalog with customer-aware display
//! names, the wizard state machine that walks the user through unresolved
//! intervals, and the aggregation step that merges duplicate assignments
//! before submission. All I/O (configuration, HTTP catalog fetches, the
//! terminal front end) lives outside this crate and hands in plain values.

pub mod answer;
pub mod config;
pub mod datetime;
pub mod mite;
pub mod model;
pub mod tags;
pub mod taskwarrior;
pub mod timew_input;
pub mod tw_entry;
pub mod ui;
