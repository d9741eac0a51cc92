//! Per-author contribution statistics over a repository's commit history,
//! the ranking of authors, and the state machine of the interactive dashboard.

pub mod app;
pub mod calendar;
pub mod options;
pub mod ranking;
pub mod stats;
pub mod tui;
pub mod users;
