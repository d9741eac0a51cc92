//! The interactive dashboard: its state, its input events and what it draws.

pub mod app;
pub mod event;
pub mod ui;
