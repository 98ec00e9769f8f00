//! The dashboard: its state, what it shows, and how it reacts.

pub mod app;
pub mod link;
pub mod state;
pub mod ui;
