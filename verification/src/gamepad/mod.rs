//! The remote as a virtual gamepad: the mapping of buttons and stick, and the
//! translation of remote events into input events.

pub mod config;
pub mod pad;
pub mod state;
