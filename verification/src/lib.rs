//! Verified core of a client for the gen-3 Siri Remote.

pub mod audio;
pub mod bluez;
pub mod calibration;
pub mod cli;
pub mod contact;
pub mod decoder;
pub mod dump;
pub mod events;
pub mod gamepad;
pub mod hid;
pub mod logger;
pub mod mic;
pub mod order;
pub mod pair;
pub mod reconnect;
pub mod scan;
pub mod session;
pub mod text;
pub mod unpair;
pub mod view;
