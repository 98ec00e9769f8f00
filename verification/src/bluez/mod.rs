//! What the BlueZ object tree says of the devices it knows.

pub mod device;
pub mod hid;
