//! Flash-image reconstruction and device-mode control for an AVR mouse
//! controller that is updated over a vendor-defined HID protocol.

pub mod avr_flashing;
pub mod cli;
pub mod communicator;
