//! Finding the device on the bus and switching it between its two modes.

pub mod discovery;
pub mod error;
pub mod mode_switch;

pub use discovery::{find_communicator, CommunicatorBuilder, DeviceIdentity};
pub use error::CommunicationError;
