//! What can go wrong between the host and the device.

use vstd::prelude::*;

use crate::cli::types::DeviceMode;

verus! {

/// Why no handle in the requested mode could be had.
#[derive(Copy, Clone, PartialEq, Eq, Structural, Debug)]
pub enum CommunicationError {
    /// No device reappeared in time after the command to change the mode.
    DeviceReSearchTimeout,
    /// More than one physical device with a recognized identity is attached.
    TooManyDevices,
    /// The device reappeared after the command to change the mode, and is
    /// still in the mode that it was to leave.
    StillInWrongMode(DeviceMode),
}

impl CommunicationError {
    /// The text of the error.
    pub open spec fn spec_message(self) -> Seq<char> {
        match self {
            CommunicationError::DeviceReSearchTimeout =>
            "Timed out while searching for device after mode change"@,
            CommunicationError::TooManyDevices => "too many devices found"@,
            CommunicationError::StillInWrongMode(DeviceMode::App) => "device is still in app"@,
            CommunicationError::StillInWrongMode(DeviceMode::Bootloader) =>
            "device is still in bootloader"@,
        }
    }

    /// The text of the error.
    pub fn message(&self) -> (r: &'static str)
        ensures
            r@ == self.spec_message(),
    {
        match self {
            CommunicationError::DeviceReSearchTimeout => {
                "Timed out while searching for device after mode change"
            },
            CommunicationError::TooManyDevices => "too many devices found",
            CommunicationError::StillInWrongMode(DeviceMode::App) => "device is still in app",
            CommunicationError::StillInWrongMode(DeviceMode::Bootloader) => {
                "device is still in bootloader"
            },
        }
    }
}

} // verus!
