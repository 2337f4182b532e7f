//! The values that a command takes.

use vstd::prelude::*;

verus! {

/// The two firmware personalities of the device.
#[derive(Copy, Clone, PartialEq, Eq, Structural, PartialOrd, Ord, Debug)]
pub enum DeviceMode {
    App,
    Bootloader,
}

impl DeviceMode {
    /// The personality that the device is not in.
    pub open spec fn spec_other(self) -> DeviceMode {
        match self {
            DeviceMode::App => DeviceMode::Bootloader,
            DeviceMode::Bootloader => DeviceMode::App,
        }
    }

    /// The personality that the device is not in.
    #[verifier::when_used_as_spec(spec_other)]
    pub fn other(self) -> (r: DeviceMode)
        ensures
            r == self.spec_other(),
    {
        match self {
            DeviceMode::App => DeviceMode::Bootloader,
            DeviceMode::Bootloader => DeviceMode::App,
        }
    }

    /// The name of the mode as the command line writes it.
    pub open spec fn spec_name(self) -> Seq<char> {
        match self {
            DeviceMode::App => "app"@,
            DeviceMode::Bootloader => "bootloader"@,
        }
    }

    /// The name of the mode as the command line writes it.
    pub fn name(&self) -> (r: &'static str)
        ensures
            r@ == self.spec_name(),
    {
        match self {
            DeviceMode::App => "app",
            DeviceMode::Bootloader => "bootloader",
        }
    }
}

} // verus!
