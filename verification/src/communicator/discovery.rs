//! Picking the one device out of what the bus enumerates.

use vstd::prelude::*;

use super::error::CommunicationError;
use crate::cli::types::DeviceMode;

verus! {

/// The vendor id under which the device enumerates in both modes.
pub const VENDOR_ID: u16 = 0x03EB;

/// The product id of the device while it runs the application.
pub const PRODUCT_ID_APP: u16 = 0x2041;

/// The product id of the device while it runs the bootloader.
pub const PRODUCT_ID_BOOTLOADER: u16 = 0x2067;

/// What the bus tells of one enumerated entry. A physical device may
/// enumerate as several entries, which then share their `path`.
#[derive(Debug, PartialEq, Eq)]
pub struct DeviceIdentity {
    pub vendor_id: u16,
    pub product_id: u16,
    pub path: Vec<u8>,
}

/// The mode that a vendor and product id stand for, if they are the device's.
pub open spec fn mode_of(vendor_id: u16, product_id: u16) -> Option<DeviceMode> {
    if vendor_id == VENDOR_ID && product_id == PRODUCT_ID_APP {
        Some(DeviceMode::App)
    } else if vendor_id == VENDOR_ID && product_id == PRODUCT_ID_BOOTLOADER {
        Some(DeviceMode::Bootloader)
    } else {
        None
    }
}

/// The entry is one of the device.
pub open spec fn recognized(entry: DeviceIdentity) -> bool {
    mode_of(entry.vendor_id, entry.product_id) is Some
}

/// Two recognized entries of `devices` lie on different paths: more than one
/// physical device is attached.
pub open spec fn several_devices(devices: Seq<DeviceIdentity>) -> bool {
    exists|i: int, j: int|
        0 <= i < devices.len() && 0 <= j < devices.len() && recognized(#[trigger] devices[i])
            && recognized(#[trigger] devices[j]) && devices[i].path@ != devices[j].path@
}

/// No entry of `devices` before `end` is recognized.
pub open spec fn none_recognized(devices: Seq<DeviceIdentity>, end: int) -> bool {
    forall|i: int| 0 <= i < end ==> !recognized(#[trigger] devices[i])
}

/// The device to open: the place of its entry in the enumeration, and the
/// mode that the entry's identity stands for.
#[derive(Copy, Clone, PartialEq, Eq, Structural, Debug)]
pub struct CommunicatorBuilder {
    pub index: usize,
    pub mode: DeviceMode,
}

impl CommunicatorBuilder {
    /// The builder for the entry `dev_info` at the place `index` of the
    /// enumeration, if the entry is one of the device.
    pub fn from_dev_info(index: usize, dev_info: &DeviceIdentity) -> (r: Option<Self>)
        ensures
            r == match mode_of(dev_info.vendor_id, dev_info.product_id) {
                Some(mode) => Some(CommunicatorBuilder { index, mode }),
                None => None,
            },
    {
        if dev_info.vendor_id == VENDOR_ID && dev_info.product_id == PRODUCT_ID_APP {
            Some(CommunicatorBuilder { index, mode: DeviceMode::App })
        } else if dev_info.vendor_id == VENDOR_ID && dev_info.product_id == PRODUCT_ID_BOOTLOADER {
            Some(CommunicatorBuilder { index, mode: DeviceMode::Bootloader })
        } else {
            None
        }
    }
}

/// Whether two paths are the same.
fn same_path(a: &Vec<u8>, b: &Vec<u8>) -> (r: bool)
    ensures
        r == (a@ == b@),
{
    if a.len() != b.len() {
        return false;
    }
    let mut i: usize = 0;
    while i < a.len()
        invariant
            a@.len() == b@.len(),
            0 <= i <= a@.len(),
            forall|j: int| 0 <= j < i ==> a@[j] == b@[j],
        decreases a@.len() - i,
    {
        if a[i] != b[i] {
            return false;
        }
        i = i + 1;
    }
    assert(a@ =~= b@);
    true
}

/// What discovery gives for the enumeration `devices`: an error where several
/// physical devices are attached, nothing where none is, else the first
/// recognized entry.
pub open spec fn discovered(
    devices: Seq<DeviceIdentity>,
    result: Result<Option<CommunicatorBuilder>, CommunicationError>,
) -> bool {
    if several_devices(devices) {
        result == Err::<Option<CommunicatorBuilder>, CommunicationError>(
            CommunicationError::TooManyDevices,
        )
    } else {
        match result {
            Ok(Some(builder)) => {
                &&& 0 <= builder.index < devices.len()
                &&& none_recognized(devices, builder.index as int)
                &&& mode_of(
                    devices[builder.index as int].vendor_id,
                    devices[builder.index as int].product_id,
                ) == Some(builder.mode)
            },
            Ok(None) => none_recognized(devices, devices.len() as int),
            Err(_) => false,
        }
    }
}

/// Pick the device out of the enumeration `devices`. Entries that share a
/// path are one physical device; at most one physical device may be attached.
pub fn find_communicator(devices: &[DeviceIdentity]) -> (r: Result<
    Option<CommunicatorBuilder>,
    CommunicationError,
>)
    ensures
        discovered(devices@, r),
{
    let mut found: Option<CommunicatorBuilder> = None;
    let mut i: usize = 0;
    while i < devices.len()
        invariant
            0 <= i <= devices@.len(),
            match found {
                Some(builder) => {
                    &&& 0 <= builder.index < i
                    &&& none_recognized(devices@, builder.index as int)
                    &&& mode_of(
                        devices@[builder.index as int].vendor_id,
                        devices@[builder.index as int].product_id,
                    ) == Some(builder.mode)
                    &&& forall|j: int|
                        0 <= j < i && recognized(#[trigger] devices@[j]) ==> devices@[j].path@
                            == devices@[builder.index as int].path@
                },
                None => none_recognized(devices@, i as int),
            },
        decreases devices@.len() - i,
    {
        match CommunicatorBuilder::from_dev_info(i, &devices[i]) {
            Some(builder) => {
                match found {
                    Some(first) => {
                        if !same_path(&devices[first.index].path, &devices[i].path) {
                            assert(recognized(devices@[first.index as int]));
                            assert(recognized(devices@[i as int]));
                            return Err(CommunicationError::TooManyDevices);
                        }
                    },
                    None => {
                        found = Some(builder);
                    },
                }
            },
            None => {},
        }
        i = i + 1;
    }
    Ok(found)
}

} // verus!
