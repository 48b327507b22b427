//! The accessibility of a device, as the session layer reports it.

use vstd::prelude::*;

verus! {

/// The current accessibility of a device.
#[derive(Debug, Clone, Copy, PartialEq, Eq, Structural)]
pub enum DeviceAccessStatus {
    /// The availability of the device is unknown.
    Unknown,
    /// The device can be opened for reading and writing and is not opened.
    ReadWrite,
    /// The device can be opened for reading and is not opened.
    ReadOnly,
    /// The device is seen but cannot be reached.
    NoAccess,
    /// The device is opened by somebody else.
    Busy,
    /// The device is opened here for reading and writing.
    OpenReadWrite,
    /// The device is opened here for reading.
    OpenReadOnly,
}

impl DeviceAccessStatus {
    /// Whether the device is opened here.
    pub fn is_opened(self) -> (opened: bool)
        ensures
            opened <==> (self is OpenReadOnly || self is OpenReadWrite),
    {
        matches!(self, DeviceAccessStatus::OpenReadOnly | DeviceAccessStatus::OpenReadWrite)
    }
}

} // verus!
