//! Errors of device queries and stream creation.
use vstd::prelude::*;

verus! {

/// Error that can happen when enumerating the list of supported formats.
#[derive(Debug, Clone, Copy, PartialEq, Eq, Structural)]
pub enum FormatsEnumerationError {
    /// The device no longer exists, for example because it was unplugged.
    DeviceNotAvailable,
}

/// May occur when asking a `Device` for its default input or output format.
#[derive(Debug, Clone, Copy, PartialEq, Eq, Structural)]
pub enum DefaultFormatError {
    /// The device no longer exists, for example because it was unplugged.
    DeviceNotAvailable,
    /// The device has no format in that direction, e.g. the default input
    /// format of an output-only device.
    StreamTypeNotSupported,
}

/// Error that can happen when creating a stream.
#[derive(Debug, Clone, Copy, PartialEq, Eq, Structural)]
pub enum CreationError {
    /// The device no longer exists, for example because it was unplugged.
    DeviceNotAvailable,
    /// The requested format is not supported by the device.
    FormatNotSupported,
}

impl FormatsEnumerationError {
    /// A sentence that describes the error.
    pub fn description(&self) -> (r: &'static str)
        ensures
            r@ == "The requested device is no longer available (for example, it has been unplugged)."@,
    {
        "The requested device is no longer available (for example, it has been unplugged)."
    }
}

impl CreationError {
    /// A sentence that describes the error.
    pub fn description(&self) -> (r: &'static str)
        ensures
            *self == CreationError::DeviceNotAvailable ==> r@
                == "The requested device is no longer available (for example, it has been unplugged)."@,
            *self == CreationError::FormatNotSupported ==> r@
                == "The requested samples format is not supported by the device."@,
    {
        match self {
            CreationError::DeviceNotAvailable => {
                "The requested device is no longer available (for example, it has been unplugged)."
            },
            CreationError::FormatNotSupported => {
                "The requested samples format is not supported by the device."
            },
        }
    }
}

} // verus!
