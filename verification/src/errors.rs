use vstd::prelude::*;

verus! {

/// The error taxonomy of the capture pipeline.
///
/// Every one of these is fatal to the current invocation: enumeration and
/// index-resolution failures abort before any capture begins, and once a
/// session is playing, a stream or storage failure stops it for good.
/// Nothing is ever retried.
#[derive(Clone, Copy, Debug, PartialEq, Eq, Structural)]
pub enum CaptureError {
    /// The host audio subsystem could not enumerate its input devices.
    DeviceEnumerationError,
    /// A 1-based device index was 0 or exceeded the catalog size.
    InvalidDeviceIndex,
    /// The device rejected the pinned target sample rate.
    UnsupportedRateError,
    /// The stream could not be opened with the negotiated configuration.
    StreamOpenError,
    /// The stream reported an asynchronous, unrecoverable error.
    StreamRuntimeError,
    /// A write to the output sink failed.
    IoError,
}

/// The description `message` returns for each error.
pub open spec fn message_spec(e: CaptureError) -> Seq<char> {
    match e {
        CaptureError::DeviceEnumerationError => "error retrieving input devices"@,
        CaptureError::InvalidDeviceIndex => "invalid device number"@,
        CaptureError::UnsupportedRateError => "device does not support the target sample rate"@,
        CaptureError::StreamOpenError => "error creating stream"@,
        CaptureError::StreamRuntimeError => "stream error"@,
        CaptureError::IoError => "error writing to file"@,
    }
}

impl CaptureError {
    /// A human-readable description of the error.
    pub fn message(&self) -> (r: String)
        ensures
            r@ == message_spec(*self),
    {
        match self {
            CaptureError::DeviceEnumerationError => String::from_str("error retrieving input devices"),
            CaptureError::InvalidDeviceIndex => String::from_str("invalid device number"),
            CaptureError::UnsupportedRateError => String::from_str("device does not support the target sample rate"),
            CaptureError::StreamOpenError => String::from_str("error creating stream"),
            CaptureError::StreamRuntimeError => String::from_str("stream error"),
            CaptureError::IoError => String::from_str("error writing to file"),
        }
    }
}

} // verus!
