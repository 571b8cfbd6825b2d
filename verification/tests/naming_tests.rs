use rawrec::errors::CaptureError;
use rawrec::naming::{normalize_file_name, status_message};

#[test]
fn plain_name_gets_raw_extension() {
    assert_eq!(normalize_file_name("take1"), "take1.raw");
}

#[test]
fn raw_name_is_left_unchanged() {
    assert_eq!(normalize_file_name("take1.raw"), "take1.raw");
}

#[test]
fn short_and_edge_names_normalize() {
    assert_eq!(normalize_file_name(""), ".raw");
    assert_eq!(normalize_file_name("a"), "a.raw");
    assert_eq!(normalize_file_name("raw"), "raw.raw");
    assert_eq!(normalize_file_name(".raw"), ".raw");
    assert_eq!(normalize_file_name("take1.wav"), "take1.wav.raw");
}

#[test]
fn status_line_names_the_output_file() {
    assert_eq!(status_message("take1.raw"), "Recording: take1.raw");
}

#[test]
fn every_error_has_a_message() {
    let cases = [
        (CaptureError::DeviceEnumerationError, "error retrieving input devices"),
        (CaptureError::InvalidDeviceIndex, "invalid device number"),
        (CaptureError::UnsupportedRateError, "device does not support the target sample rate"),
        (CaptureError::StreamOpenError, "error creating stream"),
        (CaptureError::StreamRuntimeError, "stream error"),
        (CaptureError::IoError, "error writing to file"),
    ];
    for (err, text) in cases {
        assert_eq!(err.message(), text);
    }
}
