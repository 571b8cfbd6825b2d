use rawrec::convert::convert_buffer;
use rawrec::errors::CaptureError;
use rawrec::session::{CaptureSession, OpenOutcome, SessionState};
use rawrec::sink::SampleSink;

fn playing_session() -> CaptureSession {
    let mut session = CaptureSession::new(SampleSink::new());
    session.start(OpenOutcome::Opened).unwrap();
    session
}

#[test]
fn successful_open_starts_playing() {
    let mut session = CaptureSession::new(SampleSink::new());
    assert_eq!(session.current_state(), SessionState::Created);
    assert!(session.start(OpenOutcome::Opened).is_ok());
    assert_eq!(session.current_state(), SessionState::Playing);
}

#[test]
fn rejected_rate_is_fatal_at_startup() {
    let mut session = CaptureSession::new(SampleSink::new());
    let res = session.start(OpenOutcome::RateRejected);
    assert_eq!(res, Err(CaptureError::UnsupportedRateError));
    assert_eq!(session.current_state(), SessionState::Created);
}

#[test]
fn failed_open_leaves_session_created() {
    let mut session = CaptureSession::new(SampleSink::new());
    let res = session.start(OpenOutcome::OpenFailed);
    assert_eq!(res, Err(CaptureError::StreamOpenError));
    assert_eq!(session.current_state(), SessionState::Created);
}

#[test]
fn delivered_buffers_reach_the_sink_converted() {
    let mut session = playing_session();
    let buffer = vec![i32::from_le_bytes([0x01, 0x02, 0x03, 0x04]), -1];
    session.deliver(&buffer, true).unwrap();
    assert_eq!(session.captured(), &convert_buffer(&buffer));
    assert_eq!(session.current_state(), SessionState::Playing);
}

#[test]
fn refused_write_stops_the_session() {
    let mut session = playing_session();
    session.deliver(&vec![5, 6], true).unwrap();
    let before = session.captured().clone();
    let res = session.deliver(&vec![7, 8], false);
    assert_eq!(res, Err(CaptureError::IoError));
    assert_eq!(session.current_state(), SessionState::Stopped);
    assert_eq!(session.captured(), &before);
}

#[test]
fn stream_error_stops_the_session() {
    let mut session = playing_session();
    let err = session.stream_error();
    assert_eq!(err, CaptureError::StreamRuntimeError);
    assert_eq!(session.current_state(), SessionState::Stopped);
}

#[test]
fn stop_is_idempotent() {
    let mut session = playing_session();
    session.stop();
    assert_eq!(session.current_state(), SessionState::Stopped);
    session.stop();
    assert_eq!(session.current_state(), SessionState::Stopped);
    let mut fresh = CaptureSession::new(SampleSink::new());
    fresh.stop();
    assert_eq!(fresh.current_state(), SessionState::Created);
}
