use rawrec::control::{handle_signal, run_control_loop, CaptureEvent, ControlSignal};
use rawrec::convert::convert_buffer;
use rawrec::errors::CaptureError;
use rawrec::session::{CaptureSession, OpenOutcome, SessionState};
use rawrec::sink::SampleSink;

fn playing_session() -> CaptureSession {
    let mut session = CaptureSession::new(SampleSink::new());
    session.start(OpenOutcome::Opened).unwrap();
    session
}

fn buffer(samples: Vec<i32>) -> CaptureEvent {
    CaptureEvent::Buffer { samples, storage_ok: true }
}

#[test]
fn quit_signal_stops_the_session_and_exits() {
    let mut session = playing_session();
    let quit = handle_signal(&mut session, ControlSignal::Quit);
    assert!(quit);
    assert_eq!(session.current_state(), SessionState::Stopped);
}

#[test]
fn quit_after_n_buffers_keeps_exactly_their_bytes() {
    let delivered = [vec![1, 2], vec![3], vec![4, 5, 6]];
    let mut events: Vec<CaptureEvent> = delivered.iter().map(|b| buffer(b.clone())).collect();
    events.push(CaptureEvent::Control(ControlSignal::Quit));
    events.push(buffer(vec![7, 8]));
    events.push(buffer(vec![9]));

    let mut session = playing_session();
    let res = run_control_loop(&mut session, events);
    assert!(res.is_ok());
    assert_eq!(session.current_state(), SessionState::Stopped);

    let mut expected: Vec<u8> = Vec::new();
    for b in &delivered {
        expected.extend_from_slice(&convert_buffer(b));
    }
    assert_eq!(session.captured(), &expected);
}

#[test]
fn loop_without_quit_keeps_playing() {
    let mut session = playing_session();
    let res = run_control_loop(&mut session, vec![buffer(vec![1]), buffer(vec![2])]);
    assert!(res.is_ok());
    assert_eq!(session.current_state(), SessionState::Playing);
    let mut expected = convert_buffer(&vec![1]);
    expected.extend_from_slice(&convert_buffer(&vec![2]));
    assert_eq!(session.captured(), &expected);
}

#[test]
fn write_failure_ends_the_loop_fatally() {
    let mut session = playing_session();
    let events = vec![
        buffer(vec![1]),
        CaptureEvent::Buffer { samples: vec![2], storage_ok: false },
        buffer(vec![3]),
    ];
    let res = run_control_loop(&mut session, events);
    assert_eq!(res, Err(CaptureError::IoError));
    assert_eq!(session.current_state(), SessionState::Stopped);
    assert_eq!(session.captured(), &convert_buffer(&vec![1]));
}
