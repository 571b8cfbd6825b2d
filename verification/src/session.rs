use vstd::prelude::*;
use crate::convert::{convert_buffer, convert_spec};
use crate::errors::CaptureError;
use crate::sink::SampleSink;

verus! {

/// The capture-session lifecycle: `Created` until the stream is opened,
/// `Playing` while buffers are delivered, `Stopped` terminally once the
/// stream resource is released.
#[derive(Clone, Copy, Debug, PartialEq, Eq, Structural)]
pub enum SessionState {
    Created,
    Playing,
    Stopped,
}

/// How the host answered the request to open the stream with the negotiated
/// configuration: it opened, it rejected the pinned sample rate, or it failed
/// for any other reason.
#[derive(Clone, Copy, Debug, PartialEq, Eq, Structural)]
pub enum OpenOutcome {
    Opened,
    RateRejected,
    OpenFailed,
}

/// Owns the sink and tracks the stream lifecycle. On each delivered buffer
/// it converts the samples and forwards the bytes to the sink; a stream or
/// storage failure is fatal and moves the session to `Stopped`. At most one
/// session is active per process; the front end that owns the real stream
/// handle keeps this value beside it.
pub struct CaptureSession {
    state: SessionState,
    sink: SampleSink,
}

impl View for CaptureSession {
    type V = Seq<u8>;

    /// A session is viewed as the bytes it has forwarded to its sink.
    closed spec fn view(&self) -> Seq<u8> {
        self.sink@
    }
}

impl CaptureSession {
    /// The lifecycle state the session is in.
    pub closed spec fn state_spec(&self) -> SessionState {
        self.state
    }

    /// A fresh session over `sink`, not yet playing.
    pub fn new(sink: SampleSink) -> (r: CaptureSession)
        ensures
            r.state_spec() == SessionState::Created,
            r@ == sink@,
    {
        CaptureSession { state: SessionState::Created, sink }
    }

    /// Records the host's answer to opening the stream. Success moves the
    /// session to `Playing`; a rejected target rate or any other open
    /// failure leaves it in `Created` and reports which of the two happened,
    /// for the caller to surface (both are fatal at startup).
    pub fn start(&mut self, outcome: OpenOutcome) -> (r: Result<(), CaptureError>)
        requires
            old(self).state_spec() == SessionState::Created,
        ensures
            final(self)@ == old(self)@,
            outcome == OpenOutcome::Opened ==> final(self).state_spec() == SessionState::Playing
                && r == Ok::<(), CaptureError>(()),
            outcome == OpenOutcome::RateRejected ==> final(self).state_spec()
                == SessionState::Created && r == Err::<(), CaptureError>(
                CaptureError::UnsupportedRateError,
            ),
            outcome == OpenOutcome::OpenFailed ==> final(self).state_spec()
                == SessionState::Created && r == Err::<(), CaptureError>(
                CaptureError::StreamOpenError,
            ),
    {
        match outcome {
            OpenOutcome::Opened => {
                self.state = SessionState::Playing;
                Ok(())
            },
            OpenOutcome::RateRejected => Err(CaptureError::UnsupportedRateError),
            OpenOutcome::OpenFailed => Err(CaptureError::StreamOpenError),
        }
    }

    /// One data-callback invocation: converts the delivered buffer and
    /// forwards the bytes to the sink. `storage_ok` says whether storage accepted
    /// the write. On acceptance exactly the buffer's byte image is appended
    /// and the session keeps playing; on refusal nothing is appended and the
    /// session stops for good. Callbacks are only delivered while the stream
    /// plays.
    pub fn deliver(&mut self, data: &Vec<i32>, storage_ok: bool) -> (r: Result<(), CaptureError>)
        requires
            old(self).state_spec() == SessionState::Playing,
        ensures
            storage_ok ==> final(self)@ == old(self)@ + convert_spec(data@)
                && final(self).state_spec() == SessionState::Playing && r == Ok::<(), CaptureError>(
                (),
            ),
            !storage_ok ==> final(self)@ == old(self)@ && final(self).state_spec()
                == SessionState::Stopped && r == Err::<(), CaptureError>(CaptureError::IoError),
    {
        let bytes = convert_buffer(data);
        let res = self.sink.write(bytes.as_slice(), storage_ok);
        if res.is_err() {
            self.state = SessionState::Stopped;
        }
        res
    }

    /// The error callback: an asynchronous stream-level fault (device
    /// unplugged, driver fault). Fatal — the session stops and never
    /// attempts to reopen; no bytes are touched.
    pub fn stream_error(&mut self) -> (r: CaptureError)
        ensures
            final(self)@ == old(self)@,
            final(self).state_spec() == SessionState::Stopped,
            r == CaptureError::StreamRuntimeError,
    {
        self.state = SessionState::Stopped;
        CaptureError::StreamRuntimeError
    }

    /// Releases the stream: from `Playing` the session becomes `Stopped`;
    /// from any other state this is an idempotent no-op. No bytes are
    /// touched, and no further buffers are delivered afterwards.
    pub fn stop(&mut self)
        ensures
            final(self)@ == old(self)@,
            old(self).state_spec() == SessionState::Playing ==> final(self).state_spec()
                == SessionState::Stopped,
            old(self).state_spec() != SessionState::Playing ==> final(self).state_spec() == old(
                self,
            ).state_spec(),
    {
        if matches!(self.state, SessionState::Playing) {
            self.state = SessionState::Stopped;
        }
    }

    /// The lifecycle state, for callers outside the proof.
    pub fn current_state(&self) -> (r: SessionState)
        ensures
            r == self.state_spec(),
    {
        self.state
    }

    /// The bytes captured so far, in delivery order.
    pub fn captured(&self) -> (r: &Vec<u8>)
        ensures
            r@ == self@,
    {
        self.sink.contents()
    }
}

} // verus!
