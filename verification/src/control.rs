use vstd::prelude::*;
use crate::convert::convert_spec;
use crate::errors::CaptureError;
use crate::session::{CaptureSession, SessionState};

verus! {

/// User-intent events produced by the tray collaborator and consumed exactly
/// once by the control loop. A closed enumeration; `Quit` is its only
/// variant today, and any future variant is ignored by the loop.
#[derive(Clone, Copy, Debug, PartialEq, Eq, Structural)]
pub enum ControlSignal {
    Quit,
}

/// One occurrence the running capture observes, in arrival order: a buffer
/// delivered by the audio subsystem together with storage's yes or no on its
/// write, or a control signal from the tray collaborator.
pub enum CaptureEvent {
    Buffer { samples: Vec<i32>, storage_ok: bool },
    Control(ControlSignal),
}

/// The bytes a playing session accumulates over an event sequence: each
/// accepted buffer contributes its byte image in order, and nothing follows
/// the first quit signal or the first refused write.
pub open spec fn loop_bytes(events: Seq<CaptureEvent>) -> Seq<u8>
    decreases events.len(),
{
    if events.len() == 0 {
        Seq::empty()
    } else {
        match events[0] {
            CaptureEvent::Control(_) => Seq::empty(),
            CaptureEvent::Buffer { samples, storage_ok } => if storage_ok {
                convert_spec(samples@) + loop_bytes(events.subrange(1, events.len() as int))
            } else {
                Seq::empty()
            },
        }
    }
}

/// Whether the loop ends with the session stopped: it does exactly when the
/// events hold a quit signal or a refused write.
pub open spec fn loop_stops(events: Seq<CaptureEvent>) -> bool
    decreases events.len(),
{
    if events.len() == 0 {
        false
    } else {
        match events[0] {
            CaptureEvent::Control(_) => true,
            CaptureEvent::Buffer { samples, storage_ok } => !storage_ok || loop_stops(
                events.subrange(1, events.len() as int),
            ),
        }
    }
}

/// How the loop ends: a storage refusal before any quit signal is the
/// fatal `IoError`; otherwise the loop ends cleanly.
pub open spec fn loop_result(events: Seq<CaptureEvent>) -> Result<(), CaptureError>
    decreases events.len(),
{
    if events.len() == 0 {
        Ok(())
    } else {
        match events[0] {
            CaptureEvent::Control(_) => Ok(()),
            CaptureEvent::Buffer { samples, storage_ok } => if storage_ok {
                loop_result(events.subrange(1, events.len() as int))
            } else {
                Err(CaptureError::IoError)
            },
        }
    }
}

/// One dispatch of the control loop: a quit signal tears the session down
/// and ends the loop. Every other (future) signal variant would be a no-op.
pub fn handle_signal(session: &mut CaptureSession, signal: ControlSignal) -> (quit: bool)
    ensures
        final(session)@ == old(session)@,
        quit,
        old(session).state_spec() == SessionState::Playing ==> final(session).state_spec()
            == SessionState::Stopped,
        old(session).state_spec() != SessionState::Playing ==> final(session).state_spec() == old(
            session,
        ).state_spec(),
{
    match signal {
        ControlSignal::Quit => {
            session.stop();
            true
        },
    }
}

/// Runs a playing session over an event sequence, dispatching each event in
/// arrival order until a quit signal, a fatal write failure, or the end of
/// the events. Exactly the accepted buffers before the first quit or failure
/// reach the sink — a quit after `n` delivered buffers leaves exactly those
/// `n` buffers' bytes captured, and the sink grows no further.
#[verifier::loop_isolation(false)]
pub fn run_control_loop(session: &mut CaptureSession, events: Vec<CaptureEvent>) -> (r: Result<
    (),
    CaptureError,
>)
    requires
        old(session).state_spec() == SessionState::Playing,
    ensures
        final(session)@ == old(session)@ + loop_bytes(events@),
        loop_stops(events@) ==> final(session).state_spec() == SessionState::Stopped,
        !loop_stops(events@) ==> final(session).state_spec() == SessionState::Playing,
        r == loop_result(events@),
{
    let ghost orig: Seq<CaptureEvent> = events@;
    let mut pending = events;
    while pending.len() > 0
        invariant
            session.state_spec() == SessionState::Playing,
            old(session)@ + loop_bytes(orig) == session@ + loop_bytes(pending@),
            loop_stops(orig) == loop_stops(pending@),
            loop_result(orig) == loop_result(pending@),
        decreases pending@.len(),
    {
        let ghost prev: Seq<CaptureEvent> = pending@;
        let ev = pending.remove(0);
        proof {
            assert(pending@ =~= prev.subrange(1, prev.len() as int));
        }
        match ev {
            CaptureEvent::Control(sig) => {
                handle_signal(session, sig);
                return Ok(());
            },
            CaptureEvent::Buffer { samples, storage_ok } => {
                let ghost before: Seq<u8> = session@;
                let res = session.deliver(&samples, storage_ok);
                match res {
                    Ok(()) => {
                        proof {
                            assert(loop_bytes(prev) == convert_spec(samples@) + loop_bytes(
                                pending@,
                            ));
                            assert(session@ + loop_bytes(pending@) =~= before + loop_bytes(prev));
                        }
                    },
                    Err(e) => {
                        return Err(e);
                    },
                }
            },
        }
    }
    proof {
        assert(loop_bytes(pending@) =~= Seq::<u8>::empty());
        assert(session@ =~= old(session)@ + loop_bytes(orig));
    }
    Ok(())
}

} // verus!
