use vstd::prelude::*;
use crate::errors::CaptureError;

verus! {

/// An append-only byte sink standing between the capture callback and
/// persistent storage. All calls are serialized (the real storage handle is
/// guarded by one lock, held only for the duration of a write), so the sink's
/// history is a single byte sequence and each accepted write appends its
/// whole buffer at once: no two writes ever interleave partial byte
/// sequences.
///
/// Whether storage accepts a write is the storage's own answer (disk full,
/// permission revoked, device removed); it enters here as an argument, and
/// the sink's behaviour is specified for either answer.
pub struct SampleSink {
    data: Vec<u8>,
}

impl View for SampleSink {
    type V = Seq<u8>;

    closed spec fn view(&self) -> Seq<u8> {
        self.data@
    }
}

impl SampleSink {
    /// An empty sink, created before the stream starts playing.
    pub fn new() -> (r: SampleSink)
        ensures
            r@ == Seq::<u8>::empty(),
    {
        SampleSink { data: Vec::new() }
    }

    /// Appends one converted buffer. Succeeds exactly when storage accepts
    /// the write; on success the whole buffer is appended atomically, on
    /// failure nothing is appended and the failure is fatal to the session
    /// (there is no retry).
    pub fn write(&mut self, bytes: &[u8], storage_ok: bool) -> (r: Result<(), CaptureError>)
        ensures
            storage_ok ==> final(self)@ == old(self)@ + bytes@ && r == Ok::<(), CaptureError>(()),
            !storage_ok ==> final(self)@ == old(self)@ && r == Err::<(), CaptureError>(
                CaptureError::IoError,
            ),
    {
        if storage_ok {
            let mut j: usize = 0;
            while j < bytes.len()
                invariant
                    j <= bytes@.len(),
                    self.data@ == old(self)@ + bytes@.subrange(0, j as int),
                decreases bytes@.len() - j,
            {
                self.data.push(bytes[j]);
                proof {
                    assert(old(self)@ + bytes@.subrange(0, j + 1 as int) =~= (old(self)@
                        + bytes@.subrange(0, j as int)).push(bytes@[j as int]));
                }
                j = j + 1;
            }
            proof {
                assert(bytes@.subrange(0, bytes@.len() as int) =~= bytes@);
            }
            Ok(())
        } else {
            Err(CaptureError::IoError)
        }
    }

    /// The bytes written so far, in write order.
    pub fn contents(&self) -> (r: &Vec<u8>)
        ensures
            r@ == self@,
    {
        &self.data
    }
}

/// Writes never interleave: under any serialization of two writes `a` and
/// `b` against prior contents `c`, each buffer occupies one contiguous run
/// of the resulting byte stream.
pub proof fn lemma_writes_are_atomic(c: Seq<u8>, a: Seq<u8>, b: Seq<u8>)
    ensures
        (c + a + b).subrange(c.len() as int, (c.len() + a.len()) as int) == a,
        (c + a + b).subrange(
            (c.len() + a.len()) as int,
            (c.len() + a.len() + b.len()) as int,
        ) == b,
{
    assert((c + a + b).subrange(c.len() as int, (c.len() + a.len()) as int) =~= a);
    assert((c + a + b).subrange(
        (c.len() + a.len()) as int,
        (c.len() + a.len() + b.len()) as int,
    ) =~= b);
}

} // verus!
