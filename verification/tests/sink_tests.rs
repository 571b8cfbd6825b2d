use rawrec::errors::CaptureError;
use rawrec::sink::SampleSink;

#[test]
fn write_appends_whole_buffer() {
    let mut sink = SampleSink::new();
    assert!(sink.write(&[1, 2, 3], true).is_ok());
    assert_eq!(sink.contents(), &vec![1, 2, 3]);
    assert!(sink.write(&[4, 5], true).is_ok());
    assert_eq!(sink.contents(), &vec![1, 2, 3, 4, 5]);
}

#[test]
fn refused_write_appends_nothing() {
    let mut sink = SampleSink::new();
    sink.write(&[9, 9], true).unwrap();
    let res = sink.write(&[1, 2, 3], false);
    assert_eq!(res, Err(CaptureError::IoError));
    assert_eq!(sink.contents(), &vec![9, 9]);
}

#[test]
fn interleaved_callers_never_split_a_buffer() {
    // Two simulated callback threads take turns at the sink's lock; the
    // lock admits one whole write at a time, so the output is some
    // serialization of whole buffers. Under the schedule A, B, A each
    // buffer must appear contiguously, never byte-interleaved.
    let first_caller = [vec![0x10u8, 0x11, 0x12], vec![0x13u8, 0x14]];
    let second_caller = [vec![0x20u8, 0x21]];
    let mut sink = SampleSink::new();
    sink.write(&first_caller[0], true).unwrap();
    sink.write(&second_caller[0], true).unwrap();
    sink.write(&first_caller[1], true).unwrap();
    let out = sink.contents();
    assert_eq!(out, &vec![0x10, 0x11, 0x12, 0x20, 0x21, 0x13, 0x14]);
    assert_eq!(&out[0..3], &first_caller[0][..]);
    assert_eq!(&out[3..5], &second_caller[0][..]);
    assert_eq!(&out[5..7], &first_caller[1][..]);
}
