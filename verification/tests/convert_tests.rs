use rawrec::convert::convert_buffer;

#[test]
fn sample_drops_least_significant_byte() {
    // The sample whose little-endian byte image is 0x12 0x34 0x56 0x78:
    // the lowest byte 0x12 is dropped, the rest keep their order.
    let sample = i32::from_le_bytes([0x12, 0x34, 0x56, 0x78]);
    let bytes = convert_buffer(&vec![sample]);
    assert_eq!(bytes, vec![0x34, 0x56, 0x78]);
}

#[test]
fn frames_concatenate_in_delivery_order() {
    let a = i32::from_le_bytes([0x01, 0x02, 0x03, 0x04]);
    let b = i32::from_le_bytes([0x05, 0x06, 0x07, 0x08]);
    let bytes = convert_buffer(&vec![a, b]);
    assert_eq!(bytes, vec![0x02, 0x03, 0x04, 0x06, 0x07, 0x08]);
}

#[test]
fn negative_samples_keep_their_upper_bytes() {
    let bytes = convert_buffer(&vec![-1, i32::MIN]);
    assert_eq!(bytes, vec![0xff, 0xff, 0xff, 0x00, 0x00, 0x80]);
}

#[test]
fn empty_buffer_yields_no_bytes() {
    let bytes = convert_buffer(&Vec::new());
    assert!(bytes.is_empty());
}
