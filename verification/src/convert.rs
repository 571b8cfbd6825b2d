use vstd::prelude::*;

verus! {

/// The three bytes kept of one 32-bit sample: its little-endian bytes with
/// the least significant one dropped, still in little-endian significance
/// order. This is the 24-bit PCM encoding of the sample's upper three bytes;
/// the literal truncation of the lowest byte is deliberate.
pub open spec fn sample_bytes(s: i32) -> Seq<u8> {
    seq![
        (((s as u32) >> 8) & 0xff) as u8,
        (((s as u32) >> 16) & 0xff) as u8,
        (((s as u32) >> 24) & 0xff) as u8,
    ]
}

/// The byte image of a whole delivered buffer: each sample's three kept
/// bytes, per channel and per frame exactly in delivery order.
pub open spec fn convert_spec(data: Seq<i32>) -> Seq<u8>
    decreases data.len(),
{
    if data.len() == 0 {
        Seq::empty()
    } else {
        convert_spec(data.drop_last()) + sample_bytes(data.last())
    }
}

/// The converted image is three bytes per sample.
pub proof fn lemma_convert_len(data: Seq<i32>)
    ensures
        convert_spec(data).len() == 3 * data.len(),
    decreases data.len(),
{
    if data.len() > 0 {
        lemma_convert_len(data.drop_last());
    }
}

/// Converts one delivered buffer of 32-bit samples to its 24-bit
/// little-endian PCM byte sequence.
pub fn convert_buffer(data: &Vec<i32>) -> (r: Vec<u8>)
    ensures
        r@ == convert_spec(data@),
{
    let mut out: Vec<u8> = Vec::new();
    let mut i: usize = 0;
    while i < data.len()
        invariant
            i <= data@.len(),
            out@ == convert_spec(data@.subrange(0, i as int)),
        decreases data@.len() - i,
    {
        let v = data[i] as u32;
        assert((v >> 8) & 0xff < 256 && (v >> 16) & 0xff < 256 && (v >> 24) & 0xff < 256)
            by (bit_vector);
        out.push(((v >> 8) & 0xff) as u8);
        out.push(((v >> 16) & 0xff) as u8);
        out.push(((v >> 24) & 0xff) as u8);
        proof {
            let pre = data@.subrange(0, i as int);
            let cur = data@.subrange(0, i + 1 as int);
            assert(cur.drop_last() =~= pre);
            assert(cur.last() == data@[i as int]);
            assert(out@ =~= convert_spec(pre) + sample_bytes(data@[i as int]));
        }
        i = i + 1;
    }
    proof {
        assert(data@.subrange(0, data@.len() as int) =~= data@);
    }
    out
}

} // verus!
