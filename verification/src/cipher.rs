use vstd::prelude::*;

verus! {

/// The stored form of a byte written through the mount point: one more,
/// with 255 wrapping round to 0.
pub open spec fn encode_byte(b: u8) -> u8 {
    if b == 255 { 0 } else { (b + 1) as u8 }
}

/// The byte handed to a reader for a stored byte: one less, with 0 wrapping
/// round to 255.
pub open spec fn decode_byte(b: u8) -> u8 {
    if b == 0 { 255 } else { (b - 1) as u8 }
}

/// The stored form of a sequence of bytes, byte by byte.
pub open spec fn encode_seq(s: Seq<u8>) -> Seq<u8> {
    s.map_values(|b: u8| encode_byte(b))
}

/// The bytes handed to a reader for a stored sequence, byte by byte.
pub open spec fn decode_seq(s: Seq<u8>) -> Seq<u8> {
    s.map_values(|b: u8| decode_byte(b))
}

/// Turns the bytes that a writer hands over into the bytes that are stored.
pub fn encode(data: &[u8]) -> (out: Vec<u8>)
    ensures
        out@ == encode_seq(data@),
{
    let mut out: Vec<u8> = Vec::new();
    let n: usize = data.len();
    let mut i: usize = 0;
    while i < n
        invariant
            n == data@.len(),
            i <= n,
            out@ == encode_seq(data@.take(i as int)),
        decreases n - i,
    {
        let b: u8 = data[i];
        let e: u8 = if b == 255 { 0 } else { b + 1 };
        out.push(e);
        assert(data@.take((i + 1) as int) == data@.take(i as int).push(b));
        i = i + 1;
    }
    assert(data@.take(n as int) == data@);
    out
}

/// Turns stored bytes into the bytes that a reader receives.
pub fn decode(data: &[u8]) -> (out: Vec<u8>)
    ensures
        out@ == decode_seq(data@),
{
    let mut out: Vec<u8> = Vec::new();
    let n: usize = data.len();
    let mut i: usize = 0;
    while i < n
        invariant
            n == data@.len(),
            i <= n,
            out@ == decode_seq(data@.take(i as int)),
        decreases n - i,
    {
        let b: u8 = data[i];
        let d: u8 = if b == 0 { 255 } else { b - 1 };
        out.push(d);
        assert(data@.take((i + 1) as int) == data@.take(i as int).push(b));
        i = i + 1;
    }
    assert(data@.take(n as int) == data@);
    out
}

/// Reading back what was written gives the written bytes: decoding the
/// stored form of any byte sequence yields that sequence.
pub proof fn lemma_decode_encode(s: Seq<u8>)
    ensures
        decode_seq(encode_seq(s)) == s,
{
    assert(decode_seq(encode_seq(s)) =~= s);
}

/// The stored form is determined by what a reader sees: encoding the decoded
/// form of any stored sequence yields the stored sequence.
pub proof fn lemma_encode_decode(s: Seq<u8>)
    ensures
        encode_seq(decode_seq(s)) == s,
{
    assert(encode_seq(decode_seq(s)) =~= s);
}

/// Encoding keeps the length, so the byte count that a write reports is the
/// number of bytes the writer handed over.
pub proof fn lemma_encode_len(s: Seq<u8>)
    ensures
        encode_seq(s).len() == s.len(),
        decode_seq(s).len() == s.len(),
{
}

} // verus!
