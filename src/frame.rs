//! Length-prefixed frames: `len: u32be, code: u8, payload: [u8; len - 1]`.
use vstd::prelude::*;
use vstd::slice::slice_to_vec;

verus! {

/// Largest frame length (code byte included) accepted by default.
pub const MAX_FRAME: u32 = 65536;

/// A frame's code and payload.
pub struct Frame {
    pub code: u8,
    pub payload: Vec<u8>,
}

/// Why bytes do not start with an acceptable frame.
#[derive(Debug, Clone, Copy, PartialEq, Eq, Structural)]
pub enum FrameError {
    /// No byte at all: the stream ended between frames.
    EndOfStream,
    /// The bytes end inside a frame.
    Truncated,
    /// The length field is zero, so there is not even a code byte.
    ZeroLength,
    /// The length field exceeds the maximum frame size.
    TooLarge,
}

/// The big-endian number in the first four bytes of `b`.
pub open spec fn be32_value(b: Seq<u8>) -> u32 {
    ((b[0] as u32) << 24u32) | ((b[1] as u32) << 16u32) | ((b[2] as u32) << 8u32) | (b[3] as u32)
}

/// The four big-endian bytes of `n`.
pub open spec fn be32_bytes(n: u32) -> Seq<u8> {
    seq![(n >> 24u32) as u8, (n >> 16u32) as u8, (n >> 8u32) as u8, n as u8]
}

/// The wire form of a frame.
pub open spec fn frame_bytes(code: u8, payload: Seq<u8>) -> Seq<u8> {
    be32_bytes((payload.len() + 1) as u32) + seq![code] + payload
}

/// What the frame at the start of `bytes` is: its code, its payload and the
/// number of bytes it takes, or why there is none.
pub open spec fn decoded(bytes: Seq<u8>, max_frame: u32) -> Result<(u8, Seq<u8>, int), FrameError> {
    if bytes.len() == 0 {
        Err(FrameError::EndOfStream)
    } else if bytes.len() < 4 {
        Err(FrameError::Truncated)
    } else {
        let n = be32_value(bytes) as int;
        if n == 0 {
            Err(FrameError::ZeroLength)
        } else if n > max_frame {
            Err(FrameError::TooLarge)
        } else if bytes.len() < 4 + n {
            Err(FrameError::Truncated)
        } else {
            Ok((bytes[4], bytes.subrange(5, 4 + n), 4 + n))
        }
    }
}

proof fn lemma_be32(n: u32)
    ensures
        be32_value(be32_bytes(n)) == n,
{
    let b = be32_bytes(n);
    let b0 = (n >> 24u32) as u8;
    let b1 = (n >> 16u32) as u8;
    let b2 = (n >> 8u32) as u8;
    let b3 = n as u8;
    assert(b[0] == b0 && b[1] == b1 && b[2] == b2 && b[3] == b3);
    assert(((b0 as u32) << 24u32) | ((b1 as u32) << 16u32) | ((b2 as u32) << 8u32) | (b3 as u32) == n)
        by (bit_vector)
        requires
            b0 == (n >> 24u32) as u8,
            b1 == (n >> 16u32) as u8,
            b2 == (n >> 8u32) as u8,
            b3 == n as u8,
    ;
}

/// Four bytes read as a big-endian number and written back are the same four
/// bytes.
pub proof fn lemma_be32_bytes_value(b: Seq<u8>)
    requires
        b.len() >= 4,
    ensures
        be32_bytes(be32_value(b)) == b.take(4),
{
    let (b0, b1, b2, b3) = (b[0], b[1], b[2], b[3]);
    let n = be32_value(b);
    assert(n == ((b0 as u32) << 24u32) | ((b1 as u32) << 16u32) | ((b2 as u32) << 8u32) | (b3 as u32));
    assert((n >> 24u32) as u8 == b0 && (n >> 16u32) as u8 == b1 && (n >> 8u32) as u8 == b2 && n as u8 == b3)
        by (bit_vector)
        requires
            n == ((b0 as u32) << 24u32) | ((b1 as u32) << 16u32) | ((b2 as u32) << 8u32) | (b3 as u32),
    ;
    assert(be32_bytes(n) =~= b.take(4));
}

/// Encoding a frame and decoding it again gives back its code and payload,
/// whatever bytes follow it, for every payload shorter than the maximum frame
/// size.
pub proof fn law_frame_round_trip(code: u8, payload: Seq<u8>, rest: Seq<u8>, max_frame: u32)
    requires
        payload.len() + 1 <= max_frame,
    ensures
        decoded(frame_bytes(code, payload) + rest, max_frame) == Ok::<(u8, Seq<u8>, int), FrameError>(
            (code, payload, payload.len() + 5 as int),
        ),
{
    let bytes = frame_bytes(code, payload) + rest;
    lemma_be32((payload.len() + 1) as u32);
    assert(bytes.take(4) =~= be32_bytes((payload.len() + 1) as u32));
    assert(bytes.subrange(5, 5 + payload.len() as int) =~= payload);
}

/// Appends the bytes of `s` to `out`.
pub fn extend_bytes(out: &mut Vec<u8>, s: &[u8])
    ensures
        final(out)@ == old(out)@ + s@,
{
    let ghost start = out@;
    let mut i: usize = 0;
    while i < s.len()
        invariant
            0 <= i <= s@.len(),
            out@ == start + s@.take(i as int),
        decreases s@.len() - i,
    {
        out.push(s[i]);
        i = i + 1;
        assert(out@ =~= start + s@.take(i as int));
    }
    assert(s@.take(i as int) =~= s@);
}

/// The wire form of a frame.
pub fn encode_frame(code: u8, payload: &[u8]) -> (r: Vec<u8>)
    requires
        payload@.len() < u32::MAX,
    ensures
        r@ == frame_bytes(code, payload@),
{
    let n = (payload.len() + 1) as u32;
    let mut out: Vec<u8> = Vec::new();
    out.push((n >> 24u32) as u8);
    out.push((n >> 16u32) as u8);
    out.push((n >> 8u32) as u8);
    out.push(n as u8);
    out.push(code);
    assert(out@ =~= be32_bytes(n) + seq![code]);
    extend_bytes(&mut out, payload);
    out
}

/// Reads the frame at the start of `bytes`, refusing a length field of zero or
/// one above `max_frame`; returns the frame and how many bytes it took.
pub fn decode_frame(bytes: &[u8], max_frame: u32) -> (r: Result<(Frame, usize), FrameError>)
    ensures
        match r {
            Ok((f, used)) => decoded(bytes@, max_frame) == Ok::<(u8, Seq<u8>, int), FrameError>(
                (f.code, f.payload@, used as int),
            ),
            Err(e) => decoded(bytes@, max_frame) == Err::<(u8, Seq<u8>, int), FrameError>(e),
        },
{
    let len = bytes.len();
    if len == 0 {
        return Err(FrameError::EndOfStream);
    }
    if len < 4 {
        return Err(FrameError::Truncated);
    }
    let n: u32 = ((bytes[0] as u32) << 24u32) | ((bytes[1] as u32) << 16u32) | ((bytes[2] as u32) << 8u32)
        | (bytes[3] as u32);
    if n == 0 {
        return Err(FrameError::ZeroLength);
    }
    if n > max_frame {
        return Err(FrameError::TooLarge);
    }
    let size = n as usize;
    if len - 4 < size {
        return Err(FrameError::Truncated);
    }
    let payload = slice_to_vec(&bytes[5..4 + size]);
    Ok((Frame { code: bytes[4], payload }, 4 + size))
}

} // verus!
