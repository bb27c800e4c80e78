//! Frames: a 4-byte little-endian length followed by exactly that many
//! payload bytes.
use vstd::prelude::*;

verus! {

/// Largest payload a frame may carry; a larger declared length is a
/// protocol violation and is refused before any buffer is allocated.
pub const MAX_FRAME_LEN: u32 = 16777216;

/// Size of the length prefix.
pub const HEADER_LEN: usize = 4;

/// Why a frame could not be read or written.
#[derive(Debug, Clone, Copy, PartialEq, Eq, Structural)]
pub enum FrameError {
    /// The length prefix was short or missing: the peer went away.
    ConnectionClosed,
    /// The payload ended before the declared length was reached.
    ReadFailed,
    /// The declared or actual payload length exceeds `MAX_FRAME_LEN`.
    TooLarge,
}

/// The four little-endian bytes of `n`.
pub open spec fn le_bytes(n: u32) -> Seq<u8> {
    seq![
        (n & 0xff) as u8,
        ((n >> 8u32) & 0xff) as u8,
        ((n >> 16u32) & 0xff) as u8,
        ((n >> 24u32) & 0xff) as u8,
    ]
}

/// The number that four little-endian bytes stand for.
pub open spec fn le_value(b0: u8, b1: u8, b2: u8, b3: u8) -> u32 {
    (b0 as u32) | ((b1 as u32) << 8u32) | ((b2 as u32) << 16u32) | ((b3 as u32) << 24u32)
}

/// The length declared by the first four bytes of `b`.
pub open spec fn declared_len(b: Seq<u8>) -> u32
    recommends
        b.len() >= 4,
{
    le_value(b[0], b[1], b[2], b[3])
}

/// The frame that carries `payload`.
pub open spec fn frame_of(payload: Seq<u8>) -> Seq<u8> {
    le_bytes(payload.len() as u32) + payload
}

/// What reading one frame from the front of `b` yields: the payload and the
/// number of bytes the frame took.
pub open spec fn decode_spec(b: Seq<u8>) -> Result<(Seq<u8>, nat), FrameError> {
    if b.len() < 4 {
        Err(FrameError::ConnectionClosed)
    } else if declared_len(b) > MAX_FRAME_LEN {
        Err(FrameError::TooLarge)
    } else if b.len() < 4 + declared_len(b) {
        Err(FrameError::ReadFailed)
    } else {
        Ok((b.subrange(4, 4 + declared_len(b)), (4 + declared_len(b)) as nat))
    }
}

proof fn lemma_le_round_trip(n: u32)
    ensures
        le_value(le_bytes(n)[0], le_bytes(n)[1], le_bytes(n)[2], le_bytes(n)[3]) == n,
{
    let b0 = (n & 0xff) as u8;
    let b1 = ((n >> 8u32) & 0xff) as u8;
    let b2 = ((n >> 16u32) & 0xff) as u8;
    let b3 = ((n >> 24u32) & 0xff) as u8;
    assert(((n & 0xff) as u8) as u32 == n & 0xff) by (bit_vector);
    assert((((n >> 8u32) & 0xff) as u8) as u32 == (n >> 8u32) & 0xff) by (bit_vector);
    assert((((n >> 16u32) & 0xff) as u8) as u32 == (n >> 16u32) & 0xff) by (bit_vector);
    assert((((n >> 24u32) & 0xff) as u8) as u32 == (n >> 24u32) & 0xff) by (bit_vector);
    assert(((n & 0xff) | (((n >> 8u32) & 0xff) << 8u32) | (((n >> 16u32) & 0xff) << 16u32) | (
    ((n >> 24u32) & 0xff) << 24u32)) == n) by (bit_vector);
}

/// Frame round trip: reading a frame back from the front of a stream that
/// starts with the frame of `payload` yields `payload`, whatever follows it.
pub proof fn lemma_frame_round_trip(payload: Seq<u8>, rest: Seq<u8>)
    requires
        payload.len() <= MAX_FRAME_LEN,
    ensures
        decode_spec(frame_of(payload) + rest) == Ok::<(Seq<u8>, nat), FrameError>(
            (payload, payload.len() + 4),
        ),
{
    let n = payload.len() as u32;
    let s = frame_of(payload) + rest;
    lemma_le_round_trip(n);
    assert(declared_len(s) == n);
    assert(s.subrange(4, 4 + n) =~= payload);
}

/// Length prefix: every frame begins with four little-endian bytes whose
/// value is the frame's length less four.
pub proof fn lemma_length_prefix(payload: Seq<u8>)
    requires
        payload.len() <= MAX_FRAME_LEN,
    ensures
        frame_of(payload).len() >= 4,
        declared_len(frame_of(payload)) == frame_of(payload).len() - 4,
{
    lemma_le_round_trip(payload.len() as u32);
}

/// The four bytes of the length prefix for `n`.
pub fn encode_len(n: u32) -> (r: [u8; 4])
    ensures
        r@ == le_bytes(n),
{
    let r = [
        (n & 0xff) as u8,
        ((n >> 8u32) & 0xff) as u8,
        ((n >> 16u32) & 0xff) as u8,
        ((n >> 24u32) & 0xff) as u8,
    ];
    assert(r@ =~= le_bytes(n));
    r
}

/// Frames `payload`: its length as four little-endian bytes, then the
/// payload itself. A payload over `MAX_FRAME_LEN` is refused.
pub fn encode_frame(payload: &[u8]) -> (r: Result<Vec<u8>, FrameError>)
    ensures
        payload@.len() <= MAX_FRAME_LEN ==> (r matches Ok(v) && v@ == frame_of(payload@)),
        payload@.len() > MAX_FRAME_LEN ==> r == Err::<Vec<u8>, FrameError>(FrameError::TooLarge),
{
    if payload.len() > MAX_FRAME_LEN as usize {
        return Err(FrameError::TooLarge);
    }
    let header = encode_len(payload.len() as u32);
    let mut out: Vec<u8> = Vec::with_capacity(payload.len() + HEADER_LEN);
    out.push(header[0]);
    out.push(header[1]);
    out.push(header[2]);
    out.push(header[3]);
    let mut i: usize = 0;
    while i < payload.len()
        invariant
            i <= payload@.len(),
            out@ == le_bytes(payload@.len() as u32) + payload@.subrange(0, i as int),
        decreases payload@.len() - i,
    {
        out.push(payload[i]);
        i = i + 1;
        assert(out@ =~= le_bytes(payload@.len() as u32) + payload@.subrange(0, i as int));
    }
    assert(payload@.subrange(0, payload@.len() as int) =~= payload@);
    Ok(out)
}

/// Reads the payload length from a length prefix of which `header` holds the
/// bytes actually received. Fewer than four bytes means the peer closed the
/// connection; a length over `MAX_FRAME_LEN` is refused.
pub fn payload_len(header: &[u8]) -> (r: Result<usize, FrameError>)
    ensures
        header@.len() < 4 ==> r == Err::<usize, FrameError>(FrameError::ConnectionClosed),
        header@.len() >= 4 && declared_len(header@) > MAX_FRAME_LEN ==> r == Err::<usize, FrameError>(FrameError::TooLarge),
        header@.len() >= 4 && declared_len(header@) <= MAX_FRAME_LEN ==> r == Ok::<usize, FrameError>(declared_len(header@) as usize),
{
    if header.len() < HEADER_LEN {
        return Err(FrameError::ConnectionClosed);
    }
    let n: u32 = (header[0] as u32) | ((header[1] as u32) << 8u32) | ((header[2] as u32) << 16u32)
        | ((header[3] as u32) << 24u32);
    if n > MAX_FRAME_LEN {
        Err(FrameError::TooLarge)
    } else {
        Ok(n as usize)
    }
}

/// Reads one frame from the front of `stream`, the bytes received so far on
/// a connection: the payload, and how many bytes the frame took.
pub fn decode_frame(stream: &[u8]) -> (r: Result<(Vec<u8>, usize), FrameError>)
    ensures
        match (r, decode_spec(stream@)) {
            (Ok((p, n)), Ok((sp, sn))) => p@ == sp && n == sn,
            (Err(e), Err(se)) => e == se,
            _ => false,
        },
{
    let len = match payload_len(stream) {
        Ok(n) => n,
        Err(e) => return Err(e),
    };
    if stream.len() - HEADER_LEN < len {
        return Err(FrameError::ReadFailed);
    }
    let mut payload: Vec<u8> = Vec::with_capacity(len);
    let mut i: usize = 0;
    while i < len
        invariant
            i <= len,
            HEADER_LEN + len <= stream.len(),
            payload@ == stream@.subrange(4, 4 + i),
        decreases len - i,
    {
        payload.push(stream[HEADER_LEN + i]);
        i = i + 1;
        assert(payload@ =~= stream@.subrange(4, 4 + i));
    }
    Ok((payload, HEADER_LEN + len))
}

} // verus!
