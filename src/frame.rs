//! Length-prefixed framing: every frame on the wire is a 4-byte big-endian
//! length followed by exactly that many payload bytes, with the payload capped
//! at one mebibyte.
use vstd::prelude::*;

verus! {

/// The largest payload a frame may carry, in bytes (1 MiB).
pub const MAX_FRAME_LEN: usize = 1048576;

/// Number of bytes in the length prefix.
pub const PREFIX_LEN: usize = 4;

/// Why a frame could not be built or read.
#[derive(Debug, Clone, Copy, PartialEq, Eq, Structural)]
pub enum FrameError {
    /// The payload (or the length a peer advertised) is over `MAX_FRAME_LEN`.
    Oversized,
    /// The bytes ended before the prefix or the payload was complete.
    Truncated,
}

/// The four big-endian bytes of `n`.
pub open spec fn be_bytes(n: u32) -> Seq<u8> {
    seq![
        (n / 0x100_0000) as u8,
        ((n / 0x1_0000) % 0x100) as u8,
        ((n / 0x100) % 0x100) as u8,
        (n % 0x100) as u8,
    ]
}

/// The number that the first four bytes of `b` spell in big-endian order.
pub open spec fn be_value(b: Seq<u8>) -> nat
    recommends
        b.len() >= 4,
{
    (b[0] as nat) * 0x100_0000 + (b[1] as nat) * 0x1_0000 + (b[2] as nat) * 0x100 + (b[3] as nat)
}

/// The wire form of a payload: its length as a 4-byte big-endian prefix,
/// then the payload itself.
pub open spec fn frame_of(p: Seq<u8>) -> Seq<u8> {
    be_bytes(p.len() as u32) + p
}

/// What reading one frame from the start of `buf` yields, when `buf` is all
/// that arrives before the stream ends.
pub open spec fn decode_spec(buf: Seq<u8>) -> Result<Seq<u8>, FrameError> {
    if buf.len() < 4 {
        Err(FrameError::Truncated)
    } else if be_value(buf) > MAX_FRAME_LEN {
        Err(FrameError::Oversized)
    } else if buf.len() < 4 + be_value(buf) {
        Err(FrameError::Truncated)
    } else {
        Ok(buf.subrange(4, 4 + be_value(buf) as int))
    }
}

/// The length that a complete 4-byte prefix announces, checked against the cap.
pub open spec fn header_spec(prefix: Seq<u8>) -> Result<nat, FrameError> {
    if prefix.len() < 4 {
        Err(FrameError::Truncated)
    } else if be_value(prefix) > MAX_FRAME_LEN {
        Err(FrameError::Oversized)
    } else {
        Ok(be_value(prefix))
    }
}

/// Reading back the big-endian bytes of `n` gives `n`.
pub proof fn lemma_be_round_trip(n: u32)
    ensures
        be_bytes(n).len() == 4,
        be_value(be_bytes(n)) == n as nat,
{
    let b = be_bytes(n);
    assert(b.len() == 4);
    let n0 = n / 0x100_0000;
    let n1 = (n / 0x1_0000) % 0x100;
    let n2 = (n / 0x100) % 0x100;
    let n3 = n % 0x100;
    assert(n0 < 0x100) by (nonlinear_arith)
        requires
            n0 == n / 0x100_0000,
            n <= 0xffff_ffff,
    ;
    assert(n0 as nat * 0x100_0000 + n1 as nat * 0x1_0000 + n2 as nat * 0x100 + n3 as nat == n as nat)
        by (nonlinear_arith)
        requires
            n0 == n / 0x100_0000,
            n1 == (n / 0x1_0000) % 0x100,
            n2 == (n / 0x100) % 0x100,
            n3 == n % 0x100,
    ;
    assert(b[0] == n0 as u8);
}

/// Writes the 4-byte big-endian prefix for a payload of `len` bytes.
pub fn length_prefix(len: u32) -> (r: Vec<u8>)
    ensures
        r@ == be_bytes(len),
{
    let mut r: Vec<u8> = Vec::with_capacity(4);
    r.push((len / 0x100_0000) as u8);
    r.push(((len / 0x1_0000) % 0x100) as u8);
    r.push(((len / 0x100) % 0x100) as u8);
    r.push((len % 0x100) as u8);
    assert(r@ =~= be_bytes(len));
    r
}

/// Reads the big-endian number held by the first four bytes of `b`.
pub fn read_be_u32(b: &[u8]) -> (r: u32)
    requires
        b@.len() >= 4,
    ensures
        r as nat == be_value(b@),
{
    (b[0] as u32) * 0x100_0000 + (b[1] as u32) * 0x1_0000 + (b[2] as u32) * 0x100 + (b[3] as u32)
}

/// Builds the wire form of `payload`: one buffer holding the length prefix and
/// the payload, ready for a single write. A payload over `MAX_FRAME_LEN` bytes
/// is refused and nothing is built.
pub fn encode_frame(payload: &[u8]) -> (r: Result<Vec<u8>, FrameError>)
    ensures
        payload@.len() <= MAX_FRAME_LEN ==> r is Ok && r->Ok_0@ == frame_of(payload@),
        payload@.len() > MAX_FRAME_LEN ==> r == Err::<Vec<u8>, FrameError>(FrameError::Oversized),
{
    if payload.len() > MAX_FRAME_LEN {
        return Err(FrameError::Oversized);
    }
    let mut buf = length_prefix(payload.len() as u32);
    let mut i: usize = 0;
    while i < payload.len()
        invariant
            i <= payload@.len(),
            payload@.len() <= MAX_FRAME_LEN,
            buf@ == be_bytes(payload@.len() as u32) + payload@.take(i as int),
        decreases payload@.len() - i,
    {
        buf.push(payload[i]);
        i = i + 1;
        assert(payload@.take(i as int) =~= payload@.take(i - 1) .push(payload@[i - 1]));
    }
    assert(payload@.take(i as int) =~= payload@);
    Ok(buf)
}

/// Checks a received length prefix before any payload byte is read: the
/// announced length when it is within the cap, `Oversized` when it is over,
/// `Truncated` when fewer than four bytes arrived.
pub fn frame_length(prefix: &[u8]) -> (r: Result<usize, FrameError>)
    ensures
        match header_spec(prefix@) {
            Ok(n) => r == Ok::<usize, FrameError>(n as usize),
            Err(e) => r == Err::<usize, FrameError>(e),
        },
{
    if prefix.len() < PREFIX_LEN {
        return Err(FrameError::Truncated);
    }
    let n = read_be_u32(prefix);
    if n as usize > MAX_FRAME_LEN {
        Err(FrameError::Oversized)
    } else {
        Ok(n as usize)
    }
}

/// Reads one frame from the start of `buf`, where `buf` holds every byte that
/// arrived before the stream ended. An oversized announced length is refused
/// before the payload is looked at.
pub fn decode_frame(buf: &[u8]) -> (r: Result<Vec<u8>, FrameError>)
    ensures
        match decode_spec(buf@) {
            Ok(p) => r is Ok && r->Ok_0@ == p,
            Err(e) => r == Err::<Vec<u8>, FrameError>(e),
        },
{
    let n = match frame_length(buf) {
        Ok(n) => n,
        Err(e) => return Err(e),
    };
    if buf.len() - PREFIX_LEN < n {
        return Err(FrameError::Truncated);
    }
    let mut out: Vec<u8> = Vec::with_capacity(n);
    let mut i: usize = 0;
    while i < n
        invariant
            i <= n,
            n as nat == be_value(buf@),
            4 + n <= buf@.len(),
            buf@.len() == buf.len(),
            out@ == buf@.subrange(4, 4 + i as int),
        decreases n - i,
    {
        out.push(buf[4 + i]);
        i = i + 1;
        assert(out@ =~= buf@.subrange(4, 4 + i as int));
    }
    Ok(out)
}

/// A payload of at most `MAX_FRAME_LEN` bytes, framed and read back, is the
/// same payload, whatever bytes follow it on the stream.
pub proof fn lemma_frame_round_trip(p: Seq<u8>, rest: Seq<u8>)
    requires
        p.len() <= MAX_FRAME_LEN,
    ensures
        decode_spec(frame_of(p) + rest) == Ok::<Seq<u8>, FrameError>(p),
        header_spec(frame_of(p)) == Ok::<nat, FrameError>(p.len()),
{
    let n = p.len() as u32;
    lemma_be_round_trip(n);
    let buf = frame_of(p) + rest;
    assert(buf.subrange(0, 4) =~= be_bytes(n));
    assert(be_value(buf) == be_value(be_bytes(n)));
    assert(be_value(frame_of(p)) == be_value(be_bytes(n)));
    assert(buf.subrange(4, 4 + p.len() as int) =~= p);
}

/// Frames written one after the other are read back in the same order: the
/// first read yields the first payload, and reading on after its frame
/// yields the second.
pub proof fn lemma_frames_in_order(first: Seq<u8>, second: Seq<u8>, rest: Seq<u8>)
    requires
        first.len() <= MAX_FRAME_LEN,
        second.len() <= MAX_FRAME_LEN,
    ensures
        ({
            let wire = frame_of(first) + frame_of(second) + rest;
            &&& decode_spec(wire) == Ok::<Seq<u8>, FrameError>(first)
            &&& decode_spec(wire.skip(4 + first.len() as int)) == Ok::<Seq<u8>, FrameError>(second)
        }),
{
    let wire = frame_of(first) + frame_of(second) + rest;
    lemma_frame_round_trip(first, frame_of(second) + rest);
    assert(wire =~= frame_of(first) + (frame_of(second) + rest));
    lemma_be_round_trip(first.len() as u32);
    assert(wire.skip(4 + first.len() as int) =~= frame_of(second) + rest);
    lemma_frame_round_trip(second, rest);
}

/// A prefix that announces more than `MAX_FRAME_LEN` bytes is refused as
/// `Oversized` whatever follows it: the payload is never consulted.
pub proof fn lemma_oversized_prefix(prefix: Seq<u8>, body: Seq<u8>)
    requires
        prefix.len() == 4,
        be_value(prefix) > MAX_FRAME_LEN,
    ensures
        decode_spec(prefix + body) == Err::<Seq<u8>, FrameError>(FrameError::Oversized),
        header_spec(prefix) == Err::<nat, FrameError>(FrameError::Oversized),
{
    let buf = prefix + body;
    assert(buf[0] == prefix[0] && buf[1] == prefix[1] && buf[2] == prefix[2] && buf[3] == prefix[3]);
}

/// A stream that ends after the length prefix of a frame but before its whole
/// payload has arrived yields `Truncated`, never a shorter payload.
pub proof fn lemma_truncated_frame(p: Seq<u8>, k: int)
    requires
        p.len() <= MAX_FRAME_LEN,
        0 <= k < 4 + p.len(),
    ensures
        decode_spec(frame_of(p).take(k)) == Err::<Seq<u8>, FrameError>(FrameError::Truncated),
{
    let n = p.len() as u32;
    lemma_be_round_trip(n);
    let buf = frame_of(p).take(k);
    if k >= 4 {
        assert(buf[0] == frame_of(p)[0] && buf[1] == frame_of(p)[1] && buf[2] == frame_of(p)[2]
            && buf[3] == frame_of(p)[3]);
        assert(be_value(buf) == be_value(be_bytes(n)));
    }
}

} // verus!
