use byteorder::{BigEndian, ByteOrder};
use vstd::prelude::*;

verus! {

/// Bytes taken by the length prefix of a frame.
pub const HEADER_LEN: usize = 2;

/// The largest payload a frame can carry: the prefix is a big-endian `u16`.
pub const MAX_PAYLOAD_LEN: usize = 65535;

/// Why a payload could not be framed.
pub enum FrameError {
    /// The payload is longer than `MAX_PAYLOAD_LEN` bytes.
    PayloadTooLarge,
}

/// The payload length announced by the first two bytes of `buf` (big endian).
pub open spec fn declared_len(buf: Seq<u8>) -> nat
    recommends
        buf.len() >= 2,
{
    (buf[0] as nat) * 256 + (buf[1] as nat)
}

/// The two-byte big-endian prefix announcing `len` payload bytes.
pub open spec fn length_prefix(len: nat) -> Seq<u8> {
    seq![(len / 256) as u8, (len % 256) as u8]
}

/// The frame that carries `payload` on the wire: its length, then the payload itself.
pub open spec fn frame_of(payload: Seq<u8>) -> Seq<u8> {
    length_prefix(payload.len()) + payload
}

/// Reading the front of a receive buffer: `None` while the buffer does not yet hold a
/// whole frame, otherwise the number of bytes the frame takes and its payload.
pub open spec fn decoded(buf: Seq<u8>) -> Option<(nat, Seq<u8>)> {
    if buf.len() < HEADER_LEN {
        None
    } else if buf.len() < HEADER_LEN + declared_len(buf) {
        None
    } else {
        Some(
            (
                (HEADER_LEN + declared_len(buf)) as nat,
                buf.subrange(HEADER_LEN as int, HEADER_LEN + declared_len(buf)),
            ),
        )
    }
}

/// `ByteOrder::read_u16` of `BigEndian`: the first two bytes of `buf`, most significant
/// first. The crate panics on a shorter buffer, which the precondition rules out.
#[verifier::external_body]
fn read_be_u16(buf: &[u8]) -> (n: u16)
    requires
        buf@.len() >= 2,
    ensures
        n == (buf@[0] as nat) * 256 + (buf@[1] as nat),
{
    BigEndian::read_u16(buf)
}

/// `ByteOrder::write_u16` of `BigEndian` into a two-byte buffer: the most significant
/// byte of `n` first, then the least significant one.
#[verifier::external_body]
fn write_be_u16(n: u16) -> (bytes: [u8; 2])
    ensures
        bytes@ == length_prefix(n as nat),
{
    let mut bytes = [0u8; 2];
    BigEndian::write_u16(&mut bytes, n);
    bytes
}

/// Tries to read one frame off the front of `buf`.
///
/// Returns `None` when `buf` does not yet hold a complete frame (the caller should wait
/// for more bytes), and otherwise the number of bytes the frame occupies together with
/// a copy of its payload.
pub fn decode_frame(buf: &[u8]) -> (res: Option<(usize, Vec<u8>)>)
    ensures
        match res {
            None => decoded(buf@) is None,
            Some((consumed, payload)) => decoded(buf@) == Some((consumed as nat, payload@)),
        },
{
    if buf.len() < HEADER_LEN {
        return None;
    }
    let len = read_be_u16(buf) as usize;
    if buf.len() - HEADER_LEN < len {
        return None;
    }
    let total = HEADER_LEN + len;
    let mut payload: Vec<u8> = Vec::with_capacity(len);
    let mut i: usize = HEADER_LEN;
    while i < total
        invariant
            HEADER_LEN <= i <= total,
            total == HEADER_LEN + len,
            total <= buf@.len(),
            payload@ == buf@.subrange(HEADER_LEN as int, i as int),
        decreases total - i,
    {
        payload.push(buf[i]);
        i = i + 1;
    }
    Some((total, payload))
}

/// Appends the frame carrying `payload` to `buf`.
///
/// Fails, leaving `buf` untouched, when the payload is too long for its length to fit
/// in the two-byte prefix.
pub fn encode_frame(payload: &[u8], buf: &mut Vec<u8>) -> (res: Result<(), FrameError>)
    ensures
        payload@.len() > MAX_PAYLOAD_LEN ==> res is Err && final(buf)@ == old(buf)@,
        payload@.len() <= MAX_PAYLOAD_LEN ==> res is Ok && final(buf)@ == old(buf)@ + frame_of(
            payload@,
        ),
{
    if payload.len() > MAX_PAYLOAD_LEN {
        return Err(FrameError::PayloadTooLarge);
    }
    let prefix = write_be_u16(payload.len() as u16);
    let ghost start = buf@;
    buf.push(prefix[0]);
    buf.push(prefix[1]);
    let mut i: usize = 0;
    while i < payload.len()
        invariant
            i <= payload@.len(),
            payload@.len() <= MAX_PAYLOAD_LEN,
            prefix@ == length_prefix(payload@.len()),
            buf@ == start + prefix@ + payload@.subrange(0, i as int),
        decreases payload@.len() - i,
    {
        buf.push(payload[i]);
        i = i + 1;
    }
    assert(payload@.subrange(0, payload@.len() as int) == payload@);
    Ok(())
}

/// Decoding a frame gives back the payload it was built from, and consumes exactly the
/// frame, whatever bytes follow it in the buffer.
pub proof fn lemma_decode_frame_of(payload: Seq<u8>, rest: Seq<u8>)
    requires
        payload.len() <= MAX_PAYLOAD_LEN,
    ensures
        decoded(frame_of(payload) + rest) == Some(((HEADER_LEN + payload.len()) as nat, payload)),
{
    let buf = frame_of(payload) + rest;
    let n = payload.len();
    assert(buf[0] == (n / 256) as u8);
    assert(buf[1] == (n % 256) as u8);
    assert(declared_len(buf) == n);
    assert(buf.subrange(HEADER_LEN as int, HEADER_LEN + n) =~= payload);
}

/// Whatever a decoded frame consumed is exactly the frame of the payload it returned.
pub proof fn lemma_decoded_is_frame(buf: Seq<u8>)
    requires
        decoded(buf) is Some,
    ensures
        ({
            let (consumed, payload) = decoded(buf).unwrap();
            &&& consumed <= buf.len()
            &&& buf.subrange(0, consumed as int) == frame_of(payload)
        }),
{
    let (consumed, payload) = decoded(buf).unwrap();
    let n = declared_len(buf);
    assert(payload.len() == n);
    assert((n / 256) as u8 == buf[0]);
    assert((n % 256) as u8 == buf[1]);
    assert(buf.subrange(0, consumed as int) =~= frame_of(payload));
}

/// Bytes arriving after a complete frame never change what is decoded from the front.
pub proof fn lemma_decoded_stable(buf: Seq<u8>, more: Seq<u8>)
    requires
        decoded(buf) is Some,
    ensures
        decoded(buf + more) == decoded(buf),
{
    let n = declared_len(buf);
    assert((buf + more)[0] == buf[0]);
    assert((buf + more)[1] == buf[1]);
    assert((buf + more).subrange(HEADER_LEN as int, HEADER_LEN + n) =~= buf.subrange(
        HEADER_LEN as int,
        HEADER_LEN + n,
    ));
}

} // verus!
