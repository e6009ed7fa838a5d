//! The wire format: a little-endian `u32` opcode, a little-endian `u32` body
//! length, then the body.

use byteorder::{ByteOrder, LittleEndian};
use vstd::prelude::*;
use vstd::slice::slice_subrange;

use crate::error::ClientError;

verus! {

/// Bytes taken by the opcode and the length field together.
pub const HEADER_LEN: usize = 8;

/// Largest response that a single read accepts.
pub const RECEIVE_CAPACITY: usize = 2048;

/// The four bytes of `n`, least significant first.
pub open spec fn le_bytes(n: u32) -> Seq<u8> {
    seq![
        (n % 256) as u8,
        ((n / 256) % 256) as u8,
        ((n / 65536) % 256) as u8,
        (n / 16777216) as u8,
    ]
}

/// The number that the first four bytes of `b` spell, least significant first.
pub open spec fn le_value(b: Seq<u8>) -> int {
    b[0] + 256 * b[1] + 65536 * b[2] + 16777216 * b[3]
}

/// Reading back what `le_bytes` wrote gives the number written.
pub proof fn lemma_le_round_trip(n: u32)
    ensures
        le_bytes(n).len() == 4,
        le_value(le_bytes(n)) == n,
{
    let low = n % 256;
    let upper = n / 256;
    let top = upper / 256;
    assert(n == low + 256 * upper);
    assert(upper == upper % 256 + 256 * top);
    assert(top == top % 256 + 256 * (top / 256));
    assert(n / 65536 == top);
    assert(n / 16777216 == top / 256);
}

/// Writing what `le_value` read gives back the four bytes read.
pub proof fn lemma_le_bytes_of_value(b: Seq<u8>)
    requires
        b.len() == 4,
    ensures
        0 <= le_value(b) <= u32::MAX,
        le_bytes(le_value(b) as u32) == b,
{
    let v = le_value(b);
    let upper = b[1] + 256 * b[2] + 65536 * b[3];
    let top = b[2] + 256 * b[3];
    assert(v == b[0] + 256 * upper);
    assert(v / 256 == upper && v % 256 == b[0] as int);
    assert(upper == b[1] + 256 * top);
    assert(upper / 256 == top && upper % 256 == b[1] as int);
    assert(top / 256 == b[3] as int && top % 256 == b[2] as int);
    assert(v / 65536 == top) by {
        assert(v / 65536 == (v / 256) / 256);
    }
    assert(v / 16777216 == b[3] as int) by {
        assert(v / 16777216 == (v / 65536) / 256);
    }
    assert(le_bytes(v as u32) =~= b);
}

/// `byteorder::LittleEndian::write_u32` on a four-byte buffer: the buffer
/// then holds `n`, least significant byte first.
#[verifier::external_body]
fn u32_to_le(n: u32) -> (out: [u8; 4])
    ensures
        out@ == le_bytes(n),
{
    let mut out = [0u8; 4];
    LittleEndian::write_u32(&mut out, n);
    out
}

/// `byteorder::LittleEndian::read_u32`: the number spelled by the first four
/// bytes of `buf`, least significant first. The outside function panics on a
/// shorter buffer, which the precondition leaves out.
#[verifier::external_body]
fn u32_from_le(buf: &[u8]) -> (n: u32)
    requires
        buf@.len() >= 4,
    ensures
        n == le_value(buf@),
{
    LittleEndian::read_u32(buf)
}

/// The frame that carries `body` under `opcode`.
pub open spec fn frame_bytes(opcode: u32, body: Seq<u8>) -> Seq<u8> {
    le_bytes(opcode) + le_bytes(body.len() as u32) + body
}

/// The opcode that the header of `data` declares.
pub open spec fn frame_opcode(data: Seq<u8>) -> int {
    le_value(data.subrange(0, 4))
}

/// The body length that the header of `data` declares.
pub open spec fn declared_len(data: Seq<u8>) -> int {
    le_value(data.subrange(4, 8))
}

/// `data` holds a whole header and at least as many body bytes as it declares.
pub open spec fn well_framed(data: Seq<u8>) -> bool {
    data.len() >= 8 && declared_len(data) <= data.len() - 8
}

/// The body of a well-framed `data`: the declared number of bytes after the
/// header. Bytes beyond it are not part of the frame.
pub open spec fn frame_body(data: Seq<u8>) -> Seq<u8> {
    data.subrange(8, 8 + declared_len(data))
}

/// What splitting `data` into opcode and body gives.
pub open spec fn split_result(data: Seq<u8>) -> Result<(u32, Seq<u8>), ClientError> {
    if data.len() < 8 {
        Err(ClientError::Truncated)
    } else if declared_len(data) > data.len() - 8 {
        Err(ClientError::LengthMismatch)
    } else {
        Ok((frame_opcode(data) as u32, frame_body(data)))
    }
}

/// A split that gave `opcode` and `body`.
pub open spec fn split_ok(opcode: u32, body: Seq<u8>) -> Result<(u32, Seq<u8>), ClientError> {
    Ok((opcode, body))
}

/// A split that failed with `e`.
pub open spec fn split_err(e: ClientError) -> Result<(u32, Seq<u8>), ClientError> {
    Err(e)
}

/// Appends the four little-endian bytes of `n` to `out`.
fn push_u32(out: &mut Vec<u8>, n: u32)
    ensures
        final(out)@ == old(out)@ + le_bytes(n),
{
    let bytes = u32_to_le(n);
    let ghost before = out@;
    let mut i: usize = 0;
    while i < 4
        invariant
            i <= 4,
            bytes@ == le_bytes(n),
            out@ == before + le_bytes(n).subrange(0, i as int),
        decreases 4 - i,
    {
        out.push(bytes[i]);
        i += 1;
        assert(out@ =~= before + le_bytes(n).subrange(0, i as int));
    }
    assert(le_bytes(n).subrange(0, 4) =~= le_bytes(n));
}

/// Encodes one frame: header, then `body`. A body whose length does not fit
/// the length field is refused.
pub fn encode_frame(opcode: u32, body: &[u8]) -> (r: Result<Vec<u8>, ClientError>)
    ensures
        body@.len() > u32::MAX ==> r is Err && r->Err_0 == ClientError::BodyTooLong,
        body@.len() <= u32::MAX ==> r is Ok && r->Ok_0@ == frame_bytes(opcode, body@),
{
    if body.len() > 0xFFFF_FFFF {
        return Err(ClientError::BodyTooLong);
    }
    let mut out: Vec<u8> = Vec::new();
    push_u32(&mut out, opcode);
    push_u32(&mut out, body.len() as u32);
    let mut i: usize = 0;
    while i < body.len()
        invariant
            i <= body@.len(),
            out@ == le_bytes(opcode) + le_bytes(body@.len() as u32) + body@.subrange(0, i as int),
        decreases body@.len() - i,
    {
        out.push(body[i]);
        i += 1;
        assert(out@ =~= le_bytes(opcode) + le_bytes(body@.len() as u32) + body@.subrange(
            0,
            i as int,
        ));
    }
    assert(body@.subrange(0, body@.len() as int) =~= body@);
    Ok(out)
}

/// Splits received bytes into the declared opcode and the body. Fails, and
/// says why, where the header is incomplete or declares more than arrived.
pub fn split_frame(data: &[u8]) -> (r: Result<(u32, &[u8]), ClientError>)
    ensures
        match r {
            Ok((opcode, body)) => split_result(data@) == split_ok(opcode, body@),
            Err(e) => split_result(data@) == split_err(e),
        },
{
    if data.len() < HEADER_LEN {
        return Err(ClientError::Truncated);
    }
    let opcode = u32_from_le(slice_subrange(data, 0, 4));
    let declared = u32_from_le(slice_subrange(data, 4, 8));
    proof {
        lemma_le_bytes_of_value(data@.subrange(0, 4));
        lemma_le_bytes_of_value(data@.subrange(4, 8));
    }
    let available = data.len() - HEADER_LEN;
    if declared as usize > available {
        return Err(ClientError::LengthMismatch);
    }
    let body = slice_subrange(data, HEADER_LEN, HEADER_LEN + declared as usize);
    Ok((opcode, body))
}

/// Splitting an encoded frame gives back the opcode and the body, byte for
/// byte, whatever follows the frame in the buffer.
pub proof fn lemma_frame_round_trip(opcode: u32, body: Seq<u8>, trailing: Seq<u8>)
    requires
        body.len() <= u32::MAX,
    ensures
        split_result(frame_bytes(opcode, body) + trailing) == split_ok(opcode, body),
{
    let data = frame_bytes(opcode, body) + trailing;
    lemma_le_round_trip(opcode);
    lemma_le_round_trip(body.len() as u32);
    assert(data.subrange(0, 4) =~= le_bytes(opcode));
    assert(data.subrange(4, 8) =~= le_bytes(body.len() as u32));
    assert(data.subrange(8, 8 + body.len() as int) =~= body);
}

} // verus!
