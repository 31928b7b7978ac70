//! Length-prefixed framing over any byte stream: a `u32` big-endian length, then the payload.
//! Absurd lengths are refused before anything is allocated.

use std::io::{self, Read, Write};
use vstd::prelude::*;

verus! {

#[verifier::external_type_specification]
#[verifier::external_body]
pub struct ExIoError(io::Error);

#[verifier::external_type_specification]
pub struct ExIoErrorKind(io::ErrorKind);

/// Hard cap on a single frame to bound receive-side allocation (1 MiB).
pub const MAX_FRAME_LEN: usize = 1_048_576;

/// The fixed associated-data label binding frames to this protocol version,
/// `"screen-hop/mesh/v1"`.
pub open spec fn protocol_aad() -> Seq<u8> {
    seq![115u8, 99, 114, 101, 101, 110, 45, 104, 111, 112, 47, 109, 101, 115, 104, 47, 118, 49]
}

/// The protocol associated-data label as bytes.
pub fn protocol_aad_bytes() -> (a: Vec<u8>)
    ensures
        a@ == protocol_aad(),
{
    let a: Vec<u8> = vec![115u8, 99, 114, 101, 101, 110, 45, 104, 111, 112, 47, 109, 101, 115, 104, 47, 118, 49];
    assert(a@ =~= protocol_aad());
    a
}

/// Big-endian bytes of a `u32`.
pub open spec fn be_bytes(n: u32) -> Seq<u8> {
    seq![(n / 16777216) as u8, ((n / 65536) % 256) as u8, ((n / 256) % 256) as u8, (n % 256) as u8]
}

/// The `u32` of four big-endian bytes.
pub open spec fn be_value(b: Seq<u8>) -> u32 {
    (b[0] * 16777216 + b[1] * 65536 + b[2] * 256 + b[3]) as u32
}

/// The frame header for a payload of `len` bytes (`u32::to_be_bytes`).
pub fn frame_header(len: u32) -> (h: [u8; 4])
    ensures
        h@ == be_bytes(len),
{
    let h: [u8; 4] = [(len / 16777216) as u8, ((len / 65536) % 256) as u8, ((len / 256) % 256) as u8, (len % 256) as u8];
    assert(h@ =~= be_bytes(len));
    h
}

/// The payload length announced by a frame header (`u32::from_be_bytes`).
pub fn frame_len(h: &[u8; 4]) -> (n: u32)
    ensures
        n == be_value(h@),
{
    (h[0] as u32) * 16777216 + (h[1] as u32) * 65536 + (h[2] as u32) * 256 + (h[3] as u32)
}

/// Reading back a written header gives the length that was written.
pub proof fn lemma_frame_header_round_trip(len: u32)
    ensures
        be_value(be_bytes(len)) == len,
{
    assert(be_value(be_bytes(len)) == len) by (nonlinear_arith);
}

/// `std::io::Write::write_all`. Nothing is stated about the stream.
#[verifier::external_body]
fn io_write_all<W: Write>(w: &mut W, buf: &[u8]) -> (r: io::Result<()>) {
    w.write_all(buf)
}

/// `std::io::Write::flush`. Nothing is stated about the stream.
#[verifier::external_body]
fn io_flush<W: Write>(w: &mut W) -> (r: io::Result<()>) {
    w.flush()
}

/// `std::io::Read::read_exact`: the buffer keeps its length; what it holds afterwards comes from
/// the stream and is not stated.
#[verifier::external_body]
fn io_read_exact<R: Read>(r: &mut R, buf: &mut [u8]) -> (res: io::Result<()>)
    ensures
        final(buf)@.len() == old(buf)@.len(),
{
    r.read_exact(buf)
}

/// `std::io::Error::new` with a static message.
#[verifier::external_body]
fn io_error(kind: io::ErrorKind, message: &'static str) -> (e: io::Error) {
    io::Error::new(kind, message)
}

/// Write a `u32` big-endian length prefix followed by `payload`. A payload longer than
/// `u32::MAX` is refused before anything is written.
pub fn write_frame<W: Write>(w: &mut W, payload: &[u8]) -> (r: io::Result<()>)
    ensures
        payload@.len() > u32::MAX ==> r is Err,
{
    let n = payload.len();
    if n > 0xFFFF_FFFFusize {
        return Err(io_error(io::ErrorKind::InvalidInput, "frame too large"));
    }
    let header = frame_header(n as u32);
    match io_write_all(w, header.as_slice()) {
        Ok(()) => {},
        Err(e) => return Err(e),
    }
    match io_write_all(w, payload) {
        Ok(()) => {},
        Err(e) => return Err(e),
    }
    io_flush(w)
}

/// The body length that a frame header announces, or none when it is above [`MAX_FRAME_LEN`]
/// (such a frame is refused before its body is read).
pub fn frame_body_len(header: &[u8; 4]) -> (r: Option<usize>)
    ensures
        match r {
            Some(n) => n == be_value(header@) && n <= MAX_FRAME_LEN,
            None => be_value(header@) > MAX_FRAME_LEN,
        },
{
    let len = frame_len(header);
    if len as usize > MAX_FRAME_LEN {
        None
    } else {
        Some(len as usize)
    }
}

/// Read the body of a frame whose header is `header`: a length above [`MAX_FRAME_LEN`] is refused
/// (`InvalidData`) before anything is allocated or read; otherwise exactly the announced number of
/// bytes is read.
pub fn read_frame_body<R: Read>(r: &mut R, header: &[u8; 4]) -> (res: io::Result<Vec<u8>>)
    ensures
        be_value(header@) > MAX_FRAME_LEN ==> res is Err,
        res matches Ok(buf) ==> buf@.len() == be_value(header@) && buf@.len() <= MAX_FRAME_LEN,
{
    let len = match frame_body_len(header) {
        Some(n) => n,
        None => {
            return Err(io_error(io::ErrorKind::InvalidData, "frame exceeds maximum length"));
        },
    };
    let mut buf: Vec<u8> = vec![0u8; len];
    match io_read_exact(r, buf.as_mut_slice()) {
        Ok(()) => {},
        Err(e) => return Err(e),
    }
    Ok(buf)
}

/// Read one length-prefixed frame: the 4-byte big-endian header, then [`read_frame_body`] of it.
/// What the stream holds is not modelled, so the contract states the bound on the length; the
/// exact-length and refusal rules are those of [`read_frame_body`].
pub fn read_frame<R: Read>(r: &mut R) -> (res: io::Result<Vec<u8>>)
    ensures
        match res {
            Ok(buf) => buf@.len() <= MAX_FRAME_LEN,
            Err(_) => true,
        },
{
    let mut len_buf: [u8; 4] = [0u8; 4];
    match io_read_exact(r, vstd::array::ref_mut_array_unsizing_coercion(&mut len_buf)) {
        Ok(()) => {},
        Err(e) => return Err(e),
    }
    read_frame_body(r, &len_buf)
}

/// Why an inbound frame was dropped.
#[derive(Debug)]
pub enum RecvError {
    Io(io::Error),
    /// The frame failed AEAD authentication/decryption (wrong key or tampered).
    Decrypt,
    /// The decrypted bytes were not a valid envelope.
    Parse,
    /// The sender's sequence number was a replay or older than the window.
    Replay,
}

} // verus!
