//! The compression layer: resolving one whole frame to its packet id and body.

use crate::util::bytes::sub_vec;
use crate::protocol::msg::outbound_frame;
use crate::reassembly::well_formed_frame;
use crate::util::transfer_var::{
    lemma_end_of_group_at, lemma_pow128_values, lemma_varint_bytes_shape, read_varint, varint_at,
    varint_bytes,
};
use vstd::prelude::*;

verus! {

/// Why a frame was dropped.
#[derive(Clone, Copy, Debug, PartialEq, Eq, Structural)]
pub enum FrameError {
    /// A declared length does not match the bytes that are there, or a field is cut short.
    FrameLengthMismatch,
    /// The compressed payload is not a valid zlib stream.
    DecompressionFailure,
    /// The inflated payload is not as long as the frame declared.
    DecompressedLengthMismatch,
    /// A VarInt's continuation chain runs past 5 bytes.
    VarIntOverflow,
    /// The packet id does not fit in one byte.
    PacketIdOutOfRange,
}

/// A frame resolved to its packet id and body.
pub struct PacketHeader {
    pub packet_id: u8,
    pub body: Vec<u8>,
}

impl View for PacketHeader {
    type V = (u8, Seq<u8>);

    open spec fn view(&self) -> (u8, Seq<u8>) {
        (self.packet_id, self.body@)
    }
}

/// The view of a resolved frame or the reason it was dropped.
pub open spec fn header_result(r: Result<PacketHeader, FrameError>) -> Result<
    (u8, Seq<u8>),
    FrameError,
> {
    match r {
        Ok(h) => Ok(h@),
        Err(e) => Err(e),
    }
}

/// The bytes that the zlib stream at the start of `data` inflates to; bytes after the end of
/// that stream are ignored. `None` when `data` does not start with a whole valid stream.
pub uninterp spec fn zlib_inflate(data: Seq<u8>) -> Option<Seq<u8>>;

/// Error for a VarInt that cannot be read from `p`: too long, or cut off by the end.
pub open spec fn varint_failure(p: Seq<u8>) -> FrameError {
    if p.len() >= 5 {
        FrameError::VarIntOverflow
    } else {
        FrameError::FrameLengthMismatch
    }
}

/// A packet id VarInt followed by the body.
pub open spec fn id_and_body(p: Seq<u8>) -> Result<(u8, Seq<u8>), FrameError> {
    match varint_at(p) {
        None => Err(varint_failure(p)),
        Some((w, id)) => if 0 <= id <= 255 {
            Ok((id as u8, p.subrange(w, p.len() as int)))
        } else {
            Err(FrameError::PacketIdOutOfRange)
        },
    }
}

/// Resolution of a compressed payload, given what it inflated to and the length the frame
/// declared for it.
pub open spec fn inflated_result(data_len: i32, inflated: Option<Seq<u8>>) -> Result<
    (u8, Seq<u8>),
    FrameError,
> {
    match inflated {
        None => Err(FrameError::DecompressionFailure),
        Some(d) => if d.len() != data_len {
            Err(FrameError::DecompressedLengthMismatch)
        } else {
            id_and_body(d)
        },
    }
}

/// Whether a session threshold turns the compression layer on.
pub open spec fn compression_on(threshold: Option<i32>) -> bool {
    match threshold {
        Some(t) => t >= 0,
        None => false,
    }
}

/// Resolution of one whole frame under a session compression threshold.
///
/// The declared length must equal the bytes after it. Without compression these are the
/// packet id and the body. With it they are the data length, then the id and body: as they
/// are when the data length is 0, else zlib-compressed to exactly that many bytes.
pub open spec fn unwrap_spec(frame: Seq<u8>, threshold: Option<i32>) -> Result<
    (u8, Seq<u8>),
    FrameError,
> {
    match varint_at(frame) {
        None => Err(varint_failure(frame)),
        Some((w, length)) => {
            let payload = frame.subrange(w, frame.len() as int);
            if length != payload.len() {
                Err(FrameError::FrameLengthMismatch)
            } else if !compression_on(threshold) {
                id_and_body(payload)
            } else {
                match varint_at(payload) {
                    None => Err(varint_failure(payload)),
                    Some((w2, data_len)) => {
                        let rest = payload.subrange(w2, payload.len() as int);
                        if data_len == 0 {
                            id_and_body(rest)
                        } else if data_len < 0 {
                            Err(FrameError::DecompressedLengthMismatch)
                        } else {
                            inflated_result(data_len, zlib_inflate(rest))
                        }
                    },
                }
            }
        },
    }
}

/// Relies on flate2's `read::ZlibDecoder` (read to the end): the bytes that the zlib
/// stream at the start of `data` inflates to (anything after that stream is not read), or
/// `None` when `data` does not start with a whole valid stream.
#[verifier::external_body]
fn inflate(data: &Vec<u8>) -> (r: Option<Vec<u8>>)
    ensures
        match r {
            Some(v) => zlib_inflate(data@) == Some(v@),
            None => zlib_inflate(data@) is None,
        },
{
    let mut out: Vec<u8> = Vec::new();
    let mut decoder = flate2::read::ZlibDecoder::new(data.as_slice());
    match std::io::Read::read_to_end(&mut decoder, &mut out) {
        Ok(_) => Some(out),
        Err(_) => None,
    }
}

/// Reads a packet id VarInt and the body after it from `p[start..]`.
pub fn read_id_and_body(p: &Vec<u8>, start: usize) -> (r: Result<PacketHeader, FrameError>)
    requires
        start <= p.len(),
    ensures
        header_result(r) == id_and_body(p@.subrange(start as int, p.len() as int)),
{
    let ghost s = p@.subrange(start as int, p.len() as int);
    match read_varint(p, start) {
        None => {
            if p.len() - start >= 5 {
                Err(FrameError::VarIntOverflow)
            } else {
                Err(FrameError::FrameLengthMismatch)
            }
        },
        Some((w, id)) => {
            if 0 <= id && id <= 255 {
                let body = sub_vec(p, start + w, p.len());
                proof {
                    assert(s.subrange(w as int, s.len() as int) =~= body@);
                }
                Ok(PacketHeader { packet_id: id as u8, body })
            } else {
                Err(FrameError::PacketIdOutOfRange)
            }
        },
    }
}

/// Resolves a compressed payload from what it inflated to (`None`: not a valid zlib
/// stream) and the data length that the frame declared.
pub fn resolve_inflated(data_len: i32, inflated: Option<Vec<u8>>) -> (r: Result<
    PacketHeader,
    FrameError,
>)
    ensures
        header_result(r) == inflated_result(
            data_len,
            match inflated {
                Some(v) => Some(v@),
                None => None,
            },
        ),
{
    match inflated {
        None => Err(FrameError::DecompressionFailure),
        Some(d) => {
            if data_len < 0 || d.len() != data_len as usize {
                Err(FrameError::DecompressedLengthMismatch)
            } else {
                proof {
                    assert(d@.subrange(0, d@.len() as int) =~= d@);
                }
                read_id_and_body(&d, 0)
            }
        },
    }
}

/// Resolves one whole frame to its packet id and body under the session's compression
/// threshold; see [`unwrap_spec`].
pub fn unwrap_frame(frame: &Vec<u8>, threshold: Option<i32>) -> (r: Result<
    PacketHeader,
    FrameError,
>)
    ensures
        header_result(r) == unwrap_spec(frame@, threshold),
{
    proof {
        assert(frame@.subrange(0, frame.len() as int) =~= frame@);
    }
    let (w, length) = match read_varint(frame, 0) {
        None => {
            return if frame.len() >= 5 {
                Err(FrameError::VarIntOverflow)
            } else {
                Err(FrameError::FrameLengthMismatch)
            };
        },
        Some(x) => x,
    };
    let ghost payload = frame@.subrange(w as int, frame.len() as int);
    let payload_len = frame.len() - w;
    if length < 0 || length as usize != payload_len {
        return Err(FrameError::FrameLengthMismatch);
    }
    let compressed = match threshold {
        Some(t) => t >= 0,
        None => false,
    };
    if !compressed {
        return read_id_and_body(frame, w);
    }
    let (w2, data_len) = match read_varint(frame, w) {
        None => {
            return if payload_len >= 5 {
                Err(FrameError::VarIntOverflow)
            } else {
                Err(FrameError::FrameLengthMismatch)
            };
        },
        Some(x) => x,
    };
    proof {
        assert(payload.subrange(w2 as int, payload.len() as int) =~= frame@.subrange(
            w + w2,
            frame.len() as int,
        ));
    }
    if data_len == 0 {
        return read_id_and_body(frame, w + w2);
    }
    if data_len < 0 {
        return Err(FrameError::DecompressedLengthMismatch);
    }
    let compressed_bytes = sub_vec(frame, w + w2, frame.len());
    let inflated = inflate(&compressed_bytes);
    resolve_inflated(data_len, inflated)
}


/// A stream that starts with the encoding of a length below `2^31` reads that length back.
pub proof fn lemma_varint_at_encoded(n: nat, rest: Seq<u8>)
    requires
        n < 0x8000_0000,
    ensures
        varint_at(varint_bytes(n) + rest) == Some((varint_bytes(n).len() as int, n as i32)),
        1 <= varint_bytes(n).len() <= 5,
{
    let g = varint_bytes(n);
    let s = g + rest;
    lemma_pow128_values();
    lemma_varint_bytes_shape(n, 5);
    assert(s.subrange(0, g.len() as int) =~= g);
    lemma_end_of_group_at(s, g.len() as int, 0, 5);
    assert(n % 0x1_0000_0000 == n);
}

/// The frames that the client builds are whole frames.
pub proof fn lemma_outbound_frames_whole(id: u8, body: Seq<u8>, compress: bool)
    requires
        body.len() + 2 < 0x8000_0000,
    ensures
        well_formed_frame(outbound_frame(id, body, compress)),
{
    let head = if compress {
        seq![0u8]
    } else {
        Seq::<u8>::empty()
    };
    let payload = head + seq![id] + body;
    lemma_varint_at_encoded(payload.len(), payload);
}

/// The frames that the client builds resolve back to the packet id and body they carry,
/// under any threshold that agrees with how they were built (compressed exactly when the
/// threshold is 0 or more).
pub proof fn lemma_outbound_frames_resolve(id: u8, body: Seq<u8>, threshold: Option<i32>)
    requires
        id < 128,
        body.len() + 2 < 0x8000_0000,
    ensures
        unwrap_spec(outbound_frame(id, body, compression_on(threshold)), threshold) == Ok::<
            (u8, Seq<u8>),
            FrameError,
        >((id, body)),
{
    let compress = compression_on(threshold);
    let head = if compress {
        seq![0u8]
    } else {
        Seq::<u8>::empty()
    };
    let payload = head + seq![id] + body;
    let frame = outbound_frame(id, body, compress);
    let w = varint_bytes(payload.len()).len() as int;
    lemma_varint_at_encoded(payload.len(), payload);
    assert(frame.subrange(w, frame.len() as int) =~= payload);
    let inner = seq![id] + body;
    assert(varint_bytes(id as nat) == seq![id]);
    lemma_varint_at_encoded(id as nat, body);
    assert(inner.subrange(1, inner.len() as int) =~= body);
    if compress {
        assert(varint_bytes(0) == seq![0u8]);
        lemma_varint_at_encoded(0, inner);
        assert(payload =~= seq![0u8] + inner);
        assert(payload.subrange(1, payload.len() as int) =~= inner);
    } else {
        assert(payload =~= inner);
    }
}

} // verus!
