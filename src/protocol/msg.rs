//! Builders of the frames that the client sends.

pub mod login;
pub mod mapper;
pub mod play;

use crate::util::transfer_var::{push_varint, varint_bytes};
use vstd::prelude::*;
use vstd::utf8::encode_utf8;

verus! {

/// The frame that carries packet `id` with `body`: a VarInt length, then, with compression
/// on, a zero data length (the packet is sent as it is), then the id and the body.
pub open spec fn outbound_frame(id: u8, body: Seq<u8>, compress: bool) -> Seq<u8> {
    let payload = (if compress {
        seq![0u8]
    } else {
        Seq::<u8>::empty()
    }) + seq![id] + body;
    varint_bytes(payload.len()) + payload
}

/// Builds the frame that carries packet `id` with `body`; see [`outbound_frame`].
pub fn build_frame(id: u8, body: Vec<u8>, compress: bool) -> (r: Vec<u8>)
    ensures
        r@ == outbound_frame(id, body@, compress),
{
    let mut payload: Vec<u8> = Vec::new();
    if compress {
        payload.push(0);
    }
    payload.push(id);
    let mut body = body;
    let ghost b = body@;
    payload.append(&mut body);
    proof {
        let head = if compress {
            seq![0u8]
        } else {
            Seq::<u8>::empty()
        };
        assert(payload@ =~= head + seq![id] + b);
    }
    let mut frame: Vec<u8> = Vec::new();
    push_varint(&mut frame, payload.len() as u64);
    frame.append(&mut payload);
    proof {
        assert(frame@ =~= outbound_frame(id, b, compress));
    }
    frame
}

/// The UTF-8 bytes of `s`.
pub fn string_bytes(s: &str) -> (r: Vec<u8>)
    ensures
        r@ == encode_utf8(s@),
{
    vstd::slice::slice_to_vec(s.as_bytes())
}

/// `s` as a protocol string: its UTF-8 length as a VarInt, then the bytes.
pub open spec fn string_field(s: Seq<char>) -> Seq<u8> {
    varint_bytes(encode_utf8(s).len()) + encode_utf8(s)
}

/// Appends `s` as a protocol string; see [`string_field`].
pub fn push_string(out: &mut Vec<u8>, s: &str)
    ensures
        final(out)@ == old(out)@ + string_field(s@),
{
    let mut b = string_bytes(s);
    push_varint(out, b.len() as u64);
    out.append(&mut b);
    proof {
        assert(final(out)@ =~= old(out)@ + string_field(s@));
    }
}

/// The big-endian bytes of the low `n` bytes of `v`.
pub open spec fn be_bytes(v: nat, n: nat) -> Seq<u8>
    decreases n,
{
    if n == 0 {
        seq![]
    } else {
        be_bytes(v / 256, (n - 1) as nat).push((v % 256) as u8)
    }
}

/// Appends the big-endian bytes of the low `n` bytes of `v`.
pub fn push_be(out: &mut Vec<u8>, v: u64, n: usize)
    ensures
        final(out)@ == old(out)@ + be_bytes(v as nat, n as nat),
    decreases n,
{
    if n == 0 {
        proof {
            assert(out@ + be_bytes(v as nat, 0) =~= out@);
        }
        return;
    }
    push_be(out, v / 256, n - 1);
    out.push((v % 256) as u8);
    proof {
        assert(out@ =~= old(out)@ + be_bytes(v as nat, n as nat));
    }
}

} // verus!
