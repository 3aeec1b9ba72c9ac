use crate::protocol::msg::{be_bytes, build_frame, outbound_frame, push_be, push_string, string_field};
use crate::util::transfer_var::{push_varint, varint_bytes};
use vstd::prelude::*;

verus! {

/// Body of the handshake: protocol version, server address, port (big-endian) and the
/// next phase (2 to log in, 1 for status).
pub open spec fn handshake_body(protocol_version: i32, ip: Seq<char>, port: u16, login: bool) -> Seq<u8> {
    varint_bytes((protocol_version as u32) as nat) + string_field(ip) + be_bytes(port as nat, 2)
        + seq![if login { 2u8 } else { 1u8 }]
}

/// The handshake that opens a connection; it is never compressed.
pub fn new(protocol_version: i32, ip: &str, port: u16, login: bool) -> (r: Vec<u8>)
    ensures
        r@ == outbound_frame(0x00, handshake_body(protocol_version, ip@, port, login), false),
{
    let mut body: Vec<u8> = Vec::new();
    push_varint(&mut body, (#[verifier::truncate] (protocol_version as u32)) as u64);
    push_string(&mut body, ip);
    push_be(&mut body, port as u64, 2);
    body.push(if login { 2 } else { 1 });
    proof {
        assert(body@ =~= handshake_body(protocol_version, ip@, port, login));
    }
    build_frame(0x00, body, false)
}

} // verus!
