use crate::protocol::msg::mapper;
use crate::protocol::msg::{build_frame, outbound_frame, push_string, string_field};
use vstd::prelude::*;

verus! {

/// Body of the client settings: locale, view distance, chat mode, chat colours, then the
/// shown skin parts (all), the main hand (left), text filtering (off) and server listings
/// (allowed).
pub open spec fn client_information_body(
    locate: Seq<char>,
    view_distance: u8,
    chat_mod: u8,
    enable_chat_color: bool,
) -> Seq<u8> {
    string_field(locate) + seq![
        view_distance,
        chat_mod,
        if enable_chat_color { 1u8 } else { 0u8 },
        0x41u8,
        0u8,
        0u8,
        1u8,
    ]
}

/// The client settings packet.
pub fn new(
    locate: String,
    view_distance: u8,
    chat_mod: u8,
    enable_chat_color: bool,
    compress: bool,
) -> (r: Vec<u8>)
    ensures
        r@ == outbound_frame(
            mapper::CLIENT_INFORMATION,
            client_information_body(locate@, view_distance, chat_mod, enable_chat_color),
            compress,
        ),
{
    let mut body: Vec<u8> = Vec::new();
    push_string(&mut body, locate.as_str());
    body.push(view_distance);
    body.push(chat_mod);
    body.push(if enable_chat_color { 1 } else { 0 });
    body.push(0x41);
    body.push(0);
    body.push(0);
    body.push(1);
    proof {
        assert(body@ =~= client_information_body(locate@, view_distance, chat_mod, enable_chat_color));
    }
    build_frame(mapper::CLIENT_INFORMATION, body, compress)
}

} // verus!
