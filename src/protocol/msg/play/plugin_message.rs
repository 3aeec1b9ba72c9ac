use crate::protocol::msg::mapper;
use crate::protocol::msg::{build_frame, outbound_frame, push_string, string_field};
use vstd::prelude::*;

verus! {

/// A plugin message carrying one string on `channel`.
pub fn new(channel: String, data: String, compress: bool) -> (r: Vec<u8>)
    ensures
        r@ == outbound_frame(
            mapper::PLUGIN_MESSAGE,
            string_field(channel@) + string_field(data@),
            compress,
        ),
{
    let mut body: Vec<u8> = Vec::new();
    push_string(&mut body, channel.as_str());
    push_string(&mut body, data.as_str());
    build_frame(mapper::PLUGIN_MESSAGE, body, compress)
}

} // verus!
