use crate::protocol::msg::mapper;
use crate::protocol::msg::{build_frame, outbound_frame};
use vstd::prelude::*;

verus! {

/// Body of a login plugin response: the request's message id, then whether the client
/// understood it.
pub open spec fn login_plugin_response_body(id: u8, check: bool) -> Seq<u8> {
    seq![id, if check { 1u8 } else { 0u8 }]
}

/// The answer to a login plugin request with message id `id`.
pub fn new(id: u8, check: bool, compress: bool) -> (r: Vec<u8>)
    ensures
        r@ == outbound_frame(
            mapper::LOGIN_PLUGIN_RESPONSE,
            login_plugin_response_body(id, check),
            compress,
        ),
{
    let mut body: Vec<u8> = Vec::new();
    body.push(id);
    body.push(if check { 1 } else { 0 });
    proof {
        assert(body@ =~= login_plugin_response_body(id, check));
    }
    build_frame(mapper::LOGIN_PLUGIN_RESPONSE, body, compress)
}

} // verus!
