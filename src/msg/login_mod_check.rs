use crate::protocol::msg::login::login_plugin_response::{self, login_plugin_response_body};
use crate::protocol::msg::mapper;
use crate::protocol::msg::outbound_frame;
use vstd::prelude::*;

verus! {

/// The answer to a login plugin request, in the compressed layout.
pub fn mc_login_mod_check(id: u8, check: bool) -> (r: Vec<u8>)
    ensures
        r@ == outbound_frame(
            mapper::LOGIN_PLUGIN_RESPONSE,
            login_plugin_response_body(id, check),
            true,
        ),
{
    login_plugin_response::new(id, check, true)
}

} // verus!
