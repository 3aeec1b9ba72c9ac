use crate::protocol::msg::login::login_start::{self, login_start_body};
use crate::protocol::msg::mapper;
use crate::protocol::msg::outbound_frame;
use vstd::prelude::*;

verus! {

/// The uuid that early clients sent with every login start.
pub open spec fn fixed_uuid() -> Seq<u8> {
    seq![0x00u8, 0x00, 0x00, 0x00, 0x00, 0x00, 0x30, 0x08, 0x99, 0x9a, 0x57, 0x49, 0x37, 0x46, 0x25, 0x3f]
}

/// A login start for `username` carrying a fixed uuid.
pub fn mc_login_start(username: &str) -> (r: Vec<u8>)
    ensures
        r@ == outbound_frame(mapper::LOGIN_START, login_start_body(username@, fixed_uuid()), false),
{
    let uuid: Vec<u8> = vec![0x00, 0x00, 0x00, 0x00, 0x00, 0x00, 0x30, 0x08, 0x99, 0x9a, 0x57, 0x49, 0x37, 0x46, 0x25, 0x3f];
    proof {
        assert(uuid@ =~= fixed_uuid());
    }
    login_start::new(username.to_owned(), uuid)
}

} // verus!
