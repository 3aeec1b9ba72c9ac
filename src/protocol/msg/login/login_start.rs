use crate::protocol::msg::mapper;
use crate::protocol::msg::{build_frame, outbound_frame, push_string, string_field};
use vstd::prelude::*;

verus! {

/// Body of a login start: the user name, then a flag and the uuid when one is given.
pub open spec fn login_start_body(username: Seq<char>, uuid: Seq<u8>) -> Seq<u8> {
    string_field(username) + if uuid.len() == 0 {
        seq![0u8]
    } else {
        seq![1u8] + uuid
    }
}

/// The login start packet for `username`, with `uuid` when it is not empty. It is sent
/// before compression is set up.
pub fn new(username: String, uuid: Vec<u8>) -> (r: Vec<u8>)
    ensures
        r@ == outbound_frame(mapper::LOGIN_START, login_start_body(username@, uuid@), false),
{
    let mut body: Vec<u8> = Vec::new();
    push_string(&mut body, username.as_str());
    if uuid.len() == 0 {
        body.push(0);
    } else {
        body.push(1);
        let mut u = uuid;
        body.append(&mut u);
    }
    proof {
        assert(body@ =~= login_start_body(username@, uuid@));
    }
    build_frame(mapper::LOGIN_START, body, false)
}

} // verus!
