use crate::protocol::msg::mapper;
use crate::protocol::msg::{
    be_bytes, build_frame, outbound_frame, push_be, push_string, string_field,
};
use vstd::prelude::*;

verus! {

/// Body of a chat message: the text, the timestamp in seconds (big-endian), a zero salt,
/// the has-signature flag (zero) and an empty acknowledgement set.
pub open spec fn chat_message_body(text: Seq<char>, timestamp: i64) -> Seq<u8> {
    string_field(text) + be_bytes((timestamp as u64) as nat, 8) + Seq::new(13, |i: int| 0u8)
}

/// A chat message stamped with `timestamp`, in seconds since the Unix epoch; the caller reads
/// the clock.
pub fn new(msg: String, timestamp: i64, compress: bool) -> (r: Vec<u8>)
    ensures
        r@ == outbound_frame(mapper::CHAT_MESSAGE, chat_message_body(msg@, timestamp), compress),
{
    let mut body: Vec<u8> = Vec::new();
    push_string(&mut body, msg.as_str());
    push_be(&mut body, #[verifier::truncate] (timestamp as u64), 8);
    let ghost head = body@;
    let mut i: usize = 0;
    while i < 13
        invariant
            i <= 13,
            body@ == head + Seq::new(i as nat, |k: int| 0u8),
        decreases 13 - i,
    {
        body.push(0);
        i = i + 1;
        proof {
            assert(body@ =~= head + Seq::new(i as nat, |k: int| 0u8));
        }
    }
    proof {
        assert(body@ =~= chat_message_body(msg@, timestamp));
    }
    build_frame(mapper::CHAT_MESSAGE, body, compress)
}

} // verus!
