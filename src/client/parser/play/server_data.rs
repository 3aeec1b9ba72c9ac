use crate::parse::{framed_body, framed_body_spec};
use crate::protocol::parser::mapper;
use crate::protocol::parser::play::server_data::{self as body_parser, server_data_spec};
use vstd::prelude::*;

verus! {

/// Reads a whole server data frame: the message of the day, the icon and whether secure
/// chat is enforced.
pub fn parse(pkt: Vec<u8>) -> (r: Option<(String, Vec<u8>, bool)>)
    ensures
        match r {
            Some((motd, icon, enforce)) => framed_body_spec(pkt@, mapper::SERVER_DATA, 2) matches Some(b)
                && server_data_spec(b) == Some((motd@, icon@, enforce)),
            None => framed_body_spec(pkt@, mapper::SERVER_DATA, 2) matches Some(b) ==> server_data_spec(b) is None,
        },
{
    match framed_body(&pkt, mapper::SERVER_DATA, 2) {
        Some(b) => body_parser::parse(b),
        None => None,
    }
}

} // verus!
