use crate::parse::{framed_body, framed_body_spec};
use crate::protocol::parser::mapper;
use crate::protocol::parser::play::sync_player_position::{self as body_parser, sync_player_position_spec};
use vstd::prelude::*;

verus! {

/// Reads a whole sync-player-position frame; the values are as in
/// [`sync_player_position_spec`].
pub fn parse(pkt: Vec<u8>) -> (r: Option<(u64, u64, u64, u32, u32, bool, i32)>)
    ensures
        match framed_body_spec(pkt@, mapper::SYNC_PLAYER_POSITION, 2) {
            Some(b) => r == sync_player_position_spec(b),
            None => r is None,
        },
{
    match framed_body(&pkt, mapper::SYNC_PLAYER_POSITION, 2) {
        Some(b) => body_parser::parse(b),
        None => None,
    }
}

} // verus!
