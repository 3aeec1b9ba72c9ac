use crate::parse::{framed_body, framed_body_spec};
use crate::protocol::parser::mapper;
use crate::protocol::parser::play::change_difficulty::{self as body_parser, change_difficulty_spec};
use vstd::prelude::*;

verus! {

/// Reads the difficulty and its lock from a whole change-difficulty frame.
pub fn parse(pkt: Vec<u8>) -> (r: Option<(String, bool)>)
    ensures
        match r {
            Some((name, lock)) => framed_body_spec(pkt@, mapper::CHANGE_DIFFICULTY, 2) matches Some(b)
                && change_difficulty_spec(b) == Some((name@, lock)),
            None => framed_body_spec(pkt@, mapper::CHANGE_DIFFICULTY, 2) matches Some(b) ==> change_difficulty_spec(b) is None,
        },
{
    match framed_body(&pkt, mapper::CHANGE_DIFFICULTY, 2) {
        Some(b) => body_parser::parse(b),
        None => None,
    }
}

} // verus!
