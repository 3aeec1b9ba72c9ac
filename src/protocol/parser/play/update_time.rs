use crate::protocol::parser::{be_nat, read_be};
use vstd::prelude::*;

verus! {

/// Ticks in one in-game day.
pub const DAY_TICKS: i64 = 24000;

/// Remainder of `t` by `m` with the sign of `t`, as integer division truncates.
pub open spec fn trunc_rem(t: int, m: int) -> int {
    if t >= 0 {
        t % m
    } else {
        -((-t) % m)
    }
}

/// Fields of an update-time body: the world age and the time of day within the day, both
/// read as big-endian 64-bit integers.
pub open spec fn update_time_spec(p: Seq<u8>) -> Option<(i64, i64)> {
    if p.len() < 16 {
        None
    } else {
        Some(
            (
                (be_nat(p.subrange(0, 8)) as u64) as i64,
                trunc_rem(((be_nat(p.subrange(8, 16)) as u64) as i64) as int, 24000) as i64,
            ),
        )
    }
}

/// Reads an update-time body; see [`update_time_spec`].
pub fn parse(pkt: Vec<u8>) -> (r: Option<(i64, i64)>)
    ensures
        r == update_time_spec(pkt@),
{
    if pkt.len() < 16 {
        return None;
    }
    let age = read_be(&pkt, 0, 8);
    let tod = read_be(&pkt, 8, 8);
    let age: i64 = #[verifier::truncate] (age as i64);
    let t: i64 = #[verifier::truncate] (tod as i64);
    let time_of_day: i64 = if t >= 0 {
        t % DAY_TICKS
    } else {
        let magnitude: i64 = -(t + 1);
        -((magnitude % DAY_TICKS + 1) % DAY_TICKS)
    };
    Some((age, time_of_day))
}

} // verus!
