use vstd::prelude::*;

verus! {

/// Name of a difficulty level.
pub open spec fn difficulty_name(d: u8) -> Option<Seq<char>> {
    if d == 0 {
        Some("peaceful"@)
    } else if d == 1 {
        Some("easy"@)
    } else if d == 2 {
        Some("normal"@)
    } else if d == 3 {
        Some("hard"@)
    } else {
        None
    }
}

/// Fields of a change-difficulty body: the level's name and whether it is locked.
pub open spec fn change_difficulty_spec(p: Seq<u8>) -> Option<(Seq<char>, bool)> {
    if p.len() < 2 {
        None
    } else {
        match difficulty_name(p[0]) {
            Some(name) => Some((name, p[1] == 1)),
            None => None,
        }
    }
}

/// Reads a change-difficulty body; see [`change_difficulty_spec`].
pub fn parse(pkt: Vec<u8>) -> (r: Option<(String, bool)>)
    ensures
        match r {
            Some((name, lock)) => change_difficulty_spec(pkt@) == Some((name@, lock)),
            None => change_difficulty_spec(pkt@) is None,
        },
{
    if pkt.len() < 2 {
        return None;
    }
    let lock = pkt[1] == 1;
    let name = match pkt[0] {
        0 => String::from_str("peaceful"),
        1 => String::from_str("easy"),
        2 => String::from_str("normal"),
        3 => String::from_str("hard"),
        _ => {
            return None;
        },
    };
    Some((name, lock))
}

} // verus!
