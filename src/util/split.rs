use crate::util::bytes::{sub_vec, views};
use crate::util::transfer_var::{lemma_varint_at_bounds, read_varint, varint_at};
use vstd::prelude::*;

verus! {

/// Position just past the first byte without the continuation bit at or after `i`; `None`
/// when `s` ends before such a byte.
pub open spec fn probe_end(s: Seq<u8>, i: int) -> Option<int>
    decreases s.len() - i,
{
    if i < 0 || i >= s.len() {
        None
    } else if s[i] < 128 {
        Some(i + 1)
    } else {
        probe_end(s, i + 1)
    }
}

/// Widths of the `n` VarInts that follow one another from position `i` of `s`; `None` when
/// `s` ends inside one of them.
pub open spec fn probe_widths(s: Seq<u8>, i: int, n: nat) -> Option<Seq<int>>
    decreases n,
{
    if n == 0 {
        Some(seq![])
    } else {
        match probe_end(s, i) {
            None => None,
            Some(e) => match probe_widths(s, e, (n - 1) as nat) {
                None => None,
                Some(rest) => Some(seq![e - i] + rest),
            },
        }
    }
}

/// Widths already found, put in front of the widths still to find.
pub open spec fn prepend_widths(done: Seq<int>, rest: Option<Seq<int>>) -> Option<Seq<int>> {
    match rest {
        Some(r) => Some(done + r),
        None => None,
    }
}

/// The widths as integers.
pub open spec fn widths_view(v: Seq<usize>) -> Seq<int> {
    v.map_values(|x: usize| x as int)
}

/// Byte widths of the next `num` VarInts of `packet` (none when `num` is not positive),
/// without their values; `None` when the packet ends inside one of them.
pub fn get_var_int_num(packet: Vec<u8>, num: i32) -> (r: Option<Vec<usize>>)
    ensures
        match r {
            Some(v) => probe_widths(packet@, 0, if num < 0 { 0 } else { num as nat }) == Some(
                widths_view(v@),
            ),
            None => probe_widths(packet@, 0, if num < 0 { 0 } else { num as nat }) is None,
        },
{
    let n: usize = if num < 0 {
        0
    } else {
        num as usize
    };
    let ghost s = packet@;
    let mut result: Vec<usize> = Vec::new();
    let mut index: usize = 0;
    let mut count: usize = 0;
    proof {
        assert(widths_view(result@) + probe_widths(s, 0, n as nat)->0 =~= probe_widths(
            s,
            0,
            n as nat,
        )->0);
    }
    while count < n
        invariant
            s == packet@,
            count <= n,
            index <= packet.len(),
            n as nat == if num < 0 { 0 } else { num as nat },
            probe_widths(s, 0, n as nat) == prepend_widths(
                widths_view(result@),
                probe_widths(s, index as int, (n - count) as nat),
            ),
        decreases n - count,
    {
        let start = index;
        let mut at = index;
        while at < packet.len() && packet[at] >= 128
            invariant
                s == packet@,
                start <= at <= packet.len(),
                probe_end(s, start as int) == probe_end(s, at as int),
            decreases packet.len() - at,
        {
            at = at + 1;
        }
        if at >= packet.len() {
            return None;
        }
        index = at + 1;
        let ghost before = widths_view(result@);
        result.push(index - start);
        proof {
            assert(probe_end(s, start as int) == Some(index as int));
            assert(widths_view(result@) =~= before.push(index - start));
            match probe_widths(s, index as int, (n - count - 1) as nat) {
                Some(rest) => {
                    assert(before + (seq![index - start] + rest) =~= before.push(index - start)
                        + rest);
                },
                None => {},
            }
        }
        count = count + 1;
    }
    proof {
        assert(widths_view(result@) + Seq::<int>::empty() =~= widths_view(result@));
    }
    Some(result)
}

/// The fields that lead a frame: the declared length, then either the data length (when
/// `threshold` is not negative) or the packet id, and the bytes after them; the field that
/// the layout lacks is -1. `None` when either VarInt is unfinished or too long.
pub open spec fn split_packet_spec(p: Seq<u8>, threshold: i32) -> Option<
    (i32, i32, i32, Seq<u8>),
> {
    match varint_at(p) {
        None => None,
        Some((w1, length)) => {
            let rest = p.subrange(w1, p.len() as int);
            match varint_at(rest) {
                None => None,
                Some((w2, second)) => {
                    let body = rest.subrange(w2, rest.len() as int);
                    if threshold >= 0 {
                        Some((length, second, -1i32, body))
                    } else {
                        Some((length, -1i32, second, body))
                    }
                },
            }
        },
    }
}

/// Splits a frame into its declared length, its second VarInt and the bytes after them;
/// see [`split_packet_spec`].
pub fn split_packet(packet: Vec<u8>, threshold: i32) -> (r: Option<(i32, i32, i32, Vec<u8>)>)
    ensures
        match r {
            Some((a, b, c, d)) => split_packet_spec(packet@, threshold) == Some((a, b, c, d@)),
            None => split_packet_spec(packet@, threshold) is None,
        },
{
    let (w1, length) = match read_varint(&packet, 0) {
        Some(x) => x,
        None => {
            proof {
                assert(packet@.subrange(0, packet.len() as int) =~= packet@);
            }
            return None;
        },
    };
    proof {
        assert(packet@.subrange(0, packet.len() as int) =~= packet@);
    }
    let (w2, second) = match read_varint(&packet, w1) {
        Some(x) => x,
        None => {
            return None;
        },
    };
    let body = sub_vec(&packet, w1 + w2, packet.len());
    proof {
        let rest = packet@.subrange(w1 as int, packet.len() as int);
        assert(rest.subrange(w2 as int, rest.len() as int) =~= body@);
    }
    if threshold >= 0 {
        Some((length, second, -1i32, body))
    } else {
        Some((length, -1i32, second, body))
    }
}

/// How a byte stream falls into frames: the complete frames in order, how many more bytes
/// the last of them still needs (0 when it is whole), and a short tail kept back because
/// it may not hold a whole length prefix yet.
///
/// A tail of at most 3 bytes, or one whose length prefix is still open, is kept back. A
/// prefix that cannot be read (over 5 bytes, or a negative length) makes the rest of the
/// stream one frame, for the frame checks to reject.
pub open spec fn split_stream(s: Seq<u8>) -> (Seq<Seq<u8>>, int, Seq<u8>)
    decreases s.len(),
    via split_stream_decreases
{
    if s.len() == 0 {
        (seq![], 0, seq![])
    } else if s.len() <= 3 {
        (seq![], 0, s)
    } else {
        match varint_at(s) {
            None => if s.len() < 5 {
                (seq![], 0, s)
            } else {
                (seq![s], 0, seq![])
            },
            Some((w, declared)) => if declared < 0 {
                (seq![s], 0, seq![])
            } else if w + declared >= s.len() {
                (seq![s], w + declared - s.len(), seq![])
            } else {
                let r = split_stream(s.subrange(w + declared, s.len() as int));
                (seq![s.subrange(0, w + declared)] + r.0, r.1, r.2)
            },
        }
    }
}

#[via_fn]
proof fn split_stream_decreases(s: Seq<u8>) {
    lemma_varint_at_bounds(s);
}

/// `rest` with `done` put in front of its frames.
pub open spec fn prefix_frames(done: Seq<Seq<u8>>, rest: (Seq<Seq<u8>>, int, Seq<u8>)) -> (
    Seq<Seq<u8>>,
    int,
    Seq<u8>,
) {
    (done + rest.0, rest.1, rest.2)
}

/// Splits a received byte run into frames; see [`split_stream`].
pub fn split_tcp_packet(packet: Vec<u8>) -> (r: (Vec<Vec<u8>>, i32, Vec<u8>))
    ensures
        split_stream(packet@) == (views(r.0@), r.1 as int, r.2@),
{
    let mut result: Vec<Vec<u8>> = Vec::new();
    let mut index: usize = 0;
    let len = packet.len();
    proof {
        assert(packet@.subrange(0, len as int) =~= packet@);
        assert(views(result@) + split_stream(packet@).0 =~= split_stream(packet@).0);
    }
    while index < len
        invariant
            index <= len,
            len == packet.len(),
            split_stream(packet@) == prefix_frames(
                views(result@),
                split_stream(packet@.subrange(index as int, len as int)),
            ),
        decreases len - index,
    {
        let ghost s = packet@.subrange(index as int, len as int);
        let ghost done = views(result@);
        let rest_len = len - index;
        if rest_len <= 3 {
            proof {
                assert(done + Seq::<Seq<u8>>::empty() =~= done);
            }
            return (result, 0, sub_vec(&packet, index, len));
        }
        match read_varint(&packet, index) {
            None => {
                proof {
                    assert(done + Seq::<Seq<u8>>::empty() =~= done);
                }
                if rest_len < 5 {
                    return (result, 0, sub_vec(&packet, index, len));
                }
                result.push(sub_vec(&packet, index, len));
                proof {
                    assert(views(result@) =~= done + seq![s]);
                }
                return (result, 0, Vec::new());
            },
            Some((w, declared)) => {
                proof {
                    lemma_varint_at_bounds(s);
                }
                if declared < 0 {
                    result.push(sub_vec(&packet, index, len));
                    proof {
                        assert(views(result@) =~= done + seq![s]);
                    }
                    return (result, 0, Vec::new());
                }
                let total: usize = w + declared as usize;
                if total >= rest_len {
                    result.push(sub_vec(&packet, index, len));
                    proof {
                        assert(views(result@) =~= done + seq![s]);
                    }
                    return (result, (total - rest_len) as i32, Vec::new());
                }
                result.push(sub_vec(&packet, index, index + total));
                proof {
                    let f = s.subrange(0, total as int);
                    assert(f =~= packet@.subrange(index as int, index + total));
                    assert(views(result@) =~= done.push(f));
                    assert(s.subrange(total as int, s.len() as int) =~= packet@.subrange(
                        index + total,
                        len as int,
                    ));
                    let r = split_stream(s.subrange(total as int, s.len() as int));
                    assert(done + (seq![f] + r.0) =~= done.push(f) + r.0);
                }
                index = index + total;
            },
        }
    }
    proof {
        assert(packet@.subrange(index as int, len as int) =~= Seq::<u8>::empty());
        assert(views(result@) + Seq::<Seq<u8>>::empty() =~= views(result@));
    }
    (result, 0, Vec::new())
}

} // verus!
