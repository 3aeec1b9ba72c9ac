//! Turning an arbitrarily chunked byte stream back into whole frames.

use crate::util::bytes::{append_range, sub_vec, views};
use crate::util::split::{split_stream, split_tcp_packet};
use crate::util::transfer_var::{end_of_group, lemma_end_of_group_bounds, varint_at};
use vstd::prelude::*;

verus! {

/// The bytes of `fs`, one frame after another.
pub open spec fn flatten(fs: Seq<Seq<u8>>) -> Seq<u8>
    decreases fs.len(),
{
    if fs.len() == 0 {
        seq![]
    } else {
        fs[0] + flatten(fs.drop_first())
    }
}

/// A whole frame: a length prefix `d >= 0` in `w` bytes, then exactly `d` bytes.
pub open spec fn well_formed_frame(f: Seq<u8>) -> bool {
    match varint_at(f) {
        Some((w, d)) => d >= 0 && f.len() == w + d,
        None => false,
    }
}

/// A frame whose length prefix cannot be read: over 5 bytes, or a negative length.
pub open spec fn broken_head(f: Seq<u8>) -> bool {
    match varint_at(f) {
        Some((w, d)) => d < 0,
        None => f.len() >= 5,
    }
}

/// What the reassembler hands on: whole frames, or runs that start with a broken prefix.
pub open spec fn emitted_shape(f: Seq<u8>) -> bool {
    well_formed_frame(f) || broken_head(f)
}

/// The start of a frame that `need` more bytes complete.
pub open spec fn partial_frame(b: Seq<u8>, need: int) -> bool {
    match varint_at(b) {
        Some((w, d)) => d >= 0 && w + d == b.len() + need,
        None => false,
    }
}

/// A tail kept back because it may not hold a whole length prefix yet.
pub open spec fn held_back(b: Seq<u8>) -> bool {
    b.len() <= 3 || (varint_at(b) is None && b.len() < 5)
}

/// The states a reassembler may be in: the bytes it holds and how many more the held
/// frame needs.
pub open spec fn state_ok(buf: Seq<u8>, need: int) -> bool {
    &&& 0 <= need <= i32::MAX
    &&& need > 0 ==> partial_frame(buf, need)
    &&& need == 0 ==> held_back(buf)
}

/// State after a split: the unfinished last frame when there is one, else the kept tail.
pub open spec fn state_after(r: (Seq<Seq<u8>>, int, Seq<u8>)) -> (Seq<u8>, int) {
    if r.1 != 0 {
        (r.0.last(), r.1)
    } else {
        (r.2, 0)
    }
}

/// Frames of a split that are whole.
pub open spec fn frames_after(r: (Seq<Seq<u8>>, int, Seq<u8>)) -> Seq<Seq<u8>> {
    if r.1 != 0 {
        r.0.drop_last()
    } else {
        r.0
    }
}

/// One chunk taken in state `st`: the next state and the frames handed on.
///
/// While a frame is unfinished, a chunk shorter than what it needs is held; otherwise the
/// frame is completed from the chunk and the rest is split anew. With no unfinished frame
/// the kept tail and the chunk are split together.
pub open spec fn consume_spec(st: (Seq<u8>, int), chunk: Seq<u8>) -> ((Seq<u8>, int), Seq<
    Seq<u8>,
>) {
    let (buf, need) = st;
    if need > 0 {
        if chunk.len() < need {
            ((buf + chunk, need - chunk.len()), seq![])
        } else {
            let first = buf + chunk.subrange(0, need);
            let r = split_stream(chunk.subrange(need, chunk.len() as int));
            (state_after(r), seq![first] + frames_after(r))
        }
    } else {
        let r = split_stream(buf + chunk);
        (state_after(r), frames_after(r))
    }
}

/// The chunks taken one after another from state `st`: the last state and all frames
/// handed on, in order.
pub open spec fn feed(st: (Seq<u8>, int), chunks: Seq<Seq<u8>>) -> ((Seq<u8>, int), Seq<
    Seq<u8>,
>)
    decreases chunks.len(),
{
    if chunks.len() == 0 {
        (st, seq![])
    } else {
        let (st1, e1) = consume_spec(st, chunks[0]);
        let (st2, e2) = feed(st1, chunks.drop_first());
        (st2, e1 + e2)
    }
}

/// Reassembles frames from chunks of a byte stream, holding an unfinished frame or a short
/// tail between calls.
pub struct Reassembler {
    buffer: Vec<u8>,
    still_needed: i32,
}

/// Width of the length prefix at the start of `s`, 0 when it cannot be read.
pub open spec fn head_width(s: Seq<u8>) -> int {
    match varint_at(s) {
        Some((w, _)) => w,
        None => 0,
    }
}

/// Flattening distributes over concatenation.
pub proof fn lemma_flatten_concat(a: Seq<Seq<u8>>, b: Seq<Seq<u8>>)
    ensures
        flatten(a + b) == flatten(a) + flatten(b),
    decreases a.len(),
{
    if a.len() == 0 {
        assert(a + b =~= b);
        assert(Seq::<u8>::empty() + flatten(b) =~= flatten(b));
    } else {
        assert((a + b).drop_first() =~= a.drop_first() + b);
        lemma_flatten_concat(a.drop_first(), b);
        assert(a[0] + (flatten(a.drop_first()) + flatten(b)) =~= (a[0] + flatten(a.drop_first()))
            + flatten(b));
    }
}

proof fn lemma_flatten_one(f: Seq<u8>)
    ensures
        flatten(seq![f]) == f,
{
    assert(seq![f].drop_first() =~= Seq::<Seq<u8>>::empty());
    assert(flatten(Seq::<Seq<u8>>::empty()) =~= Seq::<u8>::empty());
    assert(seq![f][0] == f);
    assert(f + Seq::<u8>::empty() =~= f);
}

/// Where a group ends depends only on the bytes up to its end.
proof fn lemma_end_of_group_agree(s: Seq<u8>, t: Seq<u8>, i: int, max: int)
    requires
        0 <= i,
        end_of_group(s, i, max) > 0,
        end_of_group(s, i, max) <= t.len(),
        forall|j: int| 0 <= j < end_of_group(s, i, max) ==> s[j] == t[j],
    ensures
        end_of_group(t, i, max) == end_of_group(s, i, max),
    decreases max - i,
{
    lemma_end_of_group_bounds(s, i, max);
    if s[i] >= 128 {
        lemma_end_of_group_agree(s, t, i + 1, max);
    }
}

/// A length prefix read from `s` reads the same from any `t` that shares its bytes.
pub proof fn lemma_varint_at_agree(s: Seq<u8>, t: Seq<u8>)
    requires
        varint_at(s) is Some,
        head_width(s) <= t.len(),
        s.subrange(0, head_width(s)) == t.subrange(0, head_width(s)),
    ensures
        varint_at(t) == varint_at(s),
{
    lemma_end_of_group_bounds(s, 0, 5);
    let w = head_width(s);
    assert(w == end_of_group(s, 0, 5));
    assert forall|j: int| 0 <= j < w implies s[j] == t[j] by {
        assert(s.subrange(0, w)[j] == t.subrange(0, w)[j]);
    }
    lemma_end_of_group_agree(s, t, 0, 5);
}

/// A prefix read from the start of `a` reads the same from `a + b`.
proof fn lemma_varint_at_extend(a: Seq<u8>, b: Seq<u8>)
    requires
        varint_at(a) is Some,
    ensures
        varint_at(a + b) == varint_at(a),
{
    lemma_end_of_group_bounds(a, 0, 5);
    let w = head_width(a);
    assert(a.subrange(0, w) =~= (a + b).subrange(0, w));
    lemma_varint_at_agree(a, a + b);
}

/// What a split guarantees: it loses no byte, its frames have the shapes handed on, an
/// unfinished last frame is the start of a frame, and a kept tail is short.
pub proof fn lemma_split_stream_facts(s: Seq<u8>)
    ensures
        ({
            let r = split_stream(s);
            &&& flatten(r.0) + r.2 == s
            &&& 0 <= r.1 <= i32::MAX
            &&& r.1 > 0 ==> r.0.len() > 0 && r.2.len() == 0 && partial_frame(r.0.last(), r.1)
                && forall|j: int| 0 <= j < r.0.len() - 1 ==> emitted_shape(#[trigger] r.0[j])
            &&& r.1 == 0 ==> held_back(r.2) && forall|j: int|
                0 <= j < r.0.len() ==> emitted_shape(#[trigger] r.0[j])
        }),
    decreases s.len(),
{
    let r = split_stream(s);
    if s.len() == 0 {
        assert(flatten(r.0) + r.2 =~= s);
    } else if s.len() <= 3 {
        assert(flatten(r.0) + r.2 =~= s);
    } else {
        lemma_end_of_group_bounds(s, 0, 5);
        match varint_at(s) {
            None => {
                lemma_flatten_one(s);
                assert(flatten(r.0) + r.2 =~= s);
            },
            Some((w, d)) => {
                if d < 0 {
                    lemma_flatten_one(s);
                    assert(flatten(r.0) + r.2 =~= s);
                } else if w + d >= s.len() {
                    lemma_flatten_one(s);
                    assert(flatten(r.0) + r.2 =~= s);
                    assert(r.0.last() == s);
                } else {
                    let f = s.subrange(0, w + d);
                    let t = s.subrange(w + d, s.len() as int);
                    lemma_split_stream_facts(t);
                    let q = split_stream(t);
                    assert(r.0 == seq![f] + q.0);
                    assert((seq![f] + q.0).drop_first() =~= q.0);
                    assert(flatten(r.0) == f + flatten(q.0));
                    assert(f + flatten(q.0) + q.2 =~= f + (flatten(q.0) + q.2));
                    assert(f + t =~= s);
                    assert(f.subrange(0, w) =~= s.subrange(0, w));
                    lemma_varint_at_agree(s, f);
                    assert(well_formed_frame(f));
                    assert forall|j: int| 0 <= j < r.0.len() - 1 implies emitted_shape(
                        #[trigger] r.0[j],
                    ) by {
                        if j > 0 {
                            assert(r.0[j] == q.0[j - 1]);
                        }
                    }
                    if r.1 == 0 {
                        assert forall|j: int| 0 <= j < r.0.len() implies emitted_shape(
                            #[trigger] r.0[j],
                        ) by {
                            if j > 0 {
                                assert(r.0[j] == q.0[j - 1]);
                            }
                        }
                    } else {
                        assert(r.0.last() == q.0.last());
                    }
                }
            },
        }
    }
}

/// One chunk taken from a proper state leads to a proper state, hands on frames of the
/// expected shapes and loses no byte.
pub proof fn lemma_consume_step(st: (Seq<u8>, int), chunk: Seq<u8>)
    requires
        state_ok(st.0, st.1),
    ensures
        ({
            let (st1, e) = consume_spec(st, chunk);
            &&& state_ok(st1.0, st1.1)
            &&& forall|j: int| 0 <= j < e.len() ==> emitted_shape(#[trigger] e[j])
            &&& st.0 + chunk == flatten(e) + st1.0
        }),
{
    let (buf, need) = st;
    let (st1, e) = consume_spec(st, chunk);
    if need > 0 {
        lemma_end_of_group_bounds(buf, 0, 5);
        if chunk.len() < need {
            lemma_varint_at_extend(buf, chunk);
            assert(flatten(e) + st1.0 =~= buf + chunk);
        } else {
            let first = buf + chunk.subrange(0, need);
            let rest = chunk.subrange(need, chunk.len() as int);
            let r = split_stream(rest);
            lemma_split_stream_facts(rest);
            lemma_varint_at_extend(buf, chunk.subrange(0, need));
            assert(well_formed_frame(first));
            let fa = frames_after(r);
            assert(e == seq![first] + fa);
            assert forall|j: int| 0 <= j < e.len() implies emitted_shape(#[trigger] e[j]) by {
                if j > 0 {
                    assert(e[j] == fa[j - 1]);
                    assert(fa[j - 1] == r.0[j - 1]);
                }
            }
            assert((seq![first] + fa).drop_first() =~= fa);
            assert(flatten(e) == first + flatten(fa));
            if r.1 != 0 {
                assert(r.0 =~= fa + seq![r.0.last()]);
                lemma_flatten_concat(fa, seq![r.0.last()]);
                lemma_flatten_one(r.0.last());
                assert(r.2 =~= Seq::<u8>::empty());
                assert(flatten(r.0) + r.2 =~= flatten(r.0));
            }
            assert(flatten(fa) + st1.0 == rest);
            assert(chunk.subrange(0, need) + rest =~= chunk);
            assert(buf + chunk =~= first + (flatten(fa) + st1.0));
            assert(first + (flatten(fa) + st1.0) =~= (first + flatten(fa)) + st1.0);
        }
    } else {
        let data = buf + chunk;
        let r = split_stream(data);
        lemma_split_stream_facts(data);
        if r.1 != 0 {
            assert(r.0 =~= e + seq![r.0.last()]);
            lemma_flatten_concat(e, seq![r.0.last()]);
            lemma_flatten_one(r.0.last());
            assert(r.2 =~= Seq::<u8>::empty());
            assert(flatten(r.0) + r.2 =~= flatten(r.0));
            assert forall|j: int| 0 <= j < e.len() implies emitted_shape(#[trigger] e[j]) by {
                assert(e[j] == r.0[j]);
            }
        }
    }
}

/// Many chunks taken from a proper state: the same three facts over the whole run.
pub proof fn lemma_feed_facts(st: (Seq<u8>, int), chunks: Seq<Seq<u8>>)
    requires
        state_ok(st.0, st.1),
    ensures
        ({
            let (st1, e) = feed(st, chunks);
            &&& state_ok(st1.0, st1.1)
            &&& forall|j: int| 0 <= j < e.len() ==> emitted_shape(#[trigger] e[j])
            &&& st.0 + flatten(chunks) == flatten(e) + st1.0
        }),
    decreases chunks.len(),
{
    if chunks.len() == 0 {
        assert(st.0 + flatten(chunks) =~= flatten(Seq::<Seq<u8>>::empty()) + st.0);
    } else {
        let (st1, e1) = consume_spec(st, chunks[0]);
        lemma_consume_step(st, chunks[0]);
        lemma_feed_facts(st1, chunks.drop_first());
        let (st2, e2) = feed(st1, chunks.drop_first());
        lemma_flatten_concat(e1, e2);
        let e = e1 + e2;
        assert forall|j: int| 0 <= j < e.len() implies emitted_shape(#[trigger] e[j]) by {
            if j >= e1.len() {
                assert(e[j] == e2[j - e1.len()]);
            }
        }
        assert(st.0 + flatten(chunks) =~= (st.0 + chunks[0]) + flatten(chunks.drop_first()));
        assert(flatten(e1) + st1.0 + flatten(chunks.drop_first()) =~= flatten(e1) + (st1.0
            + flatten(chunks.drop_first())));
        assert(flatten(e1) + (flatten(e2) + st2.0) =~= flatten(e1 + e2) + st2.0);
    }
}

/// Frames handed on from a stream of whole frames are those frames, in order: if the
/// handed-on frames and then `rest` spell out `frames`, the handed-on ones are a prefix of
/// `frames` and `rest` is the remainder.
pub proof fn lemma_emitted_prefix(e: Seq<Seq<u8>>, frames: Seq<Seq<u8>>, rest: Seq<u8>)
    requires
        forall|j: int| 0 <= j < e.len() ==> emitted_shape(#[trigger] e[j]),
        forall|i: int| 0 <= i < frames.len() ==> well_formed_frame(#[trigger] frames[i]),
        flatten(e) + rest == flatten(frames),
    ensures
        e.len() <= frames.len(),
        e == frames.subrange(0, e.len() as int),
        rest == flatten(frames.subrange(e.len() as int, frames.len() as int)),
    decreases e.len(),
{
    if e.len() == 0 {
        assert(frames.subrange(0, 0) =~= Seq::<Seq<u8>>::empty());
        assert(frames.subrange(0, frames.len() as int) =~= frames);
        assert(flatten(e) + rest =~= rest);
    } else {
        let e0 = e[0];
        let all = flatten(frames);
        assert(flatten(e) + rest =~= e0 + (flatten(e.drop_first()) + rest));
        lemma_end_of_group_bounds(e0, 0, 5);
        assert(e0.len() >= 1);
        if frames.len() == 0 {
            assert(all.len() == 0);
            assert(false);
        }
        let f0 = frames[0];
        assert(well_formed_frame(frames[0]));
        lemma_end_of_group_bounds(f0, 0, 5);
        assert(all =~= f0 + flatten(frames.drop_first()));
        lemma_varint_at_extend(f0, flatten(frames.drop_first()));
        let w = head_width(f0);
        if varint_at(e0) is Some {
            lemma_varint_at_extend(e0, flatten(e.drop_first()) + rest);
            assert(varint_at(e0) == varint_at(all));
        } else {
            assert(e0.len() >= 5);
            assert(w <= e0.len());
            assert(all.subrange(0, w) =~= e0.subrange(0, w));
            lemma_varint_at_agree(all, e0);
            assert(false);
        }
        assert(e0.len() == f0.len());
        assert(e0 =~= all.subrange(0, e0.len() as int));
        assert(f0 =~= all.subrange(0, f0.len() as int));
        assert(e0 == f0);
        let fr = frames.drop_first();
        assert(flatten(e.drop_first()) + rest =~= all.subrange(e0.len() as int, all.len() as int));
        assert(flatten(fr) =~= all.subrange(f0.len() as int, all.len() as int));
        assert(flatten(e.drop_first()) + rest =~= flatten(fr));
        assert forall|i: int| 0 <= i < fr.len() implies well_formed_frame(#[trigger] fr[i]) by {
            assert(fr[i] == frames[i + 1]);
        }
        assert forall|j: int| 0 <= j < e.drop_first().len() implies emitted_shape(
            #[trigger] e.drop_first()[j],
        ) by {
            assert(e.drop_first()[j] == e[j + 1]);
        }
        lemma_emitted_prefix(e.drop_first(), fr, rest);
        assert forall|j: int| 0 <= j < e.len() implies e[j] == frames[j] by {
            if j > 0 {
                assert(e[j] == e.drop_first()[j - 1]);
                assert(fr.subrange(0, e.len() - 1)[j - 1] == fr[j - 1]);
            }
        }
        assert(e =~= frames.subrange(0, e.len() as int));
        assert(fr.subrange(e.len() - 1, fr.len() as int) =~= frames.subrange(
            e.len() as int,
            frames.len() as int,
        ));
    }
}

/// Reassembly gives back exactly the frames sent: when whole frames are sent as one byte
/// stream, cut into chunks anywhere (down to single bytes), a fresh reassembler fed the
/// chunks in order hands on exactly those frames, in order, byte for byte, and holds
/// nothing afterwards.
///
/// The last frame must be at least 4 bytes long: a shorter tail may not yet hold a whole
/// length prefix, so it is kept until more bytes arrive.
pub proof fn lemma_reassembly_recovers_frames(frames: Seq<Seq<u8>>, chunks: Seq<Seq<u8>>)
    requires
        forall|i: int| 0 <= i < frames.len() ==> well_formed_frame(#[trigger] frames[i]),
        frames.len() > 0 ==> frames.last().len() >= 4,
        flatten(chunks) == flatten(frames),
    ensures
        feed((seq![], 0), chunks).1 == frames,
        feed((seq![], 0), chunks).0 == (Seq::<u8>::empty(), 0int),
{
    let st0: (Seq<u8>, int) = (seq![], 0);
    lemma_feed_facts(st0, chunks);
    let (st1, e) = feed(st0, chunks);
    assert(st0.0 + flatten(chunks) =~= flatten(chunks));
    lemma_emitted_prefix(e, frames, st1.0);
    let k = e.len() as int;
    if k < frames.len() {
        let tail = frames.subrange(k, frames.len() as int);
        let fk = frames[k];
        assert(tail[0] == fk);
        assert(tail.drop_first() + seq![] =~= tail.drop_first());
        assert(flatten(tail) == fk + flatten(tail.drop_first()));
        let b = st1.0;
        assert(well_formed_frame(fk));
        lemma_end_of_group_bounds(fk, 0, 5);
        lemma_varint_at_extend(fk, flatten(tail.drop_first()));
        if st1.1 > 0 {
            assert(fk.len() <= b.len());
            assert(false);
        } else {
            assert(b.len() <= 3);
            assert(tail =~= tail.subrange(0, tail.len() - 1) + seq![frames.last()]);
            lemma_flatten_concat(tail.subrange(0, tail.len() - 1), seq![frames.last()]);
            lemma_flatten_one(frames.last());
            assert(false);
        }
    }
    assert(e =~= frames);
    assert(frames.subrange(k, frames.len() as int) =~= Seq::<Seq<u8>>::empty());
    assert(flatten(Seq::<Seq<u8>>::empty()) =~= Seq::<u8>::empty());
    if st1.1 > 0 {
        lemma_end_of_group_bounds(st1.0, 0, 5);
    }
}

/// Whole frames followed by a tail of 1 to 3 bytes split into exactly those frames, with
/// the tail kept back whole.
proof fn lemma_split_frames_then_short_tail(frames: Seq<Seq<u8>>, tail: Seq<u8>)
    requires
        forall|i: int| 0 <= i < frames.len() ==> well_formed_frame(#[trigger] frames[i]),
        frames.len() > 0 ==> frames.last().len() >= 4,
        1 <= tail.len() <= 3,
    ensures
        split_stream(flatten(frames) + tail) == (frames, 0int, tail),
    decreases frames.len(),
{
    let s = flatten(frames) + tail;
    if frames.len() == 0 {
        assert(s =~= tail);
        assert(frames =~= Seq::<Seq<u8>>::empty());
    } else {
        let f0 = frames[0];
        let rest = frames.drop_first();
        assert forall|i: int| 0 <= i < rest.len() implies well_formed_frame(#[trigger] rest[i]) by {
            assert(rest[i] == frames[i + 1]);
        }
        if rest.len() > 0 {
            assert(rest.last() == frames.last());
        }
        lemma_split_frames_then_short_tail(rest, tail);
        let init = frames.drop_last();
        assert(frames =~= init + seq![frames.last()]);
        lemma_flatten_concat(init, seq![frames.last()]);
        lemma_flatten_one(frames.last());
        assert(s.len() >= 5);
        assert(well_formed_frame(frames[0]));
        lemma_end_of_group_bounds(f0, 0, 5);
        assert(flatten(frames) == f0 + flatten(rest));
        assert(s =~= f0 + (flatten(rest) + tail));
        lemma_varint_at_extend(f0, flatten(rest) + tail);
        assert(s.subrange(0, f0.len() as int) =~= f0);
        assert(s.subrange(f0.len() as int, s.len() as int) =~= flatten(rest) + tail);
        assert(seq![f0] + rest =~= frames);
    }
}

/// A chunk ending inside a length prefix is held and completed later: a reassembler holding
/// nothing that takes whole frames followed by a tail of 1 to 3 bytes hands on exactly
/// those frames and holds the tail whole, with no frame unfinished.
pub proof fn lemma_short_tail_held(frames: Seq<Seq<u8>>, tail: Seq<u8>)
    requires
        forall|i: int| 0 <= i < frames.len() ==> well_formed_frame(#[trigger] frames[i]),
        frames.len() > 0 ==> frames.last().len() >= 4,
        1 <= tail.len() <= 3,
    ensures
        consume_spec((Seq::<u8>::empty(), 0int), flatten(frames) + tail) == ((tail, 0int), frames),
{
    lemma_split_frames_then_short_tail(frames, tail);
    assert(Seq::<u8>::empty() + (flatten(frames) + tail) =~= flatten(frames) + tail);
}

impl View for Reassembler {
    type V = (Seq<u8>, int);

    closed spec fn view(&self) -> (Seq<u8>, int) {
        (self.buffer@, self.still_needed as int)
    }
}


impl Reassembler {
    /// The reassembler's invariant: a proper state.
    pub open spec fn wf(&self) -> bool {
        state_ok(self@.0, self@.1)
    }

    /// A reassembler holding nothing.
    pub fn new() -> (r: Reassembler)
        ensures
            r.wf(),
            r@ == (Seq::<u8>::empty(), 0int),
    {
        Reassembler { buffer: Vec::new(), still_needed: 0 }
    }

    /// How many more bytes the held frame needs; 0 when no frame is unfinished.
    pub fn still_needed(&self) -> (r: i32)
        ensures
            r as int == self@.1,
    {
        self.still_needed
    }

    /// The bytes held between calls.
    pub fn pending(&self) -> (r: &Vec<u8>)
        ensures
            r@ == self@.0,
    {
        &self.buffer
    }

    /// Takes the next chunk of the stream and hands on the frames it completes, in order;
    /// see [`consume_spec`].
    pub fn consume(&mut self, chunk: Vec<u8>) -> (frames: Vec<Vec<u8>>)
        requires
            old(self).wf(),
        ensures
            final(self).wf(),
            (final(self)@, views(frames@)) == consume_spec(old(self)@, chunk@),
            forall|j: int| 0 <= j < frames.len() ==> emitted_shape(#[trigger] frames@[j]@),
    {
        proof {
            lemma_consume_step(self@, chunk@);
        }
        let ghost st = self@;
        let ghost c = chunk@;
        let mut out: Vec<Vec<u8>> = Vec::new();
        let mut data = chunk;
        if self.still_needed > 0 {
            let need = self.still_needed as usize;
            let len = data.len();
            if len < need {
                self.buffer.append(&mut data);
                self.still_needed = self.still_needed - len as i32;
                proof {
                    assert(views(out@) =~= Seq::<Seq<u8>>::empty());
                }
                return out;
            }
            let mut frame: Vec<u8> = Vec::new();
            std::mem::swap(&mut frame, &mut self.buffer);
            append_range(&mut frame, &data, 0, need);
            out.push(frame);
            data = sub_vec(&data, need, len);
            self.still_needed = 0;
        } else if self.buffer.len() > 0 {
            let mut joined: Vec<u8> = Vec::new();
            std::mem::swap(&mut joined, &mut self.buffer);
            joined.append(&mut data);
            data = joined;
        } else {
            proof {
                assert(st.0 + c =~= c);
            }
        }
        let ghost first = views(out@);
        let (mut frames, need, rest) = split_tcp_packet(data);
        let ghost r = split_stream(data@);
        if need != 0 {
            proof {
                lemma_split_stream_facts(data@);
            }
            match frames.pop() {
                Some(last) => {
                    self.buffer = last;
                },
                None => {},
            }
            self.still_needed = need;
            proof {
                assert(views(frames@) =~= r.0.drop_last());
            }
        } else {
            self.buffer = rest;
        }
        let ghost tail = views(frames@);
        out.append(&mut frames);
        proof {
            assert(views(out@) =~= first + tail);
            lemma_split_stream_facts(data@);
            assert forall|j: int| 0 <= j < out.len() implies emitted_shape(
                #[trigger] out@[j]@,
            ) by {
                assert(out@[j]@ == views(out@)[j]);
            }
        }
        out
    }
}

} // verus!
