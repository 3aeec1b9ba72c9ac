use vstd::prelude::*;

verus! {

/// `128` raised to the power `n`.
pub open spec fn pow128(n: nat) -> nat
    decreases n,
{
    if n == 0 {
        1
    } else {
        128 * pow128((n - 1) as nat)
    }
}

/// Numeric value of a run of VarInt bytes: seven payload bits per byte, lowest group first.
pub open spec fn group_value(g: Seq<u8>) -> nat
    decreases g.len(),
{
    if g.len() == 0 {
        0
    } else {
        (g[0] % 128) as nat + 128 * group_value(g.drop_first())
    }
}

/// Position just past the first byte without the continuation bit among `s[i..max]`,
/// or 0 when there is none there.
pub open spec fn end_of_group(s: Seq<u8>, i: int, max: int) -> int
    decreases max - i,
{
    if i >= max || i >= s.len() {
        0
    } else if s[i] < 128 {
        i + 1
    } else {
        end_of_group(s, i + 1, max)
    }
}

/// Width of the VarInt at the start of `s` when it ends within `max` bytes, else 0.
pub open spec fn group_width(s: Seq<u8>, max: int) -> int {
    end_of_group(s, 0, max)
}

/// The VarInt encoding of `v`: seven bits at a time, low to high, the continuation bit set
/// on every byte but the last.
pub open spec fn varint_bytes(v: nat) -> Seq<u8>
    decreases v,
{
    if v < 128 {
        seq![v as u8]
    } else {
        seq![(v % 128 + 128) as u8] + varint_bytes(v / 128)
    }
}

/// Values of the VarInts that follow one another in `b`, each at most `max` bytes wide.
/// `None` when a value's continuation chain runs to `max` bytes; an unfinished value at
/// the very end (shorter than `max`) is left out.
pub open spec fn decode_groups(b: Seq<u8>, max: int) -> Option<Seq<nat>>
    decreases b.len(),
    via decode_groups_decreases
{
    if b.len() == 0 {
        Some(seq![])
    } else if group_width(b, max) > 0 {
        let w = group_width(b, max);
        match decode_groups(b.subrange(w, b.len() as int), max) {
            Some(rest) => Some(seq![group_value(b.subrange(0, w))] + rest),
            None => None,
        }
    } else if b.len() >= max {
        None
    } else {
        Some(seq![])
    }
}

#[via_fn]
proof fn decode_groups_decreases(b: Seq<u8>, max: int) {
    lemma_end_of_group_bounds(b, 0, max);
}

/// A group end found from `i` lies after `i`, within `s` and within `max`.
pub proof fn lemma_end_of_group_bounds(s: Seq<u8>, i: int, max: int)
    requires
        0 <= i,
    ensures
        end_of_group(s, i, max) == 0 || (i < end_of_group(s, i, max) <= s.len()
            && end_of_group(s, i, max) <= max),
    decreases max - i,
{
    if i < max && i < s.len() && s[i] >= 128 {
        lemma_end_of_group_bounds(s, i + 1, max);
    }
}

/// Decoded VarInt values prefixed with the values already read.
pub open spec fn prepend_values(done: Seq<nat>, rest: Option<Seq<nat>>) -> Option<Seq<nat>> {
    match rest {
        Some(r) => Some(done + r),
        None => None,
    }
}

/// The 32-bit two's-complement reading of the low 32 bits of `v`.
pub open spec fn wrap_i32(v: nat) -> i32 {
    ((v % 0x1_0000_0000) as u32) as i32
}

/// The 64-bit two's-complement reading of the low 64 bits of `v`.
pub open spec fn wrap_i64(v: nat) -> i64 {
    ((v % 0x1_0000_0000_0000_0000) as u64) as i64
}

/// Concatenated VarInt encodings of `vs`, each read as an unsigned 32-bit pattern.
pub open spec fn encode_varints(vs: Seq<i32>) -> Seq<u8>
    decreases vs.len(),
{
    if vs.len() == 0 {
        seq![]
    } else {
        varint_bytes((vs[0] as u32) as nat) + encode_varints(vs.drop_first())
    }
}

/// Concatenated VarLong encodings of `vs`, each read as an unsigned 64-bit pattern.
pub open spec fn encode_varlongs(vs: Seq<i64>) -> Seq<u8>
    decreases vs.len(),
{
    if vs.len() == 0 {
        seq![]
    } else {
        varint_bytes((vs[0] as u64) as nat) + encode_varlongs(vs.drop_first())
    }
}

/// The values that `b` decodes to as VarInts (at most 5 bytes each).
pub open spec fn decode_varints(b: Seq<u8>) -> Option<Seq<i32>> {
    match decode_groups(b, 5) {
        Some(g) => Some(g.map_values(|v: nat| wrap_i32(v))),
        None => None,
    }
}

/// The values that `b` decodes to as VarLongs (at most 10 bytes each).
pub open spec fn decode_varlongs(b: Seq<u8>) -> Option<Seq<i64>> {
    match decode_groups(b, 10) {
        Some(g) => Some(g.map_values(|v: nat| wrap_i64(v))),
        None => None,
    }
}

/// Why a run of bytes is not a sequence of VarInts.
#[derive(Clone, Copy, Debug, PartialEq, Eq, Structural)]
pub enum VarIntError {
    /// A value's continuation chain is longer than the type allows (5 bytes for a VarInt,
    /// 10 for a VarLong).
    VarIntTooLong,
}


/// `g` is one complete VarInt: continuation bit on every byte but the last.
pub open spec fn is_group(g: Seq<u8>) -> bool {
    &&& g.len() >= 1
    &&& forall|j: int| 0 <= j < g.len() - 1 ==> g[j] >= 128
    &&& g[g.len() - 1] < 128
}

/// Appending a byte adds its seven bits at the next position.
pub proof fn lemma_group_value_push(g: Seq<u8>, x: u8)
    ensures
        group_value(g.push(x)) == group_value(g) + (x % 128) as nat * pow128(g.len()),
    decreases g.len(),
{
    if g.len() == 0 {
        assert(g.push(x).drop_first() =~= Seq::<u8>::empty());
        assert(group_value(g.push(x).drop_first()) == 0);
        assert(group_value(g) == 0);
        assert(pow128(0) == 1);
        assert(g.push(x)[0] == x);
    } else {
        assert(g.push(x).drop_first() =~= g.drop_first().push(x));
        lemma_group_value_push(g.drop_first(), x);
        let a = (x % 128) as nat;
        let p = pow128((g.len() - 1) as nat);
        let r = group_value(g.drop_first());
        assert(g.push(x)[0] == g[0]);
        assert(group_value(g.push(x)) == (g[0] % 128) as nat + 128 * (r + a * p));
        assert(pow128(g.len()) == 128 * p);
        assert(128 * (a * p) == a * (128 * p)) by (nonlinear_arith);
    }
}

/// A group's value is below `128` to the power of its width.
pub proof fn lemma_group_value_bound(g: Seq<u8>)
    ensures
        group_value(g) < pow128(g.len()),
    decreases g.len(),
{
    if g.len() > 0 {
        lemma_group_value_bound(g.drop_first());
    }
}

/// The encoding of `v` is one complete group of at most `k` bytes whose value is `v`.
pub proof fn lemma_varint_bytes_shape(v: nat, k: nat)
    requires
        k >= 1,
        v < pow128(k),
    ensures
        is_group(varint_bytes(v)),
        varint_bytes(v).len() <= k,
        group_value(varint_bytes(v)) == v,
    decreases v,
{
    let g = varint_bytes(v);
    if v < 128 {
        assert(g.drop_first() =~= Seq::<u8>::empty());
        assert(group_value(g.drop_first()) == 0);
        assert(g[0] == v);
    } else {
        let k1 = (k - 1) as nat;
        assert(pow128(0) == 1);
        assert(pow128(k) == 128 * pow128(k1));
        assert(v / 128 < pow128(k1));
        lemma_varint_bytes_shape(v / 128, k1);
        let t = varint_bytes(v / 128);
        assert(g.drop_first() =~= t);
        assert(g[0] == (v % 128 + 128) as u8);
        assert(g[0] % 128 == v % 128);
        assert(v == v % 128 + 128 * (v / 128));
        assert forall|j: int| 0 <= j < g.len() - 1 implies g[j] >= 128 by {
            if j > 0 {
                assert(g[j] == t[j - 1]);
            }
        }
        assert(g[g.len() - 1] == t[t.len() - 1]);
    }
}

/// In a stream that starts with a complete group of `n <= max` bytes, the group ends at `n`.
pub proof fn lemma_end_of_group_at(s: Seq<u8>, n: int, i: int, max: int)
    requires
        1 <= n <= s.len(),
        n <= max,
        0 <= i < n,
        is_group(s.subrange(0, n)),
    ensures
        end_of_group(s, i, max) == n,
    decreases n - i,
{
    let g = s.subrange(0, n);
    if i < n - 1 {
        assert(g[i] >= 128);
        lemma_end_of_group_at(s, n, i + 1, max);
    } else {
        assert(g[n - 1] < 128);
    }
}

/// Decoding a stream that starts with the encoding of `v` yields `v`, then the rest.
pub proof fn lemma_decode_varint_prefix(v: nat, rest: Seq<u8>, max: int)
    requires
        max >= 1,
        v < pow128(max as nat),
    ensures
        decode_groups(varint_bytes(v) + rest, max) == prepend_values(
            seq![v],
            decode_groups(rest, max),
        ),
{
    let g = varint_bytes(v);
    let s = g + rest;
    lemma_varint_bytes_shape(v, max as nat);
    assert(s.subrange(0, g.len() as int) =~= g);
    lemma_end_of_group_at(s, g.len() as int, 0, max);
    assert(s.subrange(g.len() as int, s.len() as int) =~= rest);
}

/// `pow128` at the widths the codec uses.
pub proof fn lemma_pow128_values()
    ensures
        pow128(5) == 0x8_0000_0000,
        pow128(9) == 0x8000_0000_0000_0000,
        pow128(10) == 0x40_0000_0000_0000_0000,
{
    reveal_with_fuel(pow128, 11);
}

/// `pow128` grows with its exponent.
pub proof fn lemma_pow128_monotone(i: nat, j: nat)
    requires
        i <= j,
    ensures
        pow128(i) <= pow128(j),
    decreases j,
{
    if i < j {
        lemma_pow128_monotone(i, (j - 1) as nat);
    }
}

/// The encoded values of `vs` decode back to their unsigned 32-bit patterns.
pub proof fn lemma_decode_encode_groups(vs: Seq<i32>)
    ensures
        decode_groups(encode_varints(vs), 5) == Some(
            Seq::new(vs.len(), |i: int| (vs[i] as u32) as nat),
        ),
    decreases vs.len(),
{
    if vs.len() > 0 {
        lemma_pow128_values();
        lemma_decode_encode_groups(vs.drop_first());
        lemma_decode_varint_prefix((vs[0] as u32) as nat, encode_varints(vs.drop_first()), 5);
        assert(seq![(vs[0] as u32) as nat] + Seq::new(
            vs.drop_first().len(),
            |i: int| (vs.drop_first()[i] as u32) as nat,
        ) =~= Seq::new(vs.len(), |i: int| (vs[i] as u32) as nat));
    } else {
        assert(encode_varints(vs) =~= Seq::<u8>::empty());
        assert(Seq::new(vs.len(), |i: int| (vs[i] as u32) as nat) =~= Seq::<nat>::empty());
    }
}

/// The encoded values of `vs` decode back to their unsigned 64-bit patterns.
pub proof fn lemma_decode_encode_long_groups(vs: Seq<i64>)
    ensures
        decode_groups(encode_varlongs(vs), 10) == Some(
            Seq::new(vs.len(), |i: int| (vs[i] as u64) as nat),
        ),
    decreases vs.len(),
{
    if vs.len() > 0 {
        lemma_pow128_values();
        lemma_decode_encode_long_groups(vs.drop_first());
        lemma_decode_varint_prefix((vs[0] as u64) as nat, encode_varlongs(vs.drop_first()), 10);
        assert(seq![(vs[0] as u64) as nat] + Seq::new(
            vs.drop_first().len(),
            |i: int| (vs.drop_first()[i] as u64) as nat,
        ) =~= Seq::new(vs.len(), |i: int| (vs[i] as u64) as nat));
    } else {
        assert(encode_varlongs(vs) =~= Seq::<u8>::empty());
        assert(Seq::new(vs.len(), |i: int| (vs[i] as u64) as nat) =~= Seq::<nat>::empty());
    }
}

proof fn lemma_i32_pattern(v: i32)
    ensures
        wrap_i32((v as u32) as nat) == v,
{
    let u = v as u32;
    assert((u as nat) % 0x1_0000_0000 == u as nat);
    assert((v as u32) as i32 == v) by (bit_vector);
}

proof fn lemma_i64_pattern(v: i64)
    ensures
        wrap_i64((v as u64) as nat) == v,
{
    let u = v as u64;
    assert((u as nat) % 0x1_0000_0000_0000_0000 == u as nat);
    assert((v as u64) as i64 == v) by (bit_vector);
}

/// Every sequence of 32-bit values survives encoding as VarInts and decoding again.
pub proof fn lemma_varint_round_trip(vs: Seq<i32>)
    ensures
        decode_varints(encode_varints(vs)) == Some(vs),
{
    lemma_decode_encode_groups(vs);
    let g = Seq::new(vs.len(), |i: int| (vs[i] as u32) as nat);
    assert forall|i: int| 0 <= i < vs.len() implies wrap_i32(g[i]) == vs[i] by {
        lemma_i32_pattern(vs[i]);
    }
    assert(g.map_values(|v: nat| wrap_i32(v)) =~= vs);
}

/// Every sequence of 64-bit values survives encoding as VarLongs and decoding again.
pub proof fn lemma_varlong_round_trip(vs: Seq<i64>)
    ensures
        decode_varlongs(encode_varlongs(vs)) == Some(vs),
{
    lemma_decode_encode_long_groups(vs);
    let g = Seq::new(vs.len(), |i: int| (vs[i] as u64) as nat);
    assert forall|i: int| 0 <= i < vs.len() implies wrap_i64(g[i]) == vs[i] by {
        lemma_i64_pattern(vs[i]);
    }
    assert(g.map_values(|v: nat| wrap_i64(v)) =~= vs);
}


/// Reads the VarInt that starts at `b[start]`: its width, 0 when it does not end within
/// `max` bytes, and, when it ends, its value.
pub fn read_group(b: &Vec<u8>, start: usize, max: usize) -> (r: (usize, u128))
    requires
        start <= b.len(),
        max <= 10,
    ensures
        r.0 as int == group_width(b@.subrange(start as int, b.len() as int), max as int),
        r.0 > 0 ==> r.1 as nat == group_value(b@.subrange(start as int, start + r.0)),
{
    let ghost s = b@.subrange(start as int, b.len() as int);
    let mut i: usize = 0;
    let mut acc: u128 = 0;
    let mut mult: u128 = 1;
    proof {
        assert(b@.subrange(start as int, start as int) =~= Seq::<u8>::empty());
    }
    while i < max && i < b.len() - start
        invariant
            start <= b.len(),
            max <= 10,
            i <= max,
            i <= b.len() - start,
            s == b@.subrange(start as int, b.len() as int),
            mult as nat == pow128(i as nat),
            acc as nat == group_value(b@.subrange(start as int, start + i)),
            group_width(s, max as int) == end_of_group(s, i as int, max as int),
        decreases max - i,
    {
        let byte = b[start + i];
        let ghost g = b@.subrange(start as int, start + i);
        proof {
            lemma_group_value_push(g, byte);
            assert(g.push(byte) =~= b@.subrange(start as int, start + i + 1));
            lemma_group_value_bound(g);
            lemma_pow128_values();
            lemma_pow128_monotone(i as nat, 9);
            let m = mult as nat;
            let d = (byte % 128) as nat;
            assert(d * m <= 127 * m) by (nonlinear_arith)
                requires
                    d <= 127,
            ;
            assert(s[i as int] == byte);
        }
        acc = acc + (byte % 128) as u128 * mult;
        if byte < 128 {
            return (i + 1, acc);
        }
        mult = mult * 128;
        i = i + 1;
    }
    (0, 0)
}

/// Appends the VarInt encoding of `v` to `out`.
pub fn push_varint(out: &mut Vec<u8>, v: u64)
    ensures
        final(out)@ == old(out)@ + varint_bytes(v as nat),
{
    let ghost start = out@;
    let mut value = v;
    while value > 127
        invariant
            start + varint_bytes(v as nat) == out@ + varint_bytes(value as nat),
        decreases value,
    {
        let byte = (value % 128) as u8 + 128;
        proof {
            let t = varint_bytes((value / 128) as nat);
            assert(varint_bytes(value as nat) == seq![byte] + t);
            assert(out@ + (seq![byte] + t) =~= out@.push(byte) + t);
        }
        out.push(byte);
        value = value / 128;
    }
    proof {
        assert(varint_bytes(value as nat) == seq![value as u8]);
        assert(out@ + seq![value as u8] =~= out@.push(value as u8));
    }
    out.push(value as u8);
}

/// Encodes each value as a VarInt (its two's-complement bits read unsigned), in order.
pub fn uint2var_int(n: Vec<i32>) -> (r: Vec<u8>)
    ensures
        r@ == encode_varints(n@),
{
    let mut res: Vec<u8> = Vec::new();
    let mut i: usize = 0;
    proof {
        assert(n@.subrange(0, n.len() as int) =~= n@);
        assert(res@ + encode_varints(n@) =~= encode_varints(n@));
    }
    while i < n.len()
        invariant
            i <= n.len(),
            res@ + encode_varints(n@.subrange(i as int, n.len() as int)) == encode_varints(n@),
        decreases n.len() - i,
    {
        let ghost sub = n@.subrange(i as int, n.len() as int);
        let ghost before = res@;
        proof {
            assert(sub.drop_first() =~= n@.subrange(i + 1, n.len() as int));
            assert(sub[0] == n[i as int]);
        }
        push_varint(&mut res, (#[verifier::truncate] (n[i] as u32)) as u64);
        proof {
            let a = varint_bytes((n[i as int] as u32) as nat);
            let t = encode_varints(n@.subrange(i + 1, n.len() as int));
            assert(before + (a + t) =~= (before + a) + t);
        }
        i = i + 1;
    }
    proof {
        assert(n@.subrange(i as int, n.len() as int) =~= Seq::<i32>::empty());
        assert(res@ + Seq::<u8>::empty() =~= res@);
    }
    res
}

/// Encodes each value as a VarLong (its two's-complement bits read unsigned), in order.
pub fn uint2var_long(n: Vec<i64>) -> (r: Vec<u8>)
    ensures
        r@ == encode_varlongs(n@),
{
    let mut res: Vec<u8> = Vec::new();
    let mut i: usize = 0;
    proof {
        assert(n@.subrange(0, n.len() as int) =~= n@);
        assert(res@ + encode_varlongs(n@) =~= encode_varlongs(n@));
    }
    while i < n.len()
        invariant
            i <= n.len(),
            res@ + encode_varlongs(n@.subrange(i as int, n.len() as int)) == encode_varlongs(n@),
        decreases n.len() - i,
    {
        let ghost sub = n@.subrange(i as int, n.len() as int);
        let ghost before = res@;
        proof {
            assert(sub.drop_first() =~= n@.subrange(i + 1, n.len() as int));
            assert(sub[0] == n[i as int]);
        }
        push_varint(&mut res, #[verifier::truncate] (n[i] as u64));
        proof {
            let a = varint_bytes((n[i as int] as u64) as nat);
            let t = encode_varlongs(n@.subrange(i + 1, n.len() as int));
            assert(before + (a + t) =~= (before + a) + t);
        }
        i = i + 1;
    }
    proof {
        assert(n@.subrange(i as int, n.len() as int) =~= Seq::<i64>::empty());
        assert(res@ + Seq::<u8>::empty() =~= res@);
    }
    res
}

/// One step of a left-to-right decode: the group at `pos` ends at `pos + w`.
proof fn lemma_decode_step(b: Seq<u8>, pos: int, w: int, max: int, done: Seq<nat>)
    requires
        0 <= pos < b.len(),
        w == group_width(b.subrange(pos, b.len() as int), max),
        w > 0,
    ensures
        pos + w <= b.len(),
        prepend_values(done, decode_groups(b.subrange(pos, b.len() as int), max))
            == prepend_values(
            done.push(group_value(b.subrange(pos, pos + w))),
            decode_groups(b.subrange(pos + w, b.len() as int), max),
        ),
{
    let sub = b.subrange(pos, b.len() as int);
    lemma_end_of_group_bounds(sub, 0, max);
    assert(sub.subrange(w, sub.len() as int) =~= b.subrange(pos + w, b.len() as int));
    assert(sub.subrange(0, w) =~= b.subrange(pos, pos + w));
    let v = group_value(b.subrange(pos, pos + w));
    match decode_groups(b.subrange(pos + w, b.len() as int), max) {
        Some(rest) => {
            assert(done + (seq![v] + rest) =~= done.push(v) + rest);
        },
        None => {},
    }
}

/// Decodes back-to-back VarInts; fails when one runs past 5 bytes. An unfinished value at
/// the end is left out.
pub fn var_int2uint(b: Vec<u8>) -> (r: Result<Vec<i32>, VarIntError>)
    ensures
        match r {
            Ok(v) => decode_varints(b@) == Some(v@),
            Err(e) => decode_varints(b@) is None && e == VarIntError::VarIntTooLong,
        },
{
    let mut res: Vec<i32> = Vec::new();
    let mut pos: usize = 0;
    let ghost mut done: Seq<nat> = seq![];
    proof {
        assert(b@.subrange(0, b.len() as int) =~= b@);
        assert(done + decode_groups(b@, 5)->0 =~= decode_groups(b@, 5)->0);
    }
    while pos < b.len()
        invariant
            pos <= b.len(),
            res@ == done.map_values(|v: nat| wrap_i32(v)),
            decode_groups(b@, 5) == prepend_values(
                done,
                decode_groups(b@.subrange(pos as int, b.len() as int), 5),
            ),
        decreases b.len() - pos,
    {
        let (w, value) = read_group(&b, pos, 5);
        if w == 0 {
            if b.len() - pos >= 5 {
                return Err(VarIntError::VarIntTooLong);
            }
            proof {
                assert(done + Seq::<nat>::empty() =~= done);
            }
            return Ok(res);
        }
        proof {
            lemma_decode_step(b@, pos as int, w as int, 5, done);
            done = done.push(value as nat);
        }
        res.push(((value % 0x1_0000_0000) as u32) as i32);
        proof {
            assert(res@ =~= done.map_values(|v: nat| wrap_i32(v)));
        }
        pos = pos + w;
    }
    proof {
        assert(b@.subrange(pos as int, b.len() as int) =~= Seq::<u8>::empty());
        assert(done + Seq::<nat>::empty() =~= done);
    }
    Ok(res)
}

/// Decodes back-to-back VarLongs; fails when one runs past 10 bytes. An unfinished value
/// at the end is left out.
pub fn var_long2uint(b: Vec<u8>) -> (r: Result<Vec<i64>, VarIntError>)
    ensures
        match r {
            Ok(v) => decode_varlongs(b@) == Some(v@),
            Err(e) => decode_varlongs(b@) is None && e == VarIntError::VarIntTooLong,
        },
{
    let mut res: Vec<i64> = Vec::new();
    let mut pos: usize = 0;
    let ghost mut done: Seq<nat> = seq![];
    proof {
        assert(b@.subrange(0, b.len() as int) =~= b@);
        assert(done + decode_groups(b@, 10)->0 =~= decode_groups(b@, 10)->0);
    }
    while pos < b.len()
        invariant
            pos <= b.len(),
            res@ == done.map_values(|v: nat| wrap_i64(v)),
            decode_groups(b@, 10) == prepend_values(
                done,
                decode_groups(b@.subrange(pos as int, b.len() as int), 10),
            ),
        decreases b.len() - pos,
    {
        let (w, value) = read_group(&b, pos, 10);
        if w == 0 {
            if b.len() - pos >= 10 {
                return Err(VarIntError::VarIntTooLong);
            }
            proof {
                assert(done + Seq::<nat>::empty() =~= done);
            }
            return Ok(res);
        }
        proof {
            lemma_decode_step(b@, pos as int, w as int, 10, done);
            done = done.push(value as nat);
        }
        res.push(((value % 0x1_0000_0000_0000_0000) as u64) as i64);
        proof {
            assert(res@ =~= done.map_values(|v: nat| wrap_i64(v)));
        }
        pos = pos + w;
    }
    proof {
        assert(b@.subrange(pos as int, b.len() as int) =~= Seq::<u8>::empty());
        assert(done + Seq::<nat>::empty() =~= done);
    }
    Ok(res)
}


/// The VarInt at the start of `s`: its width and value, when it ends within 5 bytes.
pub open spec fn varint_at(s: Seq<u8>) -> Option<(int, i32)> {
    let w = group_width(s, 5);
    if w == 0 {
        None
    } else {
        Some((w, wrap_i32(group_value(s.subrange(0, w)))))
    }
}

/// A VarInt found at the start of a stream lies within it and is 1 to 5 bytes wide.
pub proof fn lemma_varint_at_bounds(s: Seq<u8>)
    ensures
        varint_at(s) matches Some((w, _)) ==> 1 <= w <= s.len() && w <= 5,
{
    lemma_end_of_group_bounds(s, 0, 5);
}

/// Reads the VarInt that starts at `b[pos]`.
pub fn read_varint(b: &Vec<u8>, pos: usize) -> (r: Option<(usize, i32)>)
    requires
        pos <= b.len(),
    ensures
        match r {
            Some((w, v)) => varint_at(b@.subrange(pos as int, b.len() as int)) == Some(
                (w as int, v),
            ) && pos + w <= b.len(),
            None => varint_at(b@.subrange(pos as int, b.len() as int)) is None,
        },
{
    let ghost s = b@.subrange(pos as int, b.len() as int);
    let (w, value) = read_group(b, pos, 5);
    if w == 0 {
        None
    } else {
        proof {
            lemma_end_of_group_bounds(s, 0, 5);
            assert(s.subrange(0, w as int) =~= b@.subrange(pos as int, pos + w));
        }
        Some((w, ((value % 0x1_0000_0000) as u32) as i32))
    }
}

} // verus!
