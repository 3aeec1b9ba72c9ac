//! Parsers of the packets that the server sends. Each returns `None` on a body that is cut
//! short or otherwise does not fit its layout.

pub mod login;
pub mod mapper;
pub mod play;

use crate::util::bytes::sub_vec;
use crate::util::transfer_var::{read_varint, varint_at};
use vstd::prelude::*;
use vstd::utf8::{decode_utf8, valid_utf8};

verus! {

/// Bytes read as chars one for one (Latin-1).
pub open spec fn latin1(s: Seq<u8>) -> Seq<char> {
    s.map_values(|b: u8| b as char)
}

/// The text that `s` encodes, when it is valid UTF-8.
pub open spec fn utf8_text(s: Seq<u8>) -> Option<Seq<char>> {
    if valid_utf8(s) {
        Some(decode_utf8(s))
    } else {
        None
    }
}

/// Relies on std's `String::push`: the string grows by exactly `c`.
#[verifier::external_body]
fn push_char(s: &mut String, c: char)
    ensures
        final(s)@ == old(s)@.push(c),
{
    s.push(c)
}

/// Relies on std's `String::from_utf8`: it accepts exactly the valid UTF-8 byte strings,
/// and the string then holds the chars that they encode.
#[verifier::external_body]
fn string_from_utf8(v: Vec<u8>) -> (r: Option<String>)
    ensures
        match r {
            Some(s) => valid_utf8(v@) && s@ == decode_utf8(v@),
            None => !valid_utf8(v@),
        },
{
    match String::from_utf8(v) {
        Ok(s) => Some(s),
        Err(_) => None,
    }
}

/// `b[lo..hi]` read as Latin-1 text.
pub fn latin1_string(b: &Vec<u8>, lo: usize, hi: usize) -> (r: String)
    requires
        lo <= hi <= b.len(),
    ensures
        r@ == latin1(b@.subrange(lo as int, hi as int)),
{
    let mut s = String::new();
    let mut i = lo;
    while i < hi
        invariant
            lo <= i <= hi <= b.len(),
            s@ =~= latin1(b@.subrange(lo as int, i as int)),
        decreases hi - i,
    {
        push_char(&mut s, b[i] as char);
        i = i + 1;
        proof {
            assert(b@.subrange(lo as int, i as int) =~= b@.subrange(lo as int, i - 1).push(
                b@[i - 1],
            ));
        }
    }
    s
}

/// `b[lo..hi]` read as UTF-8 text; `None` when it is not valid UTF-8.
pub fn utf8_string(b: &Vec<u8>, lo: usize, hi: usize) -> (r: Option<String>)
    requires
        lo <= hi <= b.len(),
    ensures
        match r {
            Some(s) => utf8_text(b@.subrange(lo as int, hi as int)) == Some(s@),
            None => utf8_text(b@.subrange(lo as int, hi as int)) is None,
        },
{
    string_from_utf8(sub_vec(b, lo, hi))
}

/// `256` raised to the power `n`.
pub open spec fn pow256(n: nat) -> nat
    decreases n,
{
    if n == 0 {
        1
    } else {
        256 * pow256((n - 1) as nat)
    }
}

/// The number whose big-endian bytes are `s`.
pub open spec fn be_nat(s: Seq<u8>) -> nat
    decreases s.len(),
{
    if s.len() == 0 {
        0
    } else {
        be_nat(s.drop_last()) * 256 + s.last() as nat
    }
}

/// The number whose little-endian bytes are `s`.
pub open spec fn le_nat(s: Seq<u8>) -> nat
    decreases s.len(),
{
    if s.len() == 0 {
        0
    } else {
        s[0] as nat + 256 * le_nat(s.drop_first())
    }
}

proof fn lemma_pow256_step(k: nat)
    requires
        k < 8,
    ensures
        pow256(k) * 256 <= pow256(8),
        pow256(8) == 0x1_0000_0000_0000_0000,
    decreases 8 - k,
{
    reveal_with_fuel(pow256, 9);
    if k < 7 {
        lemma_pow256_step(k + 1);
    }
}

/// Reads `b[lo..lo + n]` as a big-endian number.
pub fn read_be(b: &Vec<u8>, lo: usize, n: usize) -> (r: u64)
    requires
        n <= 8,
        lo + n <= b.len(),
    ensures
        r as nat == be_nat(b@.subrange(lo as int, lo + n)),
        (r as nat) < pow256(n as nat),
{
    let mut acc: u64 = 0;
    let mut i: usize = 0;
    proof {
        assert(b@.subrange(lo as int, lo as int) =~= Seq::<u8>::empty());
    }
    while i < n
        invariant
            n <= 8,
            lo + n <= b.len(),
            i <= n,
            acc as nat == be_nat(b@.subrange(lo as int, lo + i)),
            (acc as nat) < pow256(i as nat),
        decreases n - i,
    {
        proof {
            lemma_pow256_step(i as nat);
            let s = b@.subrange(lo as int, lo + i + 1);
            assert(s.drop_last() =~= b@.subrange(lo as int, lo + i));
        }
        acc = acc * 256 + b[lo + i] as u64;
        i = i + 1;
    }
    acc
}

/// Reads `b[lo..lo + n]` as a little-endian number.
pub fn read_le(b: &Vec<u8>, lo: usize, n: usize) -> (r: u64)
    requires
        n <= 8,
        lo + n <= b.len(),
    ensures
        r as nat == le_nat(b@.subrange(lo as int, lo + n)),
        (r as nat) < pow256(n as nat),
{
    let mut acc: u64 = 0;
    let mut i: usize = n;
    proof {
        assert(b@.subrange(lo + n, lo + n) =~= Seq::<u8>::empty());
    }
    while i > 0
        invariant
            n <= 8,
            lo + n <= b.len(),
            i <= n,
            acc as nat == le_nat(b@.subrange(lo + i, lo + n)),
            (acc as nat) < pow256((n - i) as nat),
        decreases i,
    {
        proof {
            lemma_pow256_step((n - i) as nat);
            let s = b@.subrange(lo + i - 1, lo + n);
            assert(s.drop_first() =~= b@.subrange(lo + i, lo + n));
            assert(pow256((n - i + 1) as nat) == 256 * pow256((n - i) as nat));
        }
        acc = b[lo + i - 1] as u64 + 256 * acc;
        i = i - 1;
    }
    acc
}


/// `pow256(4)` is `2^32`.
pub proof fn lemma_pow256_four()
    ensures
        pow256(4) == 0x1_0000_0000,
{
    reveal_with_fuel(pow256, 5);
}

/// A protocol string at the start of `s`: a VarInt length, then that many bytes of UTF-8
/// text. Gives the text and the bytes used.
pub open spec fn string_at(s: Seq<u8>) -> Option<(Seq<char>, int)> {
    match varint_at(s) {
        None => None,
        Some((w, n)) => if n < 0 || s.len() < w + n {
            None
        } else {
            match utf8_text(s.subrange(w, w + n)) {
                Some(t) => Some((t, w + n)),
                None => None,
            }
        },
    }
}

/// Reads the protocol string at `b[pos..]`; see [`string_at`].
pub fn read_string(b: &Vec<u8>, pos: usize) -> (r: Option<(String, usize)>)
    requires
        pos <= b.len(),
    ensures
        match r {
            Some((t, used)) => string_at(b@.subrange(pos as int, b.len() as int)) == Some(
                (t@, used as int),
            ) && pos + used <= b.len(),
            None => string_at(b@.subrange(pos as int, b.len() as int)) is None,
        },
{
    let ghost s = b@.subrange(pos as int, b.len() as int);
    let (w, n) = match read_varint(b, pos) {
        Some(x) => x,
        None => {
            return None;
        },
    };
    if n < 0 || b.len() - pos - w < n as usize {
        return None;
    }
    let n = n as usize;
    proof {
        assert(s.subrange(w as int, w + n) =~= b@.subrange(pos + w, pos + w + n));
    }
    match utf8_string(b, pos + w, pos + w + n) {
        Some(t) => Some((t, w + n)),
        None => None,
    }
}

} // verus!
