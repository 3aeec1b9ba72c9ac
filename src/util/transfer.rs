use crate::util::transfer_var::{decode_groups, push_varint, var_int2uint as decode_signed, varint_bytes, wrap_i32};
use vstd::prelude::*;

verus! {

/// Concatenated VarInt encodings of unsigned values.
pub open spec fn encode_unsigned(vs: Seq<u32>) -> Seq<u8>
    decreases vs.len(),
{
    if vs.len() == 0 {
        seq![]
    } else {
        varint_bytes(vs[0] as nat) + encode_unsigned(vs.drop_first())
    }
}

/// The low 32 bits of `v`.
pub open spec fn wrap_u32(v: nat) -> u32 {
    (v % 0x1_0000_0000) as u32
}

/// Encodes each unsigned value as a VarInt, in order.
pub fn uint2var_int(n: Vec<u32>) -> (r: Vec<u8>)
    ensures
        r@ == encode_unsigned(n@),
{
    let mut res: Vec<u8> = Vec::new();
    let mut i: usize = 0;
    proof {
        assert(n@.subrange(0, n.len() as int) =~= n@);
        assert(res@ + encode_unsigned(n@) =~= encode_unsigned(n@));
    }
    while i < n.len()
        invariant
            i <= n.len(),
            res@ + encode_unsigned(n@.subrange(i as int, n.len() as int)) == encode_unsigned(n@),
        decreases n.len() - i,
    {
        let ghost sub = n@.subrange(i as int, n.len() as int);
        let ghost before = res@;
        proof {
            assert(sub.drop_first() =~= n@.subrange(i + 1, n.len() as int));
            assert(sub[0] == n[i as int]);
        }
        push_varint(&mut res, n[i] as u64);
        proof {
            let a = varint_bytes(n[i as int] as nat);
            let t = encode_unsigned(n@.subrange(i + 1, n.len() as int));
            assert(before + (a + t) =~= (before + a) + t);
        }
        i = i + 1;
    }
    proof {
        assert(n@.subrange(i as int, n.len() as int) =~= Seq::<u32>::empty());
        assert(res@ + Seq::<u8>::empty() =~= res@);
    }
    res
}

/// Decodes back-to-back VarInts as unsigned values. No value may run past 5 bytes; an
/// unfinished value at the end is left out.
pub fn var_int2uint(b: Vec<u8>) -> (r: Vec<u32>)
    requires
        decode_groups(b@, 5) is Some,
    ensures
        r@ == decode_groups(b@, 5)->0.map_values(|v: nat| wrap_u32(v)),
{
    let ghost g = decode_groups(b@, 5)->0;
    let signed = match decode_signed(b) {
        Ok(v) => v,
        Err(_) => Vec::new(),
    };
    let mut res: Vec<u32> = Vec::new();
    let mut i: usize = 0;
    while i < signed.len()
        invariant
            signed@ == g.map_values(|v: nat| wrap_i32(v)),
            i <= signed.len(),
            res@ =~= g.subrange(0, i as int).map_values(|v: nat| wrap_u32(v)),
        decreases signed.len() - i,
    {
        let x = signed[i];
        let y: u32 = #[verifier::truncate] (x as u32);
        proof {
            let u = wrap_u32(g[i as int]);
            assert(x == u as i32);
            assert((u as i32) as u32 == u) by (bit_vector);
        }
        res.push(y);
        i = i + 1;
    }
    proof {
        assert(g.subrange(0, g.len() as int) =~= g);
    }
    res
}

} // verus!
