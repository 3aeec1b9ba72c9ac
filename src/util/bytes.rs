use vstd::prelude::*;
use vstd::slice::{slice_subrange, slice_to_vec};

verus! {

/// A copy of `v[lo..hi]`.
pub fn sub_vec(v: &Vec<u8>, lo: usize, hi: usize) -> (r: Vec<u8>)
    requires
        lo <= hi <= v.len(),
    ensures
        r@ == v@.subrange(lo as int, hi as int),
{
    slice_to_vec(slice_subrange(v.as_slice(), lo, hi))
}

/// Appends a copy of `v[lo..hi]` to `out`.
pub fn append_range(out: &mut Vec<u8>, v: &Vec<u8>, lo: usize, hi: usize)
    requires
        lo <= hi <= v.len(),
    ensures
        final(out)@ == old(out)@ + v@.subrange(lo as int, hi as int),
{
    let mut tail = sub_vec(v, lo, hi);
    out.append(&mut tail);
}

/// Views of each byte vector in `v`.
pub open spec fn views(v: Seq<Vec<u8>>) -> Seq<Seq<u8>> {
    v.map_values(|x: Vec<u8>| x@)
}

} // verus!
