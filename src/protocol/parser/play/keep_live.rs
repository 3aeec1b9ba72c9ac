use vstd::prelude::*;

verus! {

/// The keep-alive id: the whole body, kept as bytes so that it is echoed verbatim.
pub fn parse(pkt: Vec<u8>) -> (r: Vec<u8>)
    ensures
        r@ == pkt@,
{
    pkt
}

} // verus!
