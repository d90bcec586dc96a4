use crate::value::Value;
use vstd::prelude::*;
use vstd::utf8::encode_utf8;

verus! {

/// The Source engine query protocol (A2S).
#[derive(Debug)]
pub struct A2SProtocol {}

/// The A2S info request: four `4` bytes, `TSource Engine Query`, and a zero byte.
pub open spec fn spec_a2s_request() -> Seq<u8> {
    seq![4u8, 4u8, 4u8, 4u8] + encode_utf8("TSource Engine Query"@) + seq![0u8]
}

impl A2SProtocol {
    /// The info request; it does not depend on `state`.
    pub fn make_request(&self, state: Option<Value>) -> (r: Vec<u8>)
        ensures
            r@ == spec_a2s_request(),
    {
        let mut out: Vec<u8> = Vec::new();
        out.push(4);
        out.push(4);
        out.push(4);
        out.push(4);
        let text = "TSource Engine Query".as_bytes();
        let mut i: usize = 0;
        while i < text.len()
            invariant
                0 <= i <= text@.len(),
                text@ == encode_utf8("TSource Engine Query"@),
                out@ == seq![4u8, 4u8, 4u8, 4u8] + text@.take(i as int),
            decreases text.len() - i,
        {
            out.push(text[i]);
            assert(text@.take(i + 1) =~= text@.take(i as int).push(text@[i as int]));
            i = i + 1;
        }
        out.push(0);
        assert(text@.take(text@.len() as int) =~= text@);
        out
    }
}

} // verus!
