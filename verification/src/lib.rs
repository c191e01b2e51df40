use vstd::prelude::*;

pub mod block;
pub mod blockchain;
pub mod digest;
pub mod encoding;

verus! {

/// The number of leading `'0'` characters a solved hash must carry.
pub open spec fn leading_zeros_ok(h: Seq<char>, d: int) -> bool {
    &&& d <= h.len()
    &&& forall|i: int| 0 <= i < d ==> h[i] == '0'
}

} // verus!

pub use block::Block;
pub use blockchain::Blockchain;

