//! Dispatch over the batch axis.
//!
//! The sheaf Laplacian never mixes batch elements, so work is handed out per batch
//! element and collected in batch order.
use vstd::prelude::*;

verus! {

/// Maps `f` over batch indices `0..b`, collecting the results in batch order.
pub fn map_batches<T, F: Fn(usize) -> T>(b: usize, f: F) -> (r: Vec<T>)
    requires
        forall|i: usize| i < b ==> f.requires((i,)),
    ensures
        r@.len() == b,
        forall|i: usize| i < b ==> f.ensures((i,), #[trigger] r@[i as int]),
{
    let mut out: Vec<T> = Vec::new();
    for i in 0..b
        invariant
            forall|i: usize| i < b ==> f.requires((i,)),
            out@.len() == i,
            forall|j: usize| j < i ==> f.ensures((j,), #[trigger] out@[j as int]),
    {
        out.push(f(i));
    }
    out
}

} // verus!
