//! Small byte-slice helpers shared by the reply summaries.

use vstd::prelude::*;

verus! {

/// The first `n` bytes of `data`.
pub(crate) fn copy_prefix(data: &[u8], n: usize) -> (r: Vec<u8>)
    requires
        n <= data@.len(),
    ensures
        r@ == data@.take(n as int),
{
    let mut r: Vec<u8> = Vec::new();
    let mut i: usize = 0;
    while i < n
        invariant
            i <= n <= data@.len(),
            r@ == data@.take(i as int),
        decreases n - i,
    {
        r.push(data[i]);
        i = i + 1;
        assert(r@ =~= data@.take(i as int));
    }
    r
}

} // verus!
