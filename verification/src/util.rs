//! Small slice utilities shared by the lowering passes.

use vstd::prelude::*;

verus! {

/// Splits a non-empty slice into its last element and the rest.
pub fn slice_head<T>(slice: &[T]) -> (r: (&T, &[T]))
    requires
        slice@.len() > 0,
    ensures
        *r.0 == slice@[slice@.len() - 1],
        r.1@ == slice@.take(slice@.len() - 1),
{
    let n = slice.len();
    let last = vstd::slice::slice_index_get(slice, n - 1);
    let rest = vstd::slice::slice_subrange(slice, 0, n - 1);
    proof {
        assert(rest@ =~= slice@.take(slice@.len() - 1));
    }
    (last, rest)
}

} // verus!
