//! Small helpers on sequences and vectors of identifiers.
//!
//! Reference lists (files still depending on a chunk, files already processed
//! for an item) are kept as vectors of `u64` ids; these helpers give the
//! executable operations exact sequence-level contracts.

use vstd::prelude::*;

verus! {

/// The sequence `s` with every occurrence of `v` removed, order preserved.
pub open spec fn remove_all(s: Seq<u64>, v: u64) -> Seq<u64>
    decreases s.len(),
{
    if s.len() == 0 {
        Seq::empty()
    } else if s.last() == v {
        remove_all(s.drop_last(), v)
    } else {
        remove_all(s.drop_last(), v).push(s.last())
    }
}

/// Whether `v` holds `x`.
pub fn vec_contains(v: &Vec<u64>, x: u64) -> (r: bool)
    ensures
        r == v@.contains(x),
{
    let mut i: usize = 0;
    while i < v.len()
        invariant
            0 <= i <= v@.len(),
            forall|j: int| 0 <= j < i ==> v@[j] != x,
        decreases v@.len() - i,
    {
        if v[i] == x {
            return true;
        }
        i = i + 1;
    }
    false
}

/// A copy of `v` with every occurrence of `x` removed, order preserved.
pub fn vec_remove_all(v: &Vec<u64>, x: u64) -> (r: Vec<u64>)
    ensures
        r@ == remove_all(v@, x),
{
    let mut out: Vec<u64> = Vec::new();
    let mut i: usize = 0;
    while i < v.len()
        invariant
            0 <= i <= v@.len(),
            out@ == remove_all(v@.take(i as int), x),
        decreases v@.len() - i,
    {
        let e = v[i];
        proof {
            assert(v@.take(i + 1).drop_last() =~= v@.take(i as int));
            assert(v@.take(i + 1).last() == v@[i as int]);
        }
        if e != x {
            out.push(e);
        }
        i = i + 1;
    }
    proof {
        assert(v@.take(v@.len() as int) =~= v@);
    }
    out
}

} // verus!
