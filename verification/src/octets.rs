//! Runs of octets.

use vstd::prelude::*;

verus! {

/// Copy octets to where there is room for just as many.
pub fn copy(to: &mut [u8], from: &[u8])
    requires
        old(to)@.len() == from@.len(),
    ensures
        final(to)@ == from@,
{
    let mut i: usize = 0;
    while i < from.len()
        invariant
            i <= from@.len(),
            to@.len() == from@.len(),
            to@.take(i as int) == from@.take(i as int),
        decreases from@.len() - i,
    {
        to[i] = from[i];
        i = i + 1;
    }
    assert(to@.take(i as int) =~= to@);
}

} // verus!
