//! A mathematical model of the buffer: how one write, and a whole sequence of
//! writes, transform the chronological contents (oldest value first).

use vstd::prelude::*;

verus! {

/// The chronological contents after one write of `v` into a buffer of
/// capacity `cap` whose chronological contents are `s`: while there is room
/// the value is appended; once full, the oldest value gives way; a
/// zero-capacity buffer ignores every write.
pub open spec fn model_write<T>(cap: nat, s: Seq<T>, v: T) -> Seq<T> {
    if cap == 0 {
        s
    } else if s.len() < cap {
        s.push(v)
    } else {
        s.drop_first().push(v)
    }
}

/// The chronological contents of a buffer of capacity `cap` after the whole
/// sequence `writes` has gone into it in order, starting from empty.
pub open spec fn model_history<T>(cap: nat, writes: Seq<T>) -> Seq<T>
    decreases writes.len(),
{
    if writes.len() == 0 {
        Seq::empty()
    } else {
        model_write(cap, model_history(cap, writes.drop_last()), writes.last())
    }
}

} // verus!
