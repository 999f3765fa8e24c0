//! The general laws of the buffer, stated over the mathematical model of a
//! whole sequence of writes and over the chronological view, and proved once
//! for every capacity, every element type and every sequence of writes.

use crate::history::HistoryBuffer;
use crate::model::model_history;
use crate::model::model_write;
use vstd::prelude::*;

verus! {

/// While no more values have been written than the capacity admits, the
/// buffer retains every write, in write order: its length equals the number
/// of writes and nothing has been displaced.
pub proof fn lemma_history_within_capacity<T>(cap: nat, writes: Seq<T>)
    requires
        writes.len() <= cap,
    ensures
        model_history(cap, writes) == writes,
    decreases writes.len(),
{
    if writes.len() == 0 {
        assert(model_history(cap, writes) =~= writes);
    } else {
        lemma_history_within_capacity(cap, writes.drop_last());
        assert(model_history(cap, writes) =~= writes);
    }
}

/// Once at least as many values have been written as the capacity admits,
/// the buffer retains exactly the last `cap` writes, oldest first.
pub proof fn lemma_history_over_capacity<T>(cap: nat, writes: Seq<T>)
    requires
        writes.len() >= cap,
    ensures
        model_history(cap, writes) == writes.skip(writes.len() - cap),
    decreases writes.len(),
{
    if writes.len() == cap {
        lemma_history_within_capacity(cap, writes);
        assert(model_history(cap, writes) =~= writes.skip(writes.len() - cap));
    } else {
        lemma_history_over_capacity(cap, writes.drop_last());
        assert(model_history(cap, writes) =~= writes.skip(writes.len() - cap));
    }
}

/// The number of retained values is the number of writes, capped at the
/// capacity; for a buffer of positive capacity, fullness is reached exactly
/// at the capacity-th write and never leaves.
pub proof fn lemma_history_length<T>(cap: nat, writes: Seq<T>)
    ensures
        model_history(cap, writes).len() == if writes.len() <= cap {
            writes.len()
        } else {
            cap
        },
        cap > 0 ==> (model_history(cap, writes).len() == cap <==> writes.len() >= cap),
{
    if writes.len() <= cap {
        lemma_history_within_capacity(cap, writes);
    } else {
        lemma_history_over_capacity(cap, writes);
    }
}

/// Displacement is first-in, first-out: for a buffer of positive capacity,
/// the write at zero-based position `n` (with `n >= cap`, so the buffer is
/// already full) displaces exactly the value written `cap` writes earlier —
/// the oldest value still retained at that moment.
pub proof fn lemma_displaced_in_order<T>(cap: nat, writes: Seq<T>, n: int)
    requires
        0 < cap,
        cap <= n < writes.len(),
    ensures
        model_history(cap, writes.take(n)).len() == cap,
        model_history(cap, writes.take(n)).first() == writes[n - cap],
{
    lemma_history_over_capacity(cap, writes.take(n));
    assert(writes.take(n).skip(n - cap)[0] == writes[n - cap]);
}

/// The most recent value is always the last write: after at least one write
/// into a buffer of positive capacity, the newest retained value equals the
/// final element of the write sequence, regardless of wraparound.
pub proof fn lemma_most_recent_is_last_write<T>(cap: nat, writes: Seq<T>)
    requires
        0 < cap,
        writes.len() > 0,
    ensures
        model_history(cap, writes).len() > 0,
        model_history(cap, writes).last() == writes.last(),
{
    let h = model_history(cap, writes.drop_last());
    assert(model_history(cap, writes) == model_write(cap, h, writes.last()));
}

/// Double-ended consistency: reading the chronological view backwards gives
/// the forward reading reversed element for element — the value at position
/// `k` of the reversed view is the value at position `len - 1 - k` of the
/// view itself.
pub proof fn lemma_double_ended_agree<T>(buf: HistoryBuffer<T>, k: int)
    requires
        buf.wf(),
        0 <= k < buf@.len(),
    ensures
        buf@.reverse()[k] == buf@[buf@.len() - 1 - k],
{
}

/// A write into a cleared buffer behaves as on a freshly constructed one of
/// the same positive capacity: the contents become exactly that one value.
pub proof fn lemma_write_after_clear<T>(cap: nat, v: T)
    requires
        0 < cap,
    ensures
        model_write(cap, Seq::<T>::empty(), v) == seq![v],
{
    assert(model_write(cap, Seq::<T>::empty(), v) =~= seq![v]);
}

} // verus!
