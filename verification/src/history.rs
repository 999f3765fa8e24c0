//! The history buffer itself: a fixed-capacity circular store that keeps the
//! most recent values written to it, together with a lazy double-ended view
//! of its contents in chronological order.

use crate::model::model_write;
use vstd::prelude::*;
use vstd::seq_lib::lemma_multiset_commutative;

verus! {

/// A write-only circular buffer of fixed capacity.
///
/// While the buffer is still growing, each write appends; once it is full,
/// each write overwrites the oldest surviving value and hands it back to the
/// caller. A zero-capacity buffer stores nothing: every write returns its
/// value unchanged.
pub struct HistoryBuffer<T> {
    max_size: usize,
    write_index: usize,
    buffer: Vec<T>,
    last_data_at: std::time::Instant,
}

impl<T> HistoryBuffer<T> {
    /// The stored values in raw physical slot order.
    pub closed spec fn storage(self) -> Seq<T> {
        self.buffer@
    }

    /// The slot that the next write fills; while the buffer is still growing
    /// it always equals the current length.
    pub closed spec fn cursor(self) -> int {
        self.write_index as int
    }

    /// The fixed maximum number of values the buffer retains.
    pub closed spec fn capacity(self) -> nat {
        self.max_size as nat
    }

    /// The clock reading taken at the most recent write, or at construction
    /// if no write has happened yet. `clear` deliberately leaves it alone.
    pub closed spec fn timestamp(self) -> std::time::Instant {
        self.last_data_at
    }

    /// Well-formedness: the stored values never exceed the capacity, the
    /// cursor stays inside the occupied slots, and while the buffer is still
    /// growing the cursor sits exactly at the end of the occupied slots.
    pub open spec fn wf(self) -> bool {
        &&& self.storage().len() <= self.capacity()
        &&& 0 <= self.cursor() <= self.storage().len()
        &&& self.storage().len() < self.capacity() ==> self.cursor() == self.storage().len()
        &&& self.capacity() > 0 ==> self.cursor() < self.capacity()
        &&& self.capacity() == 0 ==> self.cursor() == 0
    }

    /// Create an empty buffer that will retain at most `max_size` values.
    pub fn new(max_size: usize) -> (r: HistoryBuffer<T>)
        ensures
            r.wf(),
            r@ == Seq::<T>::empty(),
            r.capacity() == max_size,
            r.cursor() == 0,
    {
        let r = HistoryBuffer {
            max_size,
            write_index: 0,
            buffer: Vec::with_capacity(max_size),
            last_data_at: std::time::Instant::now(),
        };
        proof {
            assert(r@ =~= Seq::<T>::empty());
        }
        r
    }

    /// Whether the buffer currently holds no values.
    pub fn is_empty(&self) -> (r: bool)
        requires
            self.wf(),
        ensures
            r <==> self@.len() == 0,
    {
        self.buffer.len() == 0
    }

    /// Whether the buffer has reached its capacity, so that the next write
    /// will displace the oldest value.
    pub fn is_full(&self) -> (r: bool)
        requires
            self.wf(),
        ensures
            r <==> self@.len() == self.capacity(),
    {
        self.buffer.len() == self.max_size
    }

    /// The maximum number of values the buffer can hold, fixed at
    /// construction.
    pub fn max_len(&self) -> (r: usize)
        ensures
            r == self.capacity(),
    {
        self.max_size
    }

    /// The number of values currently held.
    pub fn len(&self) -> (r: usize)
        requires
            self.wf(),
        ensures
            r == self@.len(),
    {
        self.buffer.len()
    }

    /// Empty the buffer and reset the cursor, releasing every stored value.
    /// The capacity is unchanged, and so — deliberately — is the timestamp
    /// of the last write.
    pub fn clear(&mut self)
        requires
            old(self).wf(),
        ensures
            final(self).wf(),
            final(self)@ == Seq::<T>::empty(),
            final(self).capacity() == old(self).capacity(),
            final(self).cursor() == 0,
            final(self).timestamp() == old(self).timestamp(),
    {
        self.write_index = 0;
        self.buffer.clear();
        proof {
            assert(self@ =~= Seq::<T>::empty());
        }
    }

    /// The most recently written value, or nothing if the buffer is empty.
    pub fn most_recent(&self) -> (r: Option<&T>)
        requires
            self.wf(),
        ensures
            (match r {
                Option::Some(x) => self@.len() > 0 && *x == self@.last(),
                Option::None => self@.len() == 0,
            }),
    {
        if self.buffer.len() == 0 {
            None
        } else if self.write_index == 0 {
            let i: usize = self.buffer.len() - 1;
            Some(&self.buffer[i])
        } else {
            let i: usize = self.write_index - 1;
            Some(&self.buffer[i])
        }
    }

    /// Write a value. While there is room it is appended and nothing comes
    /// back; once the buffer is full the oldest value is displaced and
    /// returned; a zero-capacity buffer returns the value itself, untouched.
    pub fn write(&mut self, val: T) -> (r: Option<T>)
        requires
            old(self).wf(),
        ensures
            final(self).wf(),
            final(self).capacity() == old(self).capacity(),
            final(self)@ == model_write(old(self).capacity(), old(self)@, val),
            old(self).capacity() == 0 ==> r == Some(val) && final(self)@ == old(self)@
                && final(self).timestamp() == old(self).timestamp(),
            old(self).capacity() > 0 && old(self)@.len() < old(self).capacity() ==> r is None,
            old(self).capacity() > 0 && old(self)@.len() == old(self).capacity() ==> r == Some(
                old(self)@.first(),
            ),
    {
        if self.max_size == 0 {
            return Some(val);
        }
        let r: Option<T> = if self.buffer.len() == self.max_size {
            let idx: usize = self.write_index;
            self.buffer.push(val);
            let displaced = self.buffer.swap_remove(idx);
            proof {
                assert(self.buffer@ =~= old(self).storage().update(idx as int, val));
            }
            Some(displaced)
        } else {
            self.buffer.push(val);
            None
        };
        self.write_index = self.write_index + 1;
        if self.write_index == self.max_size {
            self.write_index = 0;
        }
        self.last_data_at = std::time::Instant::now();
        proof {
            assert(final(self)@ =~= model_write(old(self).capacity(), old(self)@, val));
        }
        r
    }

    /// How long ago the most recent write happened, or nothing if the buffer
    /// is empty — including a buffer emptied by `clear`, whose timestamp
    /// still exists but is no longer reported.
    pub fn duration_since_last_measurement(&self) -> (r: Option<std::time::Duration>)
        requires
            self.wf(),
        ensures
            r is Some <==> self@.len() > 0,
    {
        if self.buffer.len() != 0 {
            let now = std::time::Instant::now();
            Some(now.duration_since(self.last_data_at))
        } else {
            None
        }
    }

    /// The stored values in raw physical slot order — not chronological, but
    /// the same values: a rotation of the chronological view.
    pub fn all_unsorted(&self) -> (r: &[T])
        requires
            self.wf(),
        ensures
            r@ == self.storage(),
            r@.len() == self@.len(),
            r@.to_multiset() == self@.to_multiset(),
    {
        proof {
            let s = self.storage();
            let c = self.cursor();
            s.lemma_split_at(c);
            assert(s.subrange(0, c) =~= s.take(c));
            assert(s.subrange(c, s.len() as int) =~= s.skip(c));
            lemma_multiset_commutative(s.take(c), s.skip(c));
            lemma_multiset_commutative(s.skip(c), s.take(c));
            assert(s.take(c).to_multiset().add(s.skip(c).to_multiset()) =~= s.skip(
                c,
            ).to_multiset().add(s.take(c).to_multiset()));
        }
        self.buffer.as_slice()
    }

    /// A lazy view of the contents in chronological order, oldest first,
    /// that can be consumed from either end.
    pub fn all<'a>(&'a self) -> (r: Chronological<'a, T>)
        requires
            self.wf(),
        ensures
            r.wf(),
            r.source() == self@,
            r.remaining() == self@,
    {
        let r = Chronological { buf: self, front: 0, back: self.buffer.len() };
        proof {
            assert(r.remaining() =~= self@);
        }
        r
    }
}

impl<T> View for HistoryBuffer<T> {
    type V = Seq<T>;

    /// The contents in chronological order, oldest value first: the occupied
    /// slots from the cursor to the end, followed by those before the
    /// cursor. While the buffer is still growing the first part is empty and
    /// this is simply the storage itself.
    open spec fn view(&self) -> Seq<T> {
        self.storage().skip(self.cursor()) + self.storage().take(self.cursor())
    }
}

/// A lazy, double-ended traversal of a buffer's contents in chronological
/// order. `next` yields the oldest element not yet seen, `next_back` the
/// newest; the two ends close in on each other until nothing remains.
pub struct Chronological<'a, T> {
    buf: &'a HistoryBuffer<T>,
    front: usize,
    back: usize,
}

impl<'a, T> Chronological<'a, T> {
    /// The full chronological sequence this view was created over.
    pub closed spec fn source(self) -> Seq<T> {
        self.buf@
    }

    /// The elements not yet yielded: a contiguous window of the source,
    /// shrinking from the front as `next` is called and from the back as
    /// `next_back` is called.
    pub closed spec fn remaining(self) -> Seq<T> {
        self.buf@.subrange(self.front as int, self.back as int)
    }

    /// Well-formedness: the underlying buffer is well formed and the two
    /// ends delimit a window inside its contents.
    pub closed spec fn wf(self) -> bool {
        &&& self.buf.wf()
        &&& self.front <= self.back <= self.buf@.len()
    }

    /// The oldest element not yet yielded, advancing the front of the
    /// window, or nothing once the window is empty.
    pub fn next(&mut self) -> (r: Option<&'a T>)
        requires
            old(self).wf(),
        ensures
            final(self).wf(),
            final(self).source() == old(self).source(),
            (match r {
                Option::Some(x) => old(self).remaining().len() > 0 && *x == old(
                    self,
                ).remaining().first() && final(self).remaining() == old(
                    self,
                ).remaining().drop_first(),
                Option::None => old(self).remaining().len() == 0 && final(self).remaining() == old(
                    self,
                ).remaining(),
            }),
    {
        if self.front == self.back {
            return None;
        }
        let b: &'a HistoryBuffer<T> = self.buf;
        let len: usize = b.buffer.len();
        let wi: usize = b.write_index;
        let idx: usize = if self.front < len - wi {
            wi + self.front
        } else {
            self.front - (len - wi)
        };
        proof {
            assert(b@[self.front as int] == b.storage()[idx as int]);
            assert(old(self).remaining().first() == b@[self.front as int]);
        }
        let item: &'a T = &b.buffer[idx];
        self.front = self.front + 1;
        proof {
            assert(self.remaining() =~= old(self).remaining().drop_first());
        }
        Some(item)
    }

    /// The newest element not yet yielded, retreating the back of the
    /// window, or nothing once the window is empty.
    pub fn next_back(&mut self) -> (r: Option<&'a T>)
        requires
            old(self).wf(),
        ensures
            final(self).wf(),
            final(self).source() == old(self).source(),
            (match r {
                Option::Some(x) => old(self).remaining().len() > 0 && *x == old(
                    self,
                ).remaining().last() && final(self).remaining() == old(
                    self,
                ).remaining().drop_last(),
                Option::None => old(self).remaining().len() == 0 && final(self).remaining() == old(
                    self,
                ).remaining(),
            }),
    {
        if self.front == self.back {
            return None;
        }
        let b: &'a HistoryBuffer<T> = self.buf;
        let len: usize = b.buffer.len();
        let wi: usize = b.write_index;
        let pos: usize = self.back - 1;
        let idx: usize = if pos < len - wi {
            wi + pos
        } else {
            pos - (len - wi)
        };
        proof {
            assert(b@[pos as int] == b.storage()[idx as int]);
            assert(old(self).remaining().last() == b@[pos as int]);
        }
        let item: &'a T = &b.buffer[idx];
        self.back = pos;
        proof {
            assert(self.remaining() =~= old(self).remaining().drop_last());
        }
        Some(item)
    }
}

} // verus!
