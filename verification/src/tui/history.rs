//! A bounded rolling window of samples: the most recent readings of one
//! signal of one monitored entity.

use vstd::prelude::*;

verus! {

/// The last `capacity` items of `items`, in their order; all of them where
/// there are no more than `capacity`.
pub open spec fn newest<T>(items: Seq<T>, capacity: nat) -> Seq<T> {
    if items.len() <= capacity {
        items
    } else {
        items.subrange(items.len() - capacity, items.len() as int)
    }
}

/// What a window of `capacity` samples holds after every value of `values`
/// was pushed into it, one after the other, starting from `window`.
pub open spec fn pushed_all<T>(window: Seq<T>, capacity: nat, values: Seq<T>) -> Seq<T>
    decreases values.len(),
{
    if values.len() == 0 {
        window
    } else {
        newest(pushed_all(window, capacity, values.drop_last()).push(values.last()), capacity)
    }
}

/// A window over the most recent samples of one signal. It never holds
/// more than its capacity, which is fixed when it is made; the oldest
/// sample leaves when a new one would not fit.
pub struct HistoryBuffer<T> {
    capacity: usize,
    samples: Vec<T>,
}

impl<T> View for HistoryBuffer<T> {
    type V = Seq<T>;

    /// The samples in the window, oldest first.
    closed spec fn view(&self) -> Seq<T> {
        self.samples@
    }
}

impl<T> HistoryBuffer<T> {
    #[verifier::type_invariant]
    spec fn within_capacity(&self) -> bool {
        self.samples@.len() <= self.capacity
    }

    /// The number of samples the window can hold.
    pub closed spec fn spec_capacity(&self) -> nat {
        self.capacity as nat
    }
}

impl<T: Copy> HistoryBuffer<T> {
    /// An empty window for `capacity` samples.
    pub fn new(capacity: usize) -> (buffer: Self)
        ensures
            buffer@ == Seq::<T>::empty(),
            buffer.spec_capacity() == capacity,
    {
        HistoryBuffer { capacity, samples: Vec::new() }
    }

    /// The number of samples the window can hold.
    pub fn capacity(&self) -> (capacity: usize)
        ensures
            capacity == self.spec_capacity(),
    {
        self.capacity
    }

    /// The number of samples in the window.
    pub fn len(&self) -> (len: usize)
        ensures
            len == self@.len(),
            len <= self.spec_capacity(),
    {
        proof {
            use_type_invariant(self);
        }
        self.samples.len()
    }

    /// Adds `value` as the newest sample. Where the window is full the
    /// oldest sample leaves first; a window of capacity 0 stays empty.
    pub fn push(&mut self, value: T)
        ensures
            final(self)@ == newest(old(self)@.push(value), old(self).spec_capacity()),
            final(self).spec_capacity() == old(self).spec_capacity(),
    {
        proof {
            use_type_invariant(&*self);
        }
        if self.capacity == 0 {
            return ;
        }
        let len: usize = self.samples.len();
        let start: usize = if len == self.capacity {
            1
        } else {
            0
        };
        let mut samples: Vec<T> = Vec::new();
        let mut i: usize = start;
        while i < len
            invariant
                start <= i <= len,
                len == self.samples@.len(),
                samples@ == self.samples@.subrange(start as int, i as int),
            decreases len - i,
        {
            samples.push(self.samples[i]);
            i += 1;
        }
        samples.push(value);
        self.samples = samples;
    }

    /// A copy of the samples, oldest first.
    pub fn snapshot(&self) -> (samples: Vec<T>)
        ensures
            samples@ == self@,
    {
        let mut samples: Vec<T> = Vec::new();
        let mut i: usize = 0;
        while i < self.samples.len()
            invariant
                i <= self.samples@.len(),
                samples@ == self.samples@.subrange(0, i as int),
            decreases self.samples@.len() - i,
        {
            samples.push(self.samples[i]);
            i += 1;
        }
        samples
    }
}

/// A window never grows beyond its capacity: after any run of pushes into
/// an empty window it holds the last `capacity` values that were pushed, in
/// the order in which they came, and so `min(capacity, pushes)` of them.
pub proof fn lemma_pushes_keep_newest<T>(capacity: nat, values: Seq<T>)
    ensures
        pushed_all(Seq::empty(), capacity, values) == newest(values, capacity),
        pushed_all(Seq::empty(), capacity, values).len() == if values.len() <= capacity {
            values.len()
        } else {
            capacity
        },
    decreases values.len(),
{
    if values.len() > 0 {
        lemma_pushes_keep_newest(capacity, values.drop_last());
        let before = newest(values.drop_last(), capacity);
        assert(newest(before.push(values.last()), capacity) =~= newest(values, capacity));
    }
}

} // verus!
