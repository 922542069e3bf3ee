//! The bounded, insertion-ordered history of accepted price samples.

use vstd::prelude::*;

verus! {

/// Default number of samples the window retains.
pub const DEFAULT_CAPACITY: usize = 10;

/// What one insertion does to the window contents: append the new sample,
/// evicting the oldest (index 0) first when the window is already full.
pub open spec fn evict_push(s: Seq<u64>, capacity: nat, sample: u64) -> Seq<u64> {
    if s.len() < capacity {
        s.push(sample)
    } else {
        s.subrange(1, s.len() as int).push(sample)
    }
}

/// The window contents after inserting `values` in order, starting empty.
pub open spec fn window_after(capacity: nat, values: Seq<u64>) -> Seq<u64>
    decreases values.len(),
{
    if values.len() == 0 {
        Seq::empty()
    } else {
        evict_push(window_after(capacity, values.drop_last()), capacity, values.last())
    }
}

/// The window after a run of insertions holds exactly the most recent
/// samples: all of them while they fit, and otherwise the last
/// `capacity` of them, in arrival order.
pub proof fn lemma_window_after_is_suffix(capacity: nat, values: Seq<u64>)
    requires
        capacity >= 1,
    ensures
        values.len() <= capacity ==> window_after(capacity, values) == values,
        values.len() > capacity ==> window_after(capacity, values) == values.subrange(
            values.len() - capacity,
            values.len() as int,
        ),
    decreases values.len(),
{
    if values.len() == 0 {
        assert(window_after(capacity, values) =~= values);
    } else {
        let prev = values.drop_last();
        lemma_window_after_is_suffix(capacity, prev);
        let w = window_after(capacity, prev);
        if values.len() <= capacity {
            assert(w =~= prev);
            assert(window_after(capacity, values) =~= values);
        } else if values.len() == capacity + 1 {
            assert(w =~= prev);
            assert(window_after(capacity, values) =~= values.subrange(1, values.len() as int));
        } else {
            assert(w =~= prev.subrange(prev.len() - capacity, prev.len() as int));
            assert(window_after(capacity, values) =~= values.subrange(
                values.len() - capacity,
                values.len() as int,
            ));
        }
    }
}

/// Law (window bound): after any sequence of insertions into an
/// initially empty window, the length never exceeds the capacity, and
/// equals the smaller of the capacity and the number of insertions.
pub proof fn lemma_window_bound(capacity: nat, values: Seq<u64>)
    requires
        capacity >= 1,
    ensures
        window_after(capacity, values).len() <= capacity,
        window_after(capacity, values).len() == if values.len() <= capacity {
            values.len() as int
        } else {
            capacity as int
        },
{
    lemma_window_after_is_suffix(capacity, values);
}

/// Law (FIFO eviction): inserting `capacity + 1` values into an
/// initially empty window leaves exactly the values after the first one,
/// in arrival order.
pub proof fn lemma_fifo_eviction(capacity: nat, values: Seq<u64>)
    requires
        capacity >= 1,
        values.len() == capacity + 1,
    ensures
        window_after(capacity, values) == values.subrange(1, values.len() as int),
{
    lemma_window_after_is_suffix(capacity, values);
}

/// A fixed-capacity FIFO queue of the last `capacity` accepted prices,
/// oldest first. The capacity is set once at construction and never
/// changes afterwards.
pub struct SampleWindow {
    samples: Vec<u64>,
    capacity: usize,
}

impl SampleWindow {
    /// The ordered contents, oldest sample first.
    pub closed spec fn view(&self) -> Seq<u64> {
        self.samples@
    }

    pub closed spec fn spec_capacity(&self) -> nat {
        self.capacity as nat
    }

    /// Invariant: the window never holds more than `capacity` samples,
    /// and the capacity is positive.
    pub open spec fn wf(&self) -> bool {
        &&& self@.len() <= self.spec_capacity()
        &&& self.spec_capacity() >= 1
    }

    /// An empty window that will retain at most `capacity` samples.
    pub fn new(capacity: usize) -> (w: SampleWindow)
        requires
            capacity >= 1,
        ensures
            w.wf(),
            w@ == Seq::<u64>::empty(),
            w.spec_capacity() == capacity,
    {
        SampleWindow { samples: Vec::new(), capacity }
    }

    /// An empty window with the default capacity.
    pub fn with_default_capacity() -> (w: SampleWindow)
        ensures
            w.wf(),
            w@ == Seq::<u64>::empty(),
            w.spec_capacity() == DEFAULT_CAPACITY,
    {
        SampleWindow::new(DEFAULT_CAPACITY)
    }

    /// Rebuilds a window by inserting the given samples in order into an
    /// empty window of the given capacity, applying the usual eviction:
    /// the result holds the most recent `capacity` of them.
    pub fn from_samples(samples: &Vec<u64>, capacity: usize) -> (w: SampleWindow)
        requires
            capacity >= 1,
        ensures
            w.wf(),
            w@ == window_after(capacity as nat, samples@),
            w.spec_capacity() == capacity,
    {
        let mut w = SampleWindow::new(capacity);
        let mut i: usize = 0;
        while i < samples.len()
            invariant
                i <= samples@.len(),
                w.wf(),
                w.spec_capacity() == capacity,
                capacity >= 1,
                w@ == window_after(capacity as nat, samples@.subrange(0, i as int)),
            decreases samples@.len() - i,
        {
            w.insert(samples[i]);
            proof {
                assert(samples@.subrange(0, i + 1).drop_last() =~= samples@.subrange(0, i as int));
                assert(samples@.subrange(0, i + 1).last() == samples@[i as int]);
            }
            i += 1;
        }
        proof {
            assert(samples@.subrange(0, samples@.len() as int) =~= samples@);
        }
        w
    }

    pub fn len(&self) -> (n: usize)
        ensures
            n == self@.len(),
    {
        self.samples.len()
    }

    pub fn capacity(&self) -> (n: usize)
        ensures
            n == self.spec_capacity(),
    {
        self.capacity
    }

    /// Appends `sample`; when the window is already full, the oldest
    /// sample (index 0) is removed first, so one insertion evicts at most
    /// one sample and the length never exceeds the capacity.
    pub fn insert(&mut self, sample: u64)
        requires
            old(self).wf(),
        ensures
            final(self).wf(),
            final(self)@ == evict_push(old(self)@, old(self).spec_capacity(), sample),
            final(self).spec_capacity() == old(self).spec_capacity(),
            final(self)@.len() <= final(self).spec_capacity(),
            final(self)@.last() == sample,
    {
        if self.samples.len() == self.capacity {
            self.samples.remove(0);
            assert(self.samples@ == old(self)@.subrange(1, old(self)@.len() as int));
        }
        self.samples.push(sample);
    }

    /// Read-only access to the ordered contents; the persisted sequence
    /// cannot be mutated through the returned reference.
    pub fn snapshot(&self) -> (s: &Vec<u64>)
        ensures
            s@ == self@,
    {
        &self.samples
    }
}

} // verus!
