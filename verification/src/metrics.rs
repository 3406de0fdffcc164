//! Fixed-capacity rolling sample buffer.
//!
//! The window is generic over its samples; the program keeps its speed
//! and latency readings in one and computes their statistics.

use std::collections::VecDeque;

use vstd::prelude::*;

use crate::history::dropped_count;

verus! {

broadcast use vstd::std_specs::vecdeque::group_vec_dequeue_axioms;

/// The window after one more sample: the sample is appended, and when
/// the window was full its oldest sample leaves.
pub open spec fn window_push<T>(window: Seq<T>, sample: T, capacity: nat) -> Seq<T> {
    if window.len() >= capacity {
        window.drop_first().push(sample)
    } else {
        window.push(sample)
    }
}

/// The window after pushing `samples`, in order, into `window`.
pub open spec fn window_after<T>(window: Seq<T>, samples: Seq<T>, capacity: nat) -> Seq<T>
    decreases samples.len(),
{
    if samples.len() == 0 {
        window
    } else {
        window_push(window_after(window, samples.drop_last(), capacity), samples.last(), capacity)
    }
}

/// A rolling window of the most recent `capacity` samples.
///
/// Pushing beyond capacity evicts the oldest sample.
pub struct Sampler<T> {
    capacity: usize,
    samples: VecDeque<T>,
}

impl<T> Sampler<T> {
    #[verifier::type_invariant]
    spec fn within_capacity(self) -> bool {
        &&& 1 <= self.capacity
        &&& self.samples@.len() <= self.capacity
    }

    /// The samples held, oldest first.
    pub closed spec fn window(self) -> Seq<T> {
        self.samples@
    }

    /// The most samples the window holds.
    pub closed spec fn limit(self) -> nat {
        self.capacity as nat
    }
}

impl<T: Copy> Sampler<T> {
    /// Creates a sampler holding at most `capacity` samples (a capacity of
    /// zero is bumped to one).
    pub fn new(capacity: usize) -> (r: Sampler<T>)
        ensures
            r.window() == Seq::<T>::empty(),
            r.limit() == if capacity == 0 {
                1
            } else {
                capacity as nat
            },
    {
        let capacity = if capacity == 0 {
            1
        } else {
            capacity
        };
        Sampler { capacity, samples: VecDeque::with_capacity(capacity) }
    }

    /// Records a sample, evicting the oldest one when full.
    pub fn push(&mut self, sample: T)
        ensures
            final(self).window() == window_push(old(self).window(), sample, old(self).limit()),
            final(self).limit() == old(self).limit(),
    {
        proof {
            use_type_invariant(&*self);
        }
        let mut samples: VecDeque<T> = VecDeque::new();
        std::mem::swap(&mut samples, &mut self.samples);
        if samples.len() == self.capacity {
            let _ = samples.pop_front();
        }
        samples.push_back(sample);
        self.samples = samples;
    }

    /// The samples from oldest to newest.
    pub fn to_vec(&self) -> (r: Vec<T>)
        ensures
            r@ == self.window(),
    {
        let mut r: Vec<T> = Vec::new();
        let mut i: usize = 0;
        while i < self.samples.len()
            invariant
                i <= self.samples@.len(),
                r@ == self.samples@.take(i as int),
            decreases self.samples@.len() - i,
        {
            r.push(self.samples[i]);
            assert(r@ =~= self.samples@.take(i + 1));
            i += 1;
        }
        assert(self.samples@.take(i as int) =~= self.samples@);
        r
    }

    /// The most recently pushed sample.
    pub fn latest(&self) -> (r: Option<T>)
        ensures
            r == if self.window().len() > 0 {
                Some(self.window().last())
            } else {
                None::<T>
            },
    {
        let n = self.samples.len();
        if n == 0 {
            None
        } else {
            Some(self.samples[n - 1])
        }
    }

    /// Number of samples currently held.
    pub fn len(&self) -> (r: usize)
        ensures
            r == self.window().len(),
    {
        self.samples.len()
    }

    /// Whether the window is empty.
    pub fn is_empty(&self) -> (r: bool)
        ensures
            r == (self.window().len() == 0),
    {
        self.samples.len() == 0
    }

    /// Removes all samples.
    pub fn clear(&mut self)
        ensures
            final(self).window() == Seq::<T>::empty(),
            final(self).limit() == old(self).limit(),
    {
        proof {
            use_type_invariant(&*self);
        }
        let mut samples: VecDeque<T> = VecDeque::new();
        std::mem::swap(&mut samples, &mut self.samples);
        samples.clear();
        self.samples = samples;
    }
}

/// Pushing samples into an empty window leaves exactly the last
/// `capacity` of them (all of them when there are fewer), oldest first.
pub proof fn law_window_keeps_newest<T>(samples: Seq<T>, capacity: nat)
    requires
        capacity >= 1,
    ensures
        window_after(Seq::<T>::empty(), samples, capacity) == samples.skip(
            dropped_count(samples.len(), capacity) as int,
        ),
    decreases samples.len(),
{
    if samples.len() == 0 {
        assert(samples.skip(0) =~= samples);
    } else {
        let prev = samples.drop_last();
        law_window_keeps_newest(prev, capacity);
        let w = prev.skip(dropped_count(prev.len(), capacity) as int);
        if w.len() >= capacity {
            assert(w.drop_first().push(samples.last()) =~= samples.skip(
                dropped_count(samples.len(), capacity) as int,
            ));
        } else {
            assert(w.push(samples.last()) =~= samples.skip(
                dropped_count(samples.len(), capacity) as int,
            ));
        }
    }
}

} // verus!
