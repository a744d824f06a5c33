//! A rolling window over the newest samples of one signal.

use crate::stats::mean;
use crate::stats::mean_of;
use vstd::prelude::*;

verus! {

/// The last samples of one signal, oldest first, never more than the
/// capacity the window was made with.
pub struct RollingWindow<T> {
    buf: Vec<T>,
    capacity: usize,
}

/// The samples held after `x` arrives at a window of capacity `cap` that
/// holds `s`: the oldest sample leaves once the window is full.
pub open spec fn pushed<T>(s: Seq<T>, cap: nat, x: T) -> Seq<T> {
    if cap == 0 {
        s
    } else if s.len() < cap {
        s.push(x)
    } else {
        s.skip(1).push(x)
    }
}

/// The average that a window of capacity `cap` holding `s` offers: the
/// mean of its samples once it is full, nothing before.
pub open spec fn average_of(s: Seq<i32>, cap: nat) -> Option<i32> {
    if cap > 0 && s.len() == cap {
        Some(mean_of(s) as i32)
    } else {
        None
    }
}

impl<T> View for RollingWindow<T> {
    type V = Seq<T>;

    /// The samples held, oldest first.
    closed spec fn view(&self) -> Seq<T> {
        self.buf@
    }
}

impl<T> RollingWindow<T> {
    /// A window never holds more samples than its capacity.
    #[verifier::type_invariant]
    spec fn inv(&self) -> bool {
        self.buf@.len() <= self.capacity
    }

    /// The capacity the window was made with.
    pub closed spec fn limit(&self) -> nat {
        self.capacity as nat
    }

    /// An empty window for the last `capacity` samples.
    pub fn new(capacity: usize) -> (w: RollingWindow<T>)
        ensures
            w@ == Seq::<T>::empty(),
            w.limit() == capacity,
    {
        let w = RollingWindow { buf: Vec::new(), capacity };
        assert(w@ =~= Seq::<T>::empty());
        w
    }

    /// The capacity the window was made with.
    pub fn capacity(&self) -> (c: usize)
        ensures
            c == self.limit(),
    {
        self.capacity
    }

    /// Number of samples held.
    pub fn len(&self) -> (n: usize)
        ensures
            n == self@.len(),
            n <= self.limit(),
    {
        proof {
            use_type_invariant(self);
        }
        self.buf.len()
    }

    /// Whether the window holds as many samples as it can.
    pub fn is_full(&self) -> (full: bool)
        ensures
            full == (self@.len() == self.limit()),
    {
        self.buf.len() == self.capacity
    }

    /// Takes the sample `x` in, letting the oldest one go if the window
    /// is full. A window without capacity takes nothing in.
    pub fn push(&mut self, x: T)
        ensures
            final(self)@ == pushed(old(self)@, old(self).limit(), x),
            final(self).limit() == old(self).limit(),
            final(self)@.len() <= final(self).limit(),
    {
        proof {
            use_type_invariant(&*self);
        }
        if self.capacity == 0 {
            return;
        }
        let mut buf: Vec<T> = Vec::new();
        std::mem::swap(&mut self.buf, &mut buf);
        if buf.len() == self.capacity {
            buf.remove(0);
        }
        buf.push(x);
        self.buf = buf;
    }

    /// Lets every sample go.
    pub fn clear(&mut self)
        ensures
            final(self)@ == Seq::<T>::empty(),
            final(self).limit() == old(self).limit(),
    {
        self.buf = Vec::new();
        assert(self@ =~= Seq::<T>::empty());
    }
}

impl RollingWindow<i32> {
    /// Mean of the samples, rounded down, once the window is full. Before
    /// that the mean of what has arrived so far says little of the signal
    /// and is not offered.
    pub fn average(&self) -> (avg: Option<i32>)
        ensures
            avg == average_of(self@, self.limit()),
    {
        if self.capacity == 0 || self.buf.len() != self.capacity {
            return None;
        }
        mean(&self.buf)
    }
}

/// A window never holds more than its capacity, whatever arrives.
pub proof fn lemma_pushed_fits<T>(s: Seq<T>, cap: nat, x: T)
    requires
        s.len() <= cap,
    ensures
        pushed(s, cap, x).len() <= cap,
        cap > 0 ==> pushed(s, cap, x).last() == x,
        s.len() == cap ==> pushed(s, cap, x).len() == cap,
{
}

} // verus!
