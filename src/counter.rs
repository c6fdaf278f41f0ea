//! `PeakCounter`: the peak-tracking algorithm for a tracker with one owner,
//! with every step specified over a model of the two counters, and the laws
//! that the peak obeys over any run of operations.
use vstd::prelude::*;

use crate::accounting::{clamp, peak_candidate, resize_delta, Resize};

verus! {

/// The model of a tracker: the net bytes live since the last reset, and the
/// highest clamped balance seen since then.
pub struct Tally {
    pub balance: int,
    pub peak: int,
}

/// The tracker as it stands after construction or a reset.
pub open spec fn fresh() -> Tally {
    Tally { balance: 0, peak: 0 }
}

/// The larger of two integers.
pub open spec fn max_of(a: int, b: int) -> int {
    if a >= b {
        a
    } else {
        b
    }
}

/// An allocation of `bytes` raises the balance, and the peak to the clamped
/// balance if that is higher.
pub open spec fn after_alloc(t: Tally, bytes: int) -> Tally {
    Tally { balance: t.balance + bytes, peak: max_of(t.peak, clamp(t.balance + bytes)) }
}

/// A deallocation of `bytes` lowers the balance and leaves the peak alone.
pub open spec fn after_dealloc(t: Tally, bytes: int) -> Tally {
    Tally { balance: t.balance - bytes, peak: t.peak }
}

/// A reallocation counts its growth as an allocation and its shrinkage as a
/// deallocation; an unchanged size changes nothing.
pub open spec fn after_realloc(t: Tally, old_size: int, new_size: int) -> Tally {
    if new_size > old_size {
        after_alloc(t, new_size - old_size)
    } else if new_size < old_size {
        after_dealloc(t, old_size - new_size)
    } else {
        t
    }
}

/// One operation of the allocator interface, by the sizes it carries.
pub enum Event {
    Alloc(nat),
    Dealloc(nat),
    Realloc(nat, nat),
}

/// The effect of one operation on the counters.
pub open spec fn apply(t: Tally, e: Event) -> Tally {
    match e {
        Event::Alloc(n) => after_alloc(t, n as int),
        Event::Dealloc(n) => after_dealloc(t, n as int),
        Event::Realloc(o, n) => after_realloc(t, o as int, n as int),
    }
}

/// The counters after a run of operations, in order, from `t`.
pub open spec fn replay(t: Tally, events: Seq<Event>) -> Tally
    decreases events.len(),
{
    if events.len() == 0 {
        t
    } else {
        apply(replay(t, events.drop_last()), events.last())
    }
}

/// The peak covers the current balance, clamped at zero.
pub open spec fn peak_covers_balance(t: Tally) -> bool {
    t.peak >= clamp(t.balance)
}

/// A peak tracker with a single owner: every update takes `&mut self`, so the
/// balance and the peak always move together.
#[derive(Clone, Copy, Debug, PartialEq, Eq, Structural)]
pub struct PeakCounter {
    balance: isize,
    peak: usize,
}

impl View for PeakCounter {
    type V = Tally;

    closed spec fn view(&self) -> Tally {
        Tally { balance: self.balance as int, peak: self.peak as int }
    }
}

impl PeakCounter {
    /// A tracker with both counters at zero.
    pub fn new() -> (r: Self)
        ensures
            r@ == fresh(),
    {
        PeakCounter { balance: 0, peak: 0 }
    }

    /// Sets the running balance and the peak to 0.
    pub fn reset_peak_memory(&mut self)
        ensures
            final(self)@ == fresh(),
    {
        self.balance = 0;
        self.peak = 0;
    }

    /// The peak memory consumption since the last reset.
    pub fn get_peak_memory(&self) -> (r: usize)
        ensures
            r == self@.peak,
    {
        self.peak
    }

    /// The net bytes live since the last reset.
    pub fn balance(&self) -> (r: isize)
        ensures
            r == self@.balance,
    {
        self.balance
    }

    /// Accounts for an allocation of `bytes`.
    pub fn track_alloc(&mut self, bytes: usize)
        requires
            bytes <= isize::MAX,
            old(self)@.balance + bytes <= isize::MAX,
        ensures
            final(self)@ == after_alloc(old(self)@, bytes as int),
    {
        let current_peak = peak_candidate(self.balance, bytes);
        self.balance = self.balance + bytes as isize;
        if current_peak > self.peak {
            self.peak = current_peak;
        }
    }

    /// Accounts for a deallocation of `bytes`.
    pub fn track_dealloc(&mut self, bytes: usize)
        requires
            bytes <= isize::MAX,
            old(self)@.balance - bytes >= isize::MIN,
        ensures
            final(self)@ == after_dealloc(old(self)@, bytes as int),
    {
        self.balance = self.balance - bytes as isize;
    }

    /// Accounts for a reallocation from `old_size` to `new_size` bytes.
    pub fn track_realloc(&mut self, old_size: usize, new_size: usize)
        requires
            old_size <= isize::MAX,
            new_size <= isize::MAX,
            isize::MIN <= old(self)@.balance + new_size - old_size <= isize::MAX,
        ensures
            final(self)@ == after_realloc(old(self)@, old_size as int, new_size as int),
    {
        match resize_delta(old_size, new_size) {
            Resize::Grow(difference) => self.track_alloc(difference),
            Resize::Shrink(difference) => self.track_dealloc(difference),
            Resize::Keep => {},
        }
    }
}

} // verus!
