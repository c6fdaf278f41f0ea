//! `PeakAlloc`: a lock-free peak tracker that sits in front of an inner
//! allocator and may be shared by every thread of a process.
//!
//! The two counters are std atomics, updated with sequential consistency. Their
//! values depend on every thread that touches them, so no contract here speaks
//! of them; what is proved is that the bookkeeping never panics and that the
//! value offered as a new peak is exactly the clamped balance after the add.
//! The value model of the same algorithm is `PeakCounter`.
use std::alloc::System;
use std::sync::atomic::{AtomicIsize, AtomicUsize, Ordering};
use vstd::prelude::*;

use crate::accounting::{peak_candidate, resize_delta, Resize};

verus! {

/// The platform's default allocator, carried as the inner allocator of
/// `PeakAlloc::system`.
#[verifier::external_type_specification]
#[verifier::external_body]
pub struct ExSystem(System);

/// An allocator middleware which keeps track of peak memory consumption.
///
/// It counts, it does not allocate: the allocator interface of the host calls
/// `track_alloc`, `track_dealloc` or `track_realloc` with the sizes of each
/// request and hands the request itself to `inner` unchanged.
#[derive(Default, Debug)]
pub struct PeakAlloc<T> {
    peak_bytes_allocated_tracker: AtomicIsize,
    peak_bytes_allocated: AtomicUsize,
    inner: T,
}

impl PeakAlloc<System> {
    /// Provides an instrumented instance of the system allocator.
    pub fn system() -> Self {
        PeakAlloc::new(system_allocator())
    }
}

/// Relies on `std::alloc::System`: a value of this unit struct is the handle to
/// the platform's default allocator. Nothing is stated of it; it is only
/// carried.
#[verifier::external_body]
fn system_allocator() -> System {
    System
}

impl<T> PeakAlloc<T> {
    /// The allocator that this tracker forwards to.
    pub closed spec fn wrapped(&self) -> T {
        self.inner
    }

    /// Provides an instrumented instance of the given allocator, with both
    /// counters at zero.
    pub fn new(inner: T) -> (r: Self)
        ensures
            r.wrapped() == inner,
    {
        PeakAlloc {
            peak_bytes_allocated_tracker: AtomicIsize::new(0),
            peak_bytes_allocated: AtomicUsize::new(0),
            inner,
        }
    }

    /// The allocator that performs the real work.
    pub fn inner(&self) -> (r: &T)
        ensures
            *r == self.wrapped(),
    {
        &self.inner
    }

    /// Resets the peak memory and the running balance to 0, starting a new
    /// measurement window.
    pub fn reset_peak_memory(&self) {
        self.peak_bytes_allocated.store(0, Ordering::SeqCst);
        self.peak_bytes_allocated_tracker.store(0, Ordering::SeqCst);
    }

    /// Get the peak memory consumption since the last reset.
    pub fn get_peak_memory(&self) -> usize {
        self.peak_bytes_allocated.load(Ordering::SeqCst)
    }

    /// Accounts for an allocation of `bytes`: adds them to the running balance
    /// and raises the peak to the clamped balance that the add produced.
    pub fn track_alloc(&self, bytes: usize)
        requires
            bytes <= isize::MAX,
    {
        let prev = self.peak_bytes_allocated_tracker.fetch_add(bytes as isize, Ordering::SeqCst);
        let current_peak = peak_candidate(prev, bytes);
        self.peak_bytes_allocated.fetch_max(current_peak, Ordering::SeqCst);
    }

    /// Accounts for a deallocation of `bytes`: subtracts them from the running
    /// balance and leaves the peak alone.
    pub fn track_dealloc(&self, bytes: usize)
        requires
            bytes <= isize::MAX,
    {
        self.peak_bytes_allocated_tracker.fetch_sub(bytes as isize, Ordering::SeqCst);
    }

    /// Accounts for a reallocation from `old_size` to `new_size` bytes: growth
    /// as an allocation of the difference, shrinkage as a deallocation of it.
    pub fn track_realloc(&self, old_size: usize, new_size: usize)
        requires
            old_size <= isize::MAX,
            new_size <= isize::MAX,
    {
        match resize_delta(old_size, new_size) {
            Resize::Grow(difference) => self.track_alloc(difference),
            Resize::Shrink(difference) => self.track_dealloc(difference),
            Resize::Keep => {},
        }
    }
}

} // verus!
