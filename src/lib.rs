//! An instrumenting allocator wrapper that computes the peak number of bytes
//! live during a scoped interval.
//!
//! The arithmetic of the bookkeeping (clamping the running balance, splitting a
//! reallocation into growth or shrinkage) lives in `accounting`. `counter`
//! holds a single-owner tracker whose every step is specified exactly over a
//! model of the two counters; `laws` proves what the peak obeys over any run of
//! operations on that model. `tracker` holds `PeakAlloc`, the lock-free
//! tracker built on two shared atomic counters, which uses the same arithmetic.
pub mod accounting;
pub mod counter;
pub mod laws;
pub mod tracker;

pub use counter::PeakCounter;
pub use tracker::PeakAlloc;
