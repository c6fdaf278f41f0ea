//! The arithmetic shared by every tracker: the clamped balance that is offered
//! as a new peak, and how a reallocation is accounted for.
use vstd::prelude::*;

verus! {

/// A balance clamped at zero from below.
pub open spec fn clamp(v: int) -> int {
    if v < 0 {
        0
    } else {
        v
    }
}

/// The candidate for a new peak after `bytes` are added to a running balance
/// that stood at `prev`: the new balance, clamped at zero.
///
/// A balance read from a shared counter may be negative for a moment while
/// deallocations race allocations; the clamp keeps such a reading from ever
/// being offered as a peak.
pub fn peak_candidate(prev: isize, bytes: usize) -> (r: usize)
    requires
        bytes <= isize::MAX,
    ensures
        r == clamp(prev + bytes),
{
    if prev >= 0 {
        prev as usize + bytes
    } else {
        let deficit: usize = (-(prev + 1)) as usize + 1;
        if bytes > deficit {
            bytes - deficit
        } else {
            0
        }
    }
}

/// How a reallocation from one size to another changes the live byte count.
#[derive(Clone, Copy, Debug, PartialEq, Eq, Structural)]
pub enum Resize {
    /// The block grows by this many bytes: accounted as an allocation.
    Grow(usize),
    /// The block shrinks by this many bytes: accounted as a deallocation.
    Shrink(usize),
    /// The size is unchanged: no effect on the counters.
    Keep,
}

/// Classifies a reallocation from `old_size` to `new_size` bytes.
pub fn resize_delta(old_size: usize, new_size: usize) -> (r: Resize)
    ensures
        new_size > old_size ==> r == Resize::Grow((new_size - old_size) as usize),
        new_size < old_size ==> r == Resize::Shrink((old_size - new_size) as usize),
        new_size == old_size ==> r == Resize::Keep,
{
    if new_size > old_size {
        Resize::Grow(new_size - old_size)
    } else if new_size < old_size {
        Resize::Shrink(old_size - new_size)
    } else {
        Resize::Keep
    }
}

} // verus!
