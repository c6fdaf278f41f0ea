use peak_mem_alloc::PeakAlloc;
use std::alloc::System;

#[test]
fn new_tracker_starts_at_zero() {
    let alloc = PeakAlloc::new(System);
    assert_eq!(alloc.get_peak_memory(), 0);
}

#[test]
fn reset_sets_peak_to_zero() {
    let alloc = PeakAlloc::system();
    alloc.track_alloc(300);
    alloc.reset_peak_memory();
    assert_eq!(alloc.get_peak_memory(), 0);
    assert_eq!(alloc.get_peak_memory(), 0);
}

#[test]
fn reset_also_clears_the_balance() {
    let alloc = PeakAlloc::system();
    alloc.track_alloc(300);
    alloc.reset_peak_memory();
    alloc.track_alloc(10);
    assert_eq!(alloc.get_peak_memory(), 10);
}

#[test]
fn single_allocation_sets_peak() {
    let alloc = PeakAlloc::system();
    alloc.track_alloc(4096);
    assert_eq!(alloc.get_peak_memory(), 4096);
}

#[test]
fn deallocation_does_not_lower_peak() {
    let alloc = PeakAlloc::system();
    alloc.track_alloc(1024);
    alloc.track_dealloc(1024);
    assert_eq!(alloc.get_peak_memory(), 1024);
}

#[test]
fn realloc_growth_raises_peak() {
    let alloc = PeakAlloc::system();
    alloc.track_alloc(100);
    alloc.track_realloc(100, 500);
    assert_eq!(alloc.get_peak_memory(), 500);
}

#[test]
fn realloc_shrink_keeps_peak() {
    let alloc = PeakAlloc::system();
    alloc.track_alloc(500);
    alloc.track_realloc(500, 100);
    assert_eq!(alloc.get_peak_memory(), 500);
    // The balance is now 100: another 450 bytes make 550 live.
    alloc.track_alloc(450);
    assert_eq!(alloc.get_peak_memory(), 550);
}

#[test]
fn realloc_same_size_changes_nothing() {
    let alloc = PeakAlloc::system();
    alloc.track_alloc(64);
    alloc.track_realloc(64, 64);
    alloc.track_alloc(1);
    assert_eq!(alloc.get_peak_memory(), 65);
}

#[test]
fn negative_balance_is_clamped() {
    let alloc = PeakAlloc::system();
    // A free with no matching allocation since the reset drives the balance
    // below zero; the following allocation offers the clamped balance, 0.
    alloc.track_dealloc(100);
    alloc.track_alloc(40);
    assert_eq!(alloc.get_peak_memory(), 0);
    alloc.track_alloc(100);
    assert_eq!(alloc.get_peak_memory(), 40);
}

#[test]
fn peak_reads_are_stable() {
    let alloc = PeakAlloc::system();
    alloc.track_alloc(77);
    let first = alloc.get_peak_memory();
    let second = alloc.get_peak_memory();
    assert_eq!(first, second);
    assert_eq!(first, 77);
}

#[test]
fn inner_is_the_wrapped_allocator() {
    let alloc = PeakAlloc::new(7u32);
    assert_eq!(*alloc.inner(), 7);
}

#[test]
fn interleaved_blocks_peak_is_bounded() {
    // Four blocks of 256 bytes, allocated and freed in an interleaved order:
    // at most three are live at once.
    let bytes: usize = 256;
    let alloc = PeakAlloc::system();
    alloc.track_alloc(bytes);
    alloc.track_alloc(bytes);
    alloc.track_dealloc(bytes);
    alloc.track_alloc(bytes);
    alloc.track_alloc(bytes);
    alloc.track_dealloc(bytes);
    alloc.track_dealloc(bytes);
    alloc.track_dealloc(bytes);
    let peak = alloc.get_peak_memory();
    assert_eq!(peak, 3 * bytes);
    assert!(peak <= 4 * bytes);
}
