use peak_mem_alloc::PeakAlloc;

#[test]
fn example_using_region() {
    let alloc = PeakAlloc::system();
    alloc.reset_peak_memory();
    // What `Vec::<u8>::with_capacity(1_024)` asks of the allocator.
    alloc.track_alloc(1_024);
    println!(
        "Peak Memory used by function : {:#?}",
        alloc.get_peak_memory()
    );
    assert_eq!(alloc.get_peak_memory(), 1024);
}
