use peak_mem_alloc::accounting::{peak_candidate, resize_delta, Resize};

#[test]
fn candidate_adds_to_positive_balance() {
    assert_eq!(peak_candidate(100, 28), 128);
}

#[test]
fn candidate_clamps_negative_result() {
    assert_eq!(peak_candidate(-50, 20), 0);
    assert_eq!(peak_candidate(-50, 50), 0);
    assert_eq!(peak_candidate(-50, 51), 1);
}

#[test]
fn candidate_at_the_extremes() {
    assert_eq!(peak_candidate(isize::MIN, isize::MAX as usize), 0);
    assert_eq!(
        peak_candidate(isize::MAX, isize::MAX as usize),
        (isize::MAX as usize) * 2
    );
}

#[test]
fn resize_classification() {
    assert_eq!(resize_delta(100, 500), Resize::Grow(400));
    assert_eq!(resize_delta(500, 100), Resize::Shrink(400));
    assert_eq!(resize_delta(7, 7), Resize::Keep);
}
