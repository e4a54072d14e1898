use incline_design::memory::{MemoryError, WorkingSet, WORKING_SET_LIMIT};
use incline_design::state::Platform;

#[test]
fn memory_is_handed_out_up_to_the_limit() {
    let mut set = WorkingSet::new(Platform::Browser);
    let half = set.reserve(WORKING_SET_LIMIT / 2).unwrap();
    assert_eq!(set.reserved, WORKING_SET_LIMIT / 2);
    assert_eq!(
        set.reserve(WORKING_SET_LIMIT).unwrap_err(),
        MemoryError::NotEnough { needed: WORKING_SET_LIMIT, left: WORKING_SET_LIMIT / 2 }
    );
    assert_eq!(set.reserve(usize::MAX).unwrap_err(), MemoryError::EstimateOverflows);
    set.release(half);
    assert_eq!(set.reserved, 0);
    assert!(set.reserve(WORKING_SET_LIMIT).is_ok());
}

#[test]
fn memory_is_not_counted_on_the_desktop() {
    let mut set = WorkingSet::new(Platform::Native);
    assert_eq!(set.reserve(usize::MAX).unwrap().bytes, 0);
    assert_eq!(set.reserved, 0);
}
