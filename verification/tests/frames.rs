use std::collections::VecDeque;

use chasam_core::frames::distribute_frames;
use chasam_core::frames::get_cols_and_rows;

#[test]
fn test_should_distribute_frames_in_balanced_parts() {
    let nframes = 15;
    let nparts = 9;
    let distribution = distribute_frames(nframes, nparts).unwrap();

    let want_distribution = VecDeque::from([2, 2, 2, 2, 2, 2, 1, 1, 1]);

    assert_eq!(distribution, want_distribution);
    assert_eq!(nframes, distribution.iter().sum());
}

#[test]
fn distribute_frames_rejects_zero_parts() {
    assert!(distribute_frames(10, 0).is_none());
}

#[test]
fn distribute_frames_handles_fewer_frames_than_parts() {
    let distribution = distribute_frames(2, 4).unwrap();
    assert_eq!(distribution, VecDeque::from([1, 1, 0, 0]));
}

#[test]
fn grid_grows_with_the_frame_count() {
    assert_eq!(get_cols_and_rows(1), (3, 1));
    assert_eq!(get_cols_and_rows(4), (2, 2));
    assert_eq!(get_cols_and_rows(9), (3, 3));
    assert_eq!(get_cols_and_rows(16), (4, 4));
    assert_eq!(get_cols_and_rows(25), (5, 5));
    assert_eq!(get_cols_and_rows(36), (6, 6));
    assert_eq!(get_cols_and_rows(49), (7, 7));
    assert_eq!(get_cols_and_rows(64), (8, 8));
    assert_eq!(get_cols_and_rows(99), (8, 8));
    assert_eq!(get_cols_and_rows(100), (10, 10));
}
