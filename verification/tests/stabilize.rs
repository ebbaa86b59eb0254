use fpv_editor::stabilize::{bracket_at, check_gyro_timestamps, Bracket, GyroError};

#[test]
fn empty_log_is_rejected() {
    assert_eq!(check_gyro_timestamps(&Vec::new()).unwrap_err(), GyroError::Empty);
}

#[test]
fn unsorted_log_is_rejected() {
    assert_eq!(check_gyro_timestamps(&vec![1000, 500]).unwrap_err(), GyroError::Unsorted);
    assert_eq!(check_gyro_timestamps(&vec![0, 500, 500]).unwrap_err(), GyroError::Unsorted);
    assert_eq!(check_gyro_timestamps(&vec![0, 500, 1000]), Ok(()));
}

#[test]
fn brackets_clamp_out_of_range_queries() {
    let ts = vec![0, 1_000_000];
    assert_eq!(bracket_at(&ts, -5), Bracket::Start);
    assert_eq!(bracket_at(&ts, 2_000_000), Bracket::End);
}

#[test]
fn brackets_locate_the_surrounding_samples() {
    let ts = vec![0, 250_000, 500_000, 750_000, 1_000_000];
    assert_eq!(bracket_at(&ts, 500_000), Bracket::Between(2));
    assert_eq!(bracket_at(&ts, 999_999), Bracket::Between(3));
    assert_eq!(bracket_at(&ts, 1), Bracket::Between(0));
}
