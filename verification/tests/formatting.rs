use downloader::naming::{dest_filename, dest_path};
use downloader::numfmt::{i32_to_padded2, i32_to_string, u32_to_string};
use downloader::state::JobState;

#[test]
fn decimal_rendering_matches_standard_formatting() {
    assert_eq!(u32_to_string(0), "0".to_string());
    assert_eq!(u32_to_string(7), "7".to_string());
    assert_eq!(u32_to_string(10), "10".to_string());
    assert_eq!(u32_to_string(90210), "90210".to_string());
    assert_eq!(u32_to_string(u32::MAX), u32::MAX.to_string());
}

#[test]
fn signed_rendering_matches_standard_formatting() {
    assert_eq!(i32_to_string(-1), "-1".to_string());
    assert_eq!(i32_to_string(-42), "-42".to_string());
    assert_eq!(i32_to_string(42), "42".to_string());
    assert_eq!(i32_to_string(i32::MIN), i32::MIN.to_string());
    assert_eq!(i32_to_string(i32::MAX), i32::MAX.to_string());
}

#[test]
fn two_digit_padding_matches_standard_formatting() {
    assert_eq!(i32_to_padded2(0), format!("{:02}", 0));
    assert_eq!(i32_to_padded2(5), format!("{:02}", 5));
    assert_eq!(i32_to_padded2(10), format!("{:02}", 10));
    assert_eq!(i32_to_padded2(123), format!("{:02}", 123));
    assert_eq!(i32_to_padded2(-5), format!("{:02}", -5));
    assert_eq!(i32_to_padded2(-50), format!("{:02}", -50));
}

#[test]
fn movie_and_episode_filenames() {
    assert_eq!(
        dest_filename(&"Inception".to_string(), None, None),
        "Inception.mp4".to_string()
    );
    assert_eq!(
        dest_filename(&"Show".to_string(), Some(2), Some(5)),
        "Show_S02E05.mp4".to_string()
    );
    assert_eq!(
        dest_filename(&"Show".to_string(), Some(12), Some(103)),
        "Show_S12E103.mp4".to_string()
    );
    assert_eq!(
        dest_path(&"downloads".to_string(), &"Show".to_string(), Some(2), Some(5)),
        "downloads/Show_S02E05.mp4".to_string()
    );
}

#[test]
fn state_labels_name_every_state() {
    assert_eq!(JobState::Queued.label(), "queued".to_string());
    assert_eq!(JobState::Downloading.label(), "downloading".to_string());
    assert_eq!(JobState::Completed.label(), "completed".to_string());
    assert_eq!(JobState::Error.label(), "error".to_string());
    assert_eq!(JobState::Cancelled.label(), "cancelled".to_string());
}

#[test]
fn the_state_machine_edges_are_exactly_the_documented_ones() {
    let states = [
        JobState::Queued,
        JobState::Downloading,
        JobState::Completed,
        JobState::Error,
        JobState::Cancelled,
    ];
    for from in states {
        for to in states {
            let expected = matches!(
                (from, to),
                (JobState::Queued, JobState::Downloading)
                    | (JobState::Downloading, JobState::Completed)
                    | (JobState::Downloading, JobState::Error)
                    | (JobState::Queued, JobState::Cancelled)
                    | (JobState::Downloading, JobState::Cancelled)
                    | (JobState::Error, JobState::Queued)
                    | (JobState::Cancelled, JobState::Queued)
            );
            assert_eq!(from.can_transition_to(to), expected);
        }
    }
    assert!(!JobState::Queued.terminal());
    assert!(!JobState::Downloading.terminal());
    assert!(JobState::Completed.terminal());
    assert!(JobState::Error.terminal());
    assert!(JobState::Cancelled.terminal());
}
