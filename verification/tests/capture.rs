use dictatord::capture::{pre_roll_samples, AudioShared};

#[test]
fn pre_roll_sample_count() {
    assert_eq!(pre_roll_samples(16000, 2000), 32000);
    assert_eq!(pre_roll_samples(16000, 0), 0);
    assert_eq!(pre_roll_samples(44100, 10), 441);
    assert_eq!(pre_roll_samples(8000, 1), 8);
    assert_eq!(pre_roll_samples(3, 333), 0);
}

#[test]
fn recording_starts_with_pre_roll() {
    let mut shared = AudioShared::new(4);
    shared.capture(&[1, 2, 3, 4, 5, 6]);
    assert!(!shared.is_recording);
    assert!(shared.recording_buffer.is_empty());
    shared.start_recording(3);
    assert_eq!(shared.recording_buffer, vec![4, 5, 6]);
    shared.capture(&[7, 8]);
    shared.capture(&[9]);
    let audio = shared.stop_recording();
    assert_eq!(audio, vec![4, 5, 6, 7, 8, 9]);
    assert!(!shared.is_recording);
    shared.capture(&[10]);
    assert_eq!(shared.recording_buffer, vec![4, 5, 6, 7, 8, 9]);
    assert_eq!(shared.ring_buffer.snapshot(4), vec![7, 8, 9, 10]);
}

#[test]
fn pre_roll_is_bounded_by_what_was_heard() {
    let mut shared = AudioShared::new(10);
    shared.capture(&[1, 2]);
    shared.start_recording(10);
    assert_eq!(shared.recording_buffer, vec![1, 2]);
}
