use slump::video::{VideoCapture, INITIAL_FRAME_RATE};
use slump::SlumpError;

#[test]
fn sequence_numbers_strictly_increase() {
    let mut v = VideoCapture::new(0, 1280, 720);
    let mut last = v.frame_count();
    for i in 0..50i64 {
        let s = v.capture_frame(Some(i * 3000), 10 * i as u64);
        assert!(s > last);
        assert_eq!(s, last + 1);
        last = s;
    }
    assert_eq!(v.last_pts(), Some(49 * 3000));
}

#[test]
fn frame_rate_is_frames_over_elapsed_time() {
    let mut v = VideoCapture::new(0, 640, 480);
    assert_eq!(v.get_frame_rate(), INITIAL_FRAME_RATE);
    assert_eq!(INITIAL_FRAME_RATE, 0);
    v.capture_frame(None, 0);
    assert_eq!(v.get_frame_rate(), 0);
    v.capture_frame(None, 500);
    // 2 frames over 0.5 s.
    assert_eq!(v.get_frame_rate(), 4000);
    for _ in 0..58 {
        v.capture_frame(None, 900);
    }
    v.capture_frame(None, 2000);
    // 61 frames over 2 s.
    assert_eq!(v.get_frame_rate(), 30500);
}

#[test]
fn one_frame_at_half_a_second_is_two_fps() {
    let mut v = VideoCapture::new(0, 640, 480);
    v.capture_frame(Some(0), 500);
    assert_eq!(v.get_frame_rate(), 2000);
}

#[test]
fn packet_filter_uses_stream_index() {
    let v = VideoCapture::new(3, 2, 2);
    assert!(v.accepts_packet(3));
    assert!(!v.accepts_packet(2));
}

#[test]
fn scaled_frame_layout_length() {
    let v = VideoCapture::new(0, 1280, 720);
    assert_eq!(v.scaled_frame_len(), 1280 * 720 * 3 / 2);
    let odd = VideoCapture::new(0, 3, 3);
    assert_eq!(odd.scaled_frame_len(), 9 + 2 * 4);
    assert_eq!(v.check_scaled_frame(1_382_400), Ok(()));
    assert!(matches!(v.check_scaled_frame(100), Err(SlumpError::Video(_))));
}
