use slump::audio::{AudioCapture, RING_CAPACITY};
use slump::ring::RingBuffer;
use slump::SlumpError;

#[test]
fn ring_read_returns_min_of_requested_and_available() {
    let mut rb = RingBuffer::new(8);
    assert_eq!(rb.write(&[1, 2, 3]), 3);
    let mut buf = [0u32; 5];
    assert_eq!(rb.read(&mut buf), 3);
    assert_eq!(buf, [1, 2, 3, 0, 0]);
    assert_eq!(rb.len(), 0);
    assert_eq!(rb.read(&mut buf), 0);
}

#[test]
fn ring_never_exceeds_capacity() {
    let mut rb = RingBuffer::new(4);
    for i in 0..10u32 {
        rb.push(i);
        assert!(rb.len() <= 4);
    }
    assert_eq!(rb.len(), 4);
}

#[test]
fn ring_full_drops_newest_writes() {
    let mut rb = RingBuffer::new(4);
    assert_eq!(rb.write(&[1, 2, 3, 4, 5, 6]), 4);
    assert!(!rb.push(7));
    let mut buf = [0u32; 4];
    assert_eq!(rb.read(&mut buf), 4);
    assert_eq!(buf, [1, 2, 3, 4]);
}

#[test]
fn ring_fill_exactly_then_read_all() {
    let mut rb = RingBuffer::new(3);
    assert_eq!(rb.write(&[9, 8, 7]), 3);
    let mut buf = [0u32; 3];
    assert_eq!(rb.read(&mut buf), 3);
    assert_eq!(buf, [9, 8, 7]);
}

#[test]
fn ring_pop_is_fifo() {
    let mut rb = RingBuffer::new(2);
    assert!(rb.push(5));
    assert!(rb.push(6));
    assert_eq!(rb.pop(), Some(5));
    assert_eq!(rb.pop(), Some(6));
    assert_eq!(rb.pop(), None);
}

#[test]
fn audio_capture_decodes_little_endian_words() {
    let mut a = AudioCapture::new(1);
    assert!(a.accepts_packet(1));
    assert!(!a.accepts_packet(0));
    let one = 1.0f32.to_bits().to_le_bytes();
    let half = (-0.5f32).to_bits().to_le_bytes();
    let mut bytes = Vec::new();
    bytes.extend_from_slice(&one);
    bytes.extend_from_slice(&half);
    assert_eq!(a.capture_audio(&bytes), Ok(2));
    assert_eq!(a.available(), 2);
    let mut buf = [0u32; 4];
    assert_eq!(a.read_audio(&mut buf), 2);
    assert_eq!(f32::from_bits(buf[0]), 1.0);
    assert_eq!(f32::from_bits(buf[1]), -0.5);
    assert_eq!(buf[0], 0x3f80_0000);
}

#[test]
fn audio_capture_rejects_partial_samples() {
    let mut a = AudioCapture::new(0);
    let r = a.capture_audio(&[1, 2, 3, 4, 5]);
    assert!(matches!(r, Err(SlumpError::Audio(_))));
    // One mono sample is not a whole stereo frame.
    let r = a.capture_audio(&[1, 2, 3, 4]);
    assert!(matches!(r, Err(SlumpError::Audio(_))));
    assert_eq!(a.available(), 0);
}

#[test]
fn audio_capture_ring_holds_two_seconds() {
    assert_eq!(RING_CAPACITY, 48000 * 2 * 2);
    let mut a = AudioCapture::new(0);
    let bytes = vec![0u8; (RING_CAPACITY + 10) * 4];
    assert_eq!(a.capture_audio(&bytes), Ok(RING_CAPACITY));
    assert_eq!(a.available(), RING_CAPACITY);
}
