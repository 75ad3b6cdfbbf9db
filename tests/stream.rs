use slump::stream::{frame_interval_ms, AUDIO_CHUNK_SAMPLES};
use slump::webrtc::{ConnectionState, IceCandidate, SignalAction, SignalMessage, WebRTCTransport};
use slump::{SlumpError, SlumpStream, Stats, StreamConfig, StreamEvent, StreamStats};

fn cfg() -> StreamConfig {
    StreamConfig { width: 1280, height: 720, fps: 30, bitrate: 2_000_000 }
}

#[test]
fn second_start_is_refused_without_opening() {
    let mut s = SlumpStream::new();
    assert_eq!(s.check_start(1280, 720, 30), Ok(true));
    assert_eq!(s.start_stream(cfg()), Ok(true));
    assert!(s.is_running());
    assert_eq!(s.check_start(1280, 720, 30), Ok(false));
    assert_eq!(s.start_stream(cfg()), Ok(false));
    assert!(s.is_running());
}

#[test]
fn stop_when_idle_returns_false() {
    let mut s = SlumpStream::new();
    assert!(!s.stop_stream());
    assert!(!s.is_running());
    assert_eq!(s.start_stream(cfg()), Ok(true));
    assert!(s.stop_stream());
    assert!(!s.stop_stream());
    assert_eq!(s.start_stream(cfg()), Ok(true));
}

#[test]
fn invalid_config_is_rejected() {
    let mut s = SlumpStream::new();
    for (w, h, f) in [(0, 720, 30), (1280, 0, 30), (1280, 720, 0), (1280, 720, 1001)] {
        let r = s.start_stream(StreamConfig { width: w, height: h, fps: f, bitrate: 1 });
        assert!(matches!(r, Err(SlumpError::Config(_))));
        assert!(!s.is_running());
    }
}

#[test]
fn pacing_intervals() {
    assert_eq!(frame_interval_ms(30), 33);
    assert_eq!(frame_interval_ms(1000), 1);
    assert_eq!(AUDIO_CHUNK_SAMPLES, 960 * 2);
}

#[test]
fn stats_synthetic_feed_rates() {
    let mut st = StreamStats::new();
    for _ in 0..30 {
        st.record_video_frame(1000);
    }
    let snap = st.tick(1000);
    assert_eq!(snap.video_bps, 30 * 1000 * 8);
    assert_eq!(snap.fps_milli, 30_000);
    assert_eq!(st.video_frames_sent, 30);
    assert_eq!(st.interval_video_bytes, 0);
    // Next interval: 15 frames of 2000 bytes over 500 ms.
    for _ in 0..15 {
        st.record_video_frame(2000);
    }
    let snap = st.tick(500);
    assert_eq!(snap.video_bps, 15 * 2000 * 8 * 2);
    assert_eq!(snap.fps_milli, 30_000);
    assert_eq!(st.video_frames_sent, 45);
}

#[test]
fn stats_tick_with_zero_elapsed_keeps_rates() {
    let mut st = StreamStats::new();
    st.record_video_frame(10);
    let snap = st.tick(0);
    assert_eq!(snap, Stats { video_bps: 0, audio_bps: 0, rtt_us: 0, jitter_us: 0, fps_milli: 0 });
    assert_eq!(st.interval_video_frames, 1);
}

#[test]
fn stats_audio_and_network() {
    let mut st = StreamStats::new();
    st.record_audio_frame(400);
    st.record_network(12_000, 300);
    let snap = st.tick(1000);
    assert_eq!(snap.audio_bps, 3200);
    assert_eq!(snap.rtt_us, 12_000);
    assert_eq!(snap.jitter_us, 300);
    assert_eq!(st.audio_frames_sent, 1);
}

#[test]
fn stats_event_after_running_a_second() {
    let mut s = SlumpStream::new();
    assert_eq!(s.start_stream(cfg()), Ok(true));
    for _ in 0..30 {
        s.on_video_frame_sent(5000);
    }
    match s.on_stats_tick(1000) {
        StreamEvent::Stats { fps_milli, video_bps, .. } => {
            assert!(fps_milli > 0);
            assert_eq!(video_bps, 1_200_000);
        }
        other => panic!("unexpected event {:?}", other),
    }
    assert_eq!(s.get_stats().fps_milli, 30_000);
}

#[test]
fn stream_event_new_is_zero_stats() {
    assert_eq!(
        StreamEvent::new(),
        StreamEvent::Stats { video_bps: 0, audio_bps: 0, rtt_us: 0, jitter_us: 0, fps_milli: 0 }
    );
}

#[test]
fn signal_while_idle_is_ignored() {
    let mut s = SlumpStream::new();
    let a = s.apply_signal(Some(SignalMessage::Answer { sdp: "v=0".to_string() }));
    assert_eq!(a, SignalAction::Ignore);
}

#[test]
fn ice_before_negotiation_is_forwarded_quietly() {
    let mut s = SlumpStream::new();
    assert_eq!(s.start_stream(cfg()), Ok(true));
    let cand = IceCandidate {
        candidate: "candidate:1 1 UDP ...".to_string(),
        sdp_mid: Some("0".to_string()),
        sdp_m_line_index: Some(0),
    };
    let a = s.apply_signal(Some(SignalMessage::Ice { candidate: cand.clone() }));
    assert_eq!(a, SignalAction::AddIceCandidate(cand));
    assert!(!s.is_connected(0));
}

#[test]
fn malformed_signal_changes_nothing() {
    let mut s = SlumpStream::new();
    assert_eq!(s.start_stream(cfg()), Ok(true));
    assert_eq!(s.apply_signal(None), SignalAction::Ignore);
    assert_eq!(s.on_liveness(10), Some(StreamEvent::Connected));
    assert_eq!(s.apply_signal(None), SignalAction::Ignore);
    assert!(s.is_connected(10));
}

#[test]
fn liveness_window_is_five_seconds() {
    let mut s = SlumpStream::new();
    assert_eq!(s.start_stream(cfg()), Ok(true));
    assert!(!s.is_connected(0));
    assert_eq!(s.on_liveness(1000), Some(StreamEvent::Connected));
    assert_eq!(s.on_liveness(2000), None);
    assert!(s.is_connected(6999));
    assert!(!s.is_connected(7000));
    assert_eq!(s.check_liveness(6999), None);
    assert_eq!(s.check_liveness(7000), Some(StreamEvent::Disconnected));
    assert_eq!(s.check_liveness(8000), None);
    assert_eq!(s.on_liveness(9000), Some(StreamEvent::Connected));
}

#[test]
fn closed_session_is_terminal() {
    let mut s = SlumpStream::new();
    assert_eq!(s.start_stream(cfg()), Ok(true));
    assert!(s.stop_stream());
    assert_eq!(s.on_liveness(5), None);
    assert!(!s.is_connected(5));
}

#[test]
fn connection_states_follow_signaling() {
    let mut t = WebRTCTransport::new();
    assert_eq!(t.connection_state(), ConnectionState::New);
    assert_eq!(t.handle_signal(None), SignalAction::Ignore);
    assert_eq!(t.connection_state(), ConnectionState::New);
    let a = t.handle_signal(Some(SignalMessage::Error("boom".to_string())));
    assert_eq!(a, SignalAction::Warn("boom".to_string()));
    assert_eq!(t.connection_state(), ConnectionState::Negotiating);
    let a = t.handle_signal(Some(SignalMessage::Offer { sdp: "x".to_string() }));
    assert_eq!(a, SignalAction::Ignore);
    t.record_liveness(0);
    assert_eq!(t.connection_state(), ConnectionState::Connected);
    t.close();
    assert_eq!(t.connection_state(), ConnectionState::Closed);
    assert_eq!(t.handle_signal(Some(SignalMessage::Answer { sdp: "y".to_string() })), SignalAction::SetRemoteAnswer("y".to_string()));
    assert_eq!(t.connection_state(), ConnectionState::Closed);
}

#[test]
fn quality_settings_are_kept() {
    let mut s = SlumpStream::new();
    s.set_video_quality(3);
    s.set_audio_quality(7);
    assert!(!s.is_running());
}

#[test]
fn counters_accumulate_across_restarts() {
    let mut s = SlumpStream::new();
    assert_eq!(s.start_stream(cfg()), Ok(true));
    for _ in 0..3 {
        s.on_video_frame_sent(100);
    }
    s.on_audio_frame_sent(40);
    s.on_stats_tick(1000);
    s.on_video_frame_sent(100);
    assert!(s.stop_stream());
    assert_eq!(s.start_stream(cfg()), Ok(true));
    // The leftover interval is dropped; the session totals and last rates stay.
    let snap = s.get_stats();
    assert_eq!(snap.video_bps, 2400);
    assert_eq!(s.get_counters().video_frames_sent, 4);
    assert_eq!(s.get_counters().audio_frames_sent, 1);
    assert_eq!(s.get_counters().interval_video_bytes, 0);
    s.on_video_frame_sent(50);
    let ev = s.on_stats_tick(1000);
    assert_eq!(
        ev,
        StreamEvent::Stats { video_bps: 400, audio_bps: 0, rtt_us: 0, jitter_us: 0, fps_milli: 1000 }
    );
    assert_eq!(s.get_counters().video_frames_sent, 5);
}

#[test]
fn audio_frame_counts_only_audio() {
    let mut st = StreamStats::new();
    st.record_video_frame(10);
    st.record_audio_frame(30);
    assert_eq!(st.video_frames_sent, 1);
    assert_eq!(st.interval_video_bytes, 10);
    assert_eq!(st.audio_frames_sent, 1);
    assert_eq!(st.interval_audio_bytes, 30);
}
