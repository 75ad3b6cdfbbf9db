use slump::signal::{decode_signal, encode_signal};
use slump::webrtc::{ConnectionState, IceCandidate, SignalAction, SignalMessage, WebRTCTransport};
use slump::{SlumpStream, StreamConfig};

fn running() -> SlumpStream {
    let mut s = SlumpStream::new();
    let cfg = StreamConfig { width: 1280, height: 720, fps: 30, bitrate: 2_000_000 };
    assert_eq!(s.start_stream(cfg), Ok(true));
    s
}

#[test]
fn round_trip_offer_and_answer() {
    for m in [
        SignalMessage::Offer { sdp: "v=0\r\no=- 46117 2 IN IP4 127.0.0.1\r\n".to_string() },
        SignalMessage::Answer { sdp: "quote \" back \\ slash / tab\t".to_string() },
        SignalMessage::Answer { sdp: String::new() },
    ] {
        let text = encode_signal(&m);
        assert_eq!(decode_signal(&text), Some(m));
    }
}

#[test]
fn round_trip_ice_all_shapes() {
    let shapes = [
        (Some("0".to_string()), Some(0u16)),
        (None, Some(65535u16)),
        (Some("audio".to_string()), None),
        (None, None),
    ];
    for (mid, idx) in shapes {
        let m = SignalMessage::Ice {
            candidate: IceCandidate {
                candidate: "candidate:1 1 UDP 2130706431 10.0.0.1 5000 typ host".to_string(),
                sdp_mid: mid,
                sdp_m_line_index: idx,
            },
        };
        let text = encode_signal(&m);
        assert_eq!(decode_signal(&text), Some(m));
    }
}

#[test]
fn round_trip_error_with_control_and_unicode() {
    let m = SignalMessage::Error("bell\u{7} nul\u{0} é ünïcode 🎥".to_string());
    let text = encode_signal(&m);
    assert!(text.contains("\\u0007"));
    assert!(text.contains("\\u0000"));
    assert_eq!(decode_signal(&text), Some(m));
}

#[test]
fn encoding_is_compact_json() {
    let m = SignalMessage::Ice {
        candidate: IceCandidate {
            candidate: "c".to_string(),
            sdp_mid: Some("0".to_string()),
            sdp_m_line_index: Some(12),
        },
    };
    assert_eq!(
        encode_signal(&m),
        "{\"Ice\":{\"candidate\":{\"candidate\":\"c\",\"sdp_mid\":\"0\",\"sdp_m_line_index\":12}}}"
    );
    assert_eq!(encode_signal(&SignalMessage::Error("x\ny".to_string())), "{\"Error\":\"x\\ny\"}");
    assert_eq!(
        encode_signal(&SignalMessage::Offer { sdp: "a".to_string() }),
        "{\"Offer\":{\"sdp\":\"a\"}}"
    );
}

#[test]
fn decode_accepts_whitespace_and_escapes() {
    let text = " { \"Answer\" : {\n\t\"sdp\" : \"a\\r\\nb\\/c\\u0041\" } } \n";
    assert_eq!(decode_signal(text), Some(SignalMessage::Answer { sdp: "a\r\nb/cA".to_string() }));
}

#[test]
fn decode_rejects_malformed_text() {
    for text in [
        "",
        "not json",
        "{}",
        "{\"Unknown\":{\"sdp\":\"x\"}}",
        "{\"Offer\":{\"sdp\":\"unterminated}}",
        "{\"Offer\":{\"sdp\":\"x\"}} trailing",
        "{\"Ice\":{\"candidate\":{\"candidate\":\"c\",\"sdp_mid\":null,\"sdp_m_line_index\":70000}}}",
        "{\"Error\":\"raw\nnewline\"}",
        "{\"Ice\":{\"candidate\":{\"candidate\":\"c\",\"sdp_mid\":null,\"sdp_m_line_index\":00}}}",
        "{\"Ice\":{\"candidate\":{\"candidate\":\"c\",\"sdp_mid\":null,\"sdp_m_line_index\":012}}}",
        "{\"Error\":\"bad \\q escape\"}",
    ] {
        assert_eq!(decode_signal(text), None, "{text:?}");
    }
}

#[test]
fn ice_text_before_negotiation_is_accepted_quietly() {
    let mut s = running();
    let text = "{\"Ice\":{\"candidate\":{\"candidate\":\"candidate:1 1 UDP ...\",\"sdp_mid\":\"0\",\"sdp_m_line_index\":0}}}";
    let a = s.handle_signal(text);
    assert_eq!(
        a,
        SignalAction::AddIceCandidate(IceCandidate {
            candidate: "candidate:1 1 UDP ...".to_string(),
            sdp_mid: Some("0".to_string()),
            sdp_m_line_index: Some(0),
        })
    );
    assert!(s.is_running());
    assert!(!s.is_connected(0));
}

#[test]
fn malformed_text_leaves_connection_state() {
    let mut t = WebRTCTransport::new();
    assert_eq!(t.handle_signal(decode_signal("{\"Answer\":")), SignalAction::Ignore);
    assert_eq!(t.connection_state(), ConnectionState::New);
    let mut s = running();
    assert_eq!(s.handle_signal("garbage"), SignalAction::Ignore);
    assert_eq!(s.on_liveness(1), Some(slump::StreamEvent::Connected));
    assert_eq!(s.handle_signal("{\"Nope\":1}"), SignalAction::Ignore);
    assert!(s.is_connected(2));
}

#[test]
fn answer_text_sets_remote_description() {
    let mut s = running();
    let a = s.handle_signal("{\"Answer\":{\"sdp\":\"v=0\"}}");
    assert_eq!(a, SignalAction::SetRemoteAnswer("v=0".to_string()));
    let a = s.handle_signal("{\"Offer\":{\"sdp\":\"v=0\"}}");
    assert_eq!(a, SignalAction::Ignore);
    let a = s.handle_signal("{\"Error\":\"peer failed\"}");
    assert_eq!(a, SignalAction::Warn("peer failed".to_string()));
}

#[test]
fn leading_zero_index_is_dropped_without_state_change() {
    let mut t = WebRTCTransport::new();
    let text = "{\"Ice\":{\"candidate\":{\"candidate\":\"c\",\"sdp_mid\":\"0\",\"sdp_m_line_index\":00}}}";
    assert_eq!(t.handle_signal(decode_signal(text)), SignalAction::Ignore);
    assert_eq!(t.connection_state(), ConnectionState::New);
    let zero = "{\"Ice\":{\"candidate\":{\"candidate\":\"c\",\"sdp_mid\":null,\"sdp_m_line_index\":0}}}";
    assert!(decode_signal(zero).is_some());
    let ten = "{\"Ice\":{\"candidate\":{\"candidate\":\"c\",\"sdp_mid\":null,\"sdp_m_line_index\":10}}}";
    assert!(decode_signal(ten).is_some());
}
