use slump::webrtc::{audio_codec, ice_servers, video_codec, CredentialKind};

#[test]
fn ice_server_list_stun_then_turn() {
    let list = ice_servers(
        vec!["stun:stun.example.org:19302".to_string(), "stun:b".to_string()],
        vec![
            ("turn:t".to_string(), Some("user".to_string()), Some("pw".to_string())),
            ("turn:u".to_string(), None, None),
        ],
    );
    assert_eq!(list.len(), 4);
    assert_eq!(list[0].urls, vec!["stun:stun.example.org:19302".to_string()]);
    assert_eq!(list[0].credential_type, CredentialKind::Unspecified);
    assert_eq!(list[1].urls, vec!["stun:b".to_string()]);
    assert_eq!(list[2].urls, vec!["turn:t".to_string()]);
    assert_eq!(list[2].username, "user");
    assert_eq!(list[2].credential, "pw");
    assert_eq!(list[2].credential_type, CredentialKind::Password);
    assert_eq!(list[3].username, "");
    assert_eq!(list[3].credential, "");
}

#[test]
fn ice_server_list_empty() {
    assert!(ice_servers(vec![], vec![]).is_empty());
}

#[test]
fn codec_parameters_are_pinned() {
    let v = video_codec();
    assert_eq!(v.mime_type, "video/VP8");
    assert_eq!(v.clock_rate, 90000);
    assert_eq!(v.payload_type, 96);
    let a = audio_codec();
    assert_eq!(a.mime_type, "audio/opus");
    assert_eq!(a.clock_rate, 48000);
    assert_eq!(a.channels, 2);
    assert_eq!(a.sdp_fmtp_line, "minptime=10;useinbandfec=1");
    assert_eq!(a.payload_type, 111);
}
