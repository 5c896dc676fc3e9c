use jarust::config::{JaConfig, JanusAPI, ServerUrl};
use jarust::legacy_video_room::{
    LegacyVideoRoomAudioCodec, LegacyVideoRoomAudioCodecList, LegacyVideoRoomVideoCodec,
    LegacyVideoRoomVideoCodecList,
};

#[test]
fn config_keeps_its_settings() {
    let config = JaConfig::new("ws://localhost:8188/ws", Some("secret".to_string()), "janus");
    assert_eq!(config.uri(), "ws://localhost:8188/ws");
    assert_eq!(config.apisecret(), &Some("secret".to_string()));
    assert_eq!(config.root_namespace(), "janus");
}

#[test]
fn server_urls() {
    assert_eq!(ServerUrl::MultistreamWebsocket.url(), "ws://localhost:8188/ws");
    assert_eq!(ServerUrl::LegacyRestful.url(), "http://localhost:9088");
    assert_eq!(ServerUrl::LegacyWebsocket.api(), JanusAPI::WebSocket);
    assert_eq!(ServerUrl::MultistreamRestful.api(), JanusAPI::Restful);
    assert!(ServerUrl::LegacyRestful.is_legacy());
    assert!(!ServerUrl::LegacyRestful.is_multistream());
    assert!(ServerUrl::MultistreamWebsocket.is_multistream());
}

#[test]
fn codec_lists_drop_repeats() {
    let list = LegacyVideoRoomAudioCodecList::new(vec![
        LegacyVideoRoomAudioCodec::OPUS,
        LegacyVideoRoomAudioCodec::PCMU,
        LegacyVideoRoomAudioCodec::OPUS,
    ]);
    assert_eq!(list.codecs, vec![LegacyVideoRoomAudioCodec::OPUS, LegacyVideoRoomAudioCodec::PCMU]);
    assert_eq!(list.to_param(), "opus,pcmu");

    let list = LegacyVideoRoomVideoCodecList::new(vec![
        LegacyVideoRoomVideoCodec::VP9,
        LegacyVideoRoomVideoCodec::VP9,
        LegacyVideoRoomVideoCodec::VP8,
        LegacyVideoRoomVideoCodec::H264,
    ]);
    assert_eq!(list.to_param(), "vp9,vp8,h264");
    assert_eq!(LegacyVideoRoomVideoCodecList::new(vec![]).to_param(), "");
}
