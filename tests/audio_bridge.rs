use jarust::audio_bridge::{AudioBridgeEvent, AudioBridgeParticipant, PluginEvent};
use jarust::error::Error;
use jarust::janus_id::JanusId;
use jarust::protocol::{
    GenericEvent, JaHandleEvent, JaResponse, Jsep, JsepType, JsonNumber, JsonValue, PluginData,
    PluginInnerData, ResponseType,
};

fn num(n: u64) -> JsonValue {
    JsonValue::Number(JsonNumber::PosInt(n))
}

fn text(s: &str) -> JsonValue {
    JsonValue::String(s.to_string())
}

fn obj(members: Vec<(&str, JsonValue)>) -> JsonValue {
    JsonValue::Object(members.into_iter().map(|(k, v)| (k.to_string(), v)).collect())
}

fn uint(n: u64) -> JanusId {
    JanusId::Uint(n.try_into().unwrap())
}

fn answer() -> Jsep {
    Jsep { jsep_type: JsepType::Answer, trickle: Some(false), sdp: "test_sdp".to_string() }
}

fn response(data: JsonValue, jsep: Option<Jsep>, transaction: Option<&str>) -> JaResponse {
    JaResponse {
        janus: ResponseType::Event(JaHandleEvent::PluginEvent {
            plugin_data: PluginData {
                plugin: "janus.plugin.audiobridge".to_string(),
                data: PluginInnerData::Data(data),
            },
        }),
        jsep,
        transaction: transaction.map(|t| t.to_string()),
        session_id: None,
        sender: None,
    }
}

#[test]
fn it_parse_room_joined() {
    let rsp = response(
        obj(vec![
            ("audiobridge", text("joined")),
            ("room", num(684657)),
            ("id", num(751378)),
            ("participants", JsonValue::Array(vec![])),
        ]),
        None,
        None,
    );
    let event: PluginEvent = rsp.try_into().unwrap();
    assert_eq!(
        event,
        PluginEvent::AudioBridgeEvent(AudioBridgeEvent::RoomJoined {
            id: uint(751378),
            room: uint(684657),
            participants: vec![],
        })
    );
}

#[test]
fn it_parse_room_joined_with_jsep_event() {
    let rsp = response(
        obj(vec![
            ("audiobridge", text("joined")),
            ("room", num(684657)),
            ("id", num(751378)),
            ("participants", JsonValue::Array(vec![])),
        ]),
        Some(answer()),
        None,
    );
    let event: PluginEvent = rsp.try_into().unwrap();
    assert_eq!(
        event,
        PluginEvent::AudioBridgeEvent(AudioBridgeEvent::RoomJoinedWithJsep {
            id: uint(751378),
            room: uint(684657),
            participants: vec![],
            jsep: answer(),
        })
    );
}

#[test]
fn it_parse_room_left() {
    let rsp = response(
        obj(vec![("audiobridge", text("left")), ("room", num(684657)), ("id", num(751378))]),
        None,
        None,
    );
    let event: PluginEvent = rsp.try_into().unwrap();
    assert_eq!(
        event,
        PluginEvent::AudioBridgeEvent(AudioBridgeEvent::RoomLeft {
            id: uint(751378),
            room: uint(684657),
        })
    );
}

#[test]
fn it_parse_room_changed() {
    let rsp = response(
        obj(vec![
            ("audiobridge", text("roomchanged")),
            ("room", num(61682)),
            ("id", num(38626)),
            ("participants", JsonValue::Array(vec![])),
        ]),
        None,
        None,
    );
    let event: PluginEvent = rsp.try_into().unwrap();
    assert_eq!(
        event,
        PluginEvent::AudioBridgeEvent(AudioBridgeEvent::RoomChanged {
            id: uint(38626),
            room: uint(61682),
            participants: vec![],
        })
    );
}

#[test]
fn it_parse_participants_updated() {
    let rsp = response(
        obj(vec![
            ("audiobridge", text("event")),
            ("room", num(6613848040355181645)),
            (
                "participants",
                JsonValue::Array(vec![obj(vec![
                    ("id", num(4975437903264518)),
                    ("setup", JsonValue::Bool(false)),
                    ("muted", JsonValue::Bool(false)),
                ])]),
            ),
        ]),
        None,
        None,
    );
    let event: PluginEvent = rsp.try_into().unwrap();
    assert_eq!(
        event,
        PluginEvent::AudioBridgeEvent(AudioBridgeEvent::ParticipantsUpdated {
            room: uint(6613848040355181645),
            participants: vec![AudioBridgeParticipant {
                id: uint(4975437903264518),
                setup: false,
                muted: false,
                display: None,
                suspended: None,
                talking: None,
                spatial_position: None
            }]
        })
    );
}

#[test]
fn it_parse_room_mute_updated() {
    let rsp = response(
        obj(vec![
            ("audiobridge", text("event")),
            ("room", num(6613848040355181645)),
            ("muted", JsonValue::Bool(true)),
        ]),
        None,
        None,
    );
    let event: PluginEvent = rsp.try_into().unwrap();
    assert_eq!(
        event,
        PluginEvent::AudioBridgeEvent(AudioBridgeEvent::RoomMuteUpdated {
            room: uint(6613848040355181645),
            muted: true
        })
    );
}

#[test]
fn it_parse_participant_kicked() {
    let rsp = response(
        obj(vec![
            ("audiobridge", text("event")),
            ("room", num(6613848040355181645)),
            ("kicked", num(4975437903264518)),
        ]),
        None,
        None,
    );
    let event: PluginEvent = rsp.try_into().unwrap();
    assert_eq!(
        event,
        PluginEvent::AudioBridgeEvent(AudioBridgeEvent::ParticipantKicked {
            room: uint(6613848040355181645),
            kicked: uint(4975437903264518)
        })
    );
}

#[test]
fn it_parse_participant_left() {
    let rsp = response(
        obj(vec![
            ("audiobridge", text("event")),
            ("room", num(6613848040355181645)),
            ("leaving", num(4975437903264518)),
        ]),
        None,
        None,
    );
    let event: PluginEvent = rsp.try_into().unwrap();
    assert_eq!(
        event,
        PluginEvent::AudioBridgeEvent(AudioBridgeEvent::ParticipantLeft {
            room: uint(6613848040355181645),
            leaving: uint(4975437903264518)
        })
    );
}

#[test]
fn it_parse_kicked_all_event() {
    let rsp = response(
        obj(vec![
            ("audiobridge", text("event")),
            ("room", num(6613848040355181645)),
            ("kicked_all", num(4975437903264518)),
        ]),
        None,
        None,
    );
    let event: PluginEvent = rsp.try_into().unwrap();
    assert_eq!(
        event,
        PluginEvent::AudioBridgeEvent(AudioBridgeEvent::KickedAll {
            room: uint(6613848040355181645),
            kicked_all: uint(4975437903264518)
        })
    );
}

#[test]
fn it_parse_result_event_when_contains_transaction() {
    let rsp = response(
        obj(vec![("audiobridge", text("event")), ("result", text("ok"))]),
        None,
        Some("test_transaction"),
    );
    let event: PluginEvent = rsp.try_into().unwrap();
    assert_eq!(
        event,
        PluginEvent::AudioBridgeEvent(AudioBridgeEvent::Result {
            transaction: "test_transaction".to_string(),
            result: "ok".to_string()
        })
    );
}

#[test]
fn it_parse_result_event_when_contains_transaction_and_jsep() {
    let rsp = response(
        obj(vec![("audiobridge", text("event")), ("result", text("ok"))]),
        Some(answer()),
        Some("test_transaction"),
    );
    let event: PluginEvent = rsp.try_into().unwrap();
    assert_eq!(
        event,
        PluginEvent::AudioBridgeEvent(AudioBridgeEvent::ResultWithJsep {
            transaction: "test_transaction".to_string(),
            result: "ok".to_string(),
            jsep: answer()
        })
    );
}

#[test]
fn it_parse_return_err_when_parsing_result_without_transaction_and_without_jsep() {
    let rsp = response(obj(vec![("audiobridge", text("event")), ("result", text("ok"))]), None, None);
    let event: Result<PluginEvent, Error> = rsp.try_into();
    assert!(matches!(event, Err(Error::IncompletePacket)));
}

#[test]
fn it_parse_return_err_when_parsing_result_with_jsep_and_without_transaction() {
    let rsp = response(
        obj(vec![("audiobridge", text("event")), ("result", text("ok"))]),
        Some(answer()),
        None,
    );
    let event: Result<PluginEvent, Error> = rsp.try_into();
    assert!(matches!(event, Err(Error::IncompletePacket)));
}

#[test]
fn events_it_parse_unsupported_event_as_other() {
    let data = || {
        obj(vec![
            ("audiobridge", text("jarust_rocks")),
            ("room", num(6613848040355181645)),
            ("jarust", text("rocks")),
        ])
    };
    let event: PluginEvent = response(data(), None, None).try_into().unwrap();
    assert_eq!(event, PluginEvent::AudioBridgeEvent(AudioBridgeEvent::Other(data())));
}

#[test]
fn audio_bridge_plugin_error_and_generic_events() {
    let rsp = JaResponse {
        janus: ResponseType::Event(JaHandleEvent::PluginEvent {
            plugin_data: PluginData {
                plugin: "janus.plugin.audiobridge".to_string(),
                data: PluginInnerData::Error { error_code: 485, error: "No such room".to_string() },
            },
        }),
        jsep: None,
        transaction: None,
        session_id: None,
        sender: None,
    };
    assert_eq!(
        PluginEvent::from_response(rsp).unwrap(),
        PluginEvent::AudioBridgeEvent(AudioBridgeEvent::Error {
            error_code: 485,
            error: "No such room".to_string()
        })
    );
    let detached = JaResponse {
        janus: ResponseType::Event(JaHandleEvent::GenericEvent(GenericEvent::Detached)),
        jsep: None,
        transaction: None,
        session_id: Some(1),
        sender: Some(2),
    };
    assert_eq!(
        PluginEvent::from_response(detached).unwrap(),
        PluginEvent::GenericEvent(GenericEvent::Detached)
    );
    let ack = JaResponse {
        janus: ResponseType::Ack,
        jsep: None,
        transaction: None,
        session_id: None,
        sender: None,
    };
    assert!(matches!(PluginEvent::from_response(ack), Err(Error::IncompletePacket)));
}

#[test]
fn audio_bridge_room_above_63_bits_is_other() {
    let data = || {
        obj(vec![
            ("audiobridge", text("left")),
            ("room", num(9223372036854775808)),
            ("id", num(1)),
        ])
    };
    let event = PluginEvent::from_response(response(data(), None, None)).unwrap();
    assert_eq!(event, PluginEvent::AudioBridgeEvent(AudioBridgeEvent::Other(data())));
}

#[test]
fn audio_bridge_string_ids_and_optional_members() {
    let rsp = response(
        obj(vec![
            ("audiobridge", text("joined")),
            ("room", text("lobby")),
            (
                "participants",
                JsonValue::Array(vec![obj(vec![
                    ("id", text("alice")),
                    ("display", text("Alice")),
                    ("setup", JsonValue::Bool(true)),
                    ("muted", JsonValue::Bool(false)),
                    ("talking", JsonValue::Null),
                    ("spatial_position", num(50)),
                ])]),
            ),
        ]),
        None,
        None,
    );
    assert_eq!(
        PluginEvent::from_response(rsp).unwrap(),
        PluginEvent::AudioBridgeEvent(AudioBridgeEvent::ParticipantsJoined {
            room: JanusId::String("lobby".to_string()),
            participants: vec![AudioBridgeParticipant {
                id: JanusId::String("alice".to_string()),
                display: Some("Alice".to_string()),
                setup: true,
                muted: false,
                suspended: None,
                talking: None,
                spatial_position: Some(50),
            }],
        })
    );
}
