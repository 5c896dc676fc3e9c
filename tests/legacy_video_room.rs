use jarust::janus_id::JanusId;
use jarust::legacy_video_room::{LegacyVideoRoomEvent, LegacyVideoRoomPublisher, PluginEvent};
use jarust::protocol::{JaResponse, Jsep, JsepType, JsonNumber, JsonValue};

fn num(n: u64) -> JsonValue {
    JsonValue::Number(JsonNumber::PosInt(n))
}

fn text(s: &str) -> JsonValue {
    JsonValue::String(s.to_string())
}

fn obj(members: Vec<(&str, JsonValue)>) -> JsonValue {
    JsonValue::Object(members.into_iter().map(|(k, v)| (k.to_string(), v)).collect())
}

fn uint(n: u64) -> JanusId {
    JanusId::Uint(n.try_into().unwrap())
}

/// An `event` frame of the video room plugin with `data`, and `jsep` where given.
fn raw_event(data: JsonValue, jsep: Option<JsonValue>) -> JsonValue {
    let mut members = vec![
        ("janus", text("event")),
        ("session_id", num(7323526979899781)),
        ("sender", num(7967725809069290)),
    ];
    if let Some(jsep) = jsep {
        members.push(("jsep", jsep));
    }
    members.push((
        "plugindata",
        obj(vec![("plugin", text("janus.plugin.videoroom")), ("data", data)]),
    ));
    obj(members)
}

fn parse(raw: JsonValue) -> PluginEvent {
    JaResponse::from_json(raw).unwrap().try_into().unwrap()
}

#[test]
fn parse_joined_with_jsep() {
    let event = parse(raw_event(
        obj(vec![
            ("videoroom", text("joined")),
            ("room", num(8146468)),
            ("description", text("A brand new description!")),
            ("id", num(1337)),
            ("publishers", JsonValue::Array(vec![])),
        ]),
        Some(obj(vec![("type", text("answer")), ("sdp", text("test_sdp"))])),
    ));
    assert_eq!(
        event,
        PluginEvent::LegacyVideoRoomEvent(LegacyVideoRoomEvent::RoomJoined {
            room: uint(8146468),
            description: Some("A brand new description!".to_string()),
            id: uint(1337),
            private_id: None,
            publishers: vec![],
            jsep: Some(Jsep {
                jsep_type: JsepType::Answer,
                sdp: "test_sdp".to_string(),
                trickle: None
            })
        })
    )
}

#[test]
fn parse_joined_without_jsep() {
    let event = parse(raw_event(
        obj(vec![
            ("videoroom", text("joined")),
            ("room", num(8146468)),
            ("description", text("A brand new description!")),
            ("id", num(1337)),
            ("private_id", num(4113762326)),
            ("publishers", JsonValue::Array(vec![])),
        ]),
        None,
    ));
    assert_eq!(
        event,
        PluginEvent::LegacyVideoRoomEvent(LegacyVideoRoomEvent::RoomJoined {
            room: uint(8146468),
            description: Some("A brand new description!".to_string()),
            id: uint(1337),
            private_id: Some(4113762326),
            publishers: vec![],
            jsep: None
        })
    )
}

#[test]
fn parse_new_publishers() {
    let event = parse(raw_event(
        obj(vec![
            ("videoroom", text("event")),
            ("room", num(8146468)),
            ("private_id", num(4113762326)),
            (
                "publishers",
                JsonValue::Array(vec![obj(vec![
                    ("id", num(1337)),
                    ("display", text("A brand new publisher")),
                    ("substream", num(1)),
                ])]),
            ),
        ]),
        None,
    ));
    assert_eq!(
        event,
        PluginEvent::LegacyVideoRoomEvent(LegacyVideoRoomEvent::NewPublishers {
            room: uint(8146468),
            publishers: vec![LegacyVideoRoomPublisher {
                id: uint(1337),
                display: Some("A brand new publisher".to_string()),
                substream: Some(1)
            }]
        })
    )
}

#[test]
fn parse_subscriber_attached() {
    let event = parse(raw_event(
        obj(vec![
            ("videoroom", text("attached")),
            ("id", num(1337)),
            ("room", num(8146468)),
            ("display", text("Test Display Name")),
        ]),
        Some(obj(vec![("type", text("offer")), ("sdp", text("test_subscriber_sdp"))])),
    ));
    assert_eq!(
        event,
        PluginEvent::LegacyVideoRoomEvent(LegacyVideoRoomEvent::SubscriberAttached {
            room: uint(8146468),
            id: uint(1337),
            display: Some("Test Display Name".to_string()),
            jsep: Jsep {
                jsep_type: JsepType::Offer,
                sdp: "test_subscriber_sdp".to_string(),
                trickle: None
            }
        })
    );
}

#[test]
fn parse_slow_link() {
    let event = parse(raw_event(obj(vec![("videoroom", text("slow_link"))]), None));
    assert_eq!(event, PluginEvent::LegacyVideoRoomEvent(LegacyVideoRoomEvent::SlowLink));
}

#[test]
fn parse_configured() {
    let event = parse(raw_event(
        obj(vec![
            ("videoroom", text("event")),
            ("room", num(8146468)),
            ("configured", text("ok")),
        ]),
        Some(obj(vec![("type", text("answer")), ("sdp", text("test_configured_sdp"))])),
    ));
    assert_eq!(
        event,
        PluginEvent::LegacyVideoRoomEvent(LegacyVideoRoomEvent::Configured {
            room: uint(8146468),
            jsep: Some(Jsep {
                jsep_type: JsepType::Answer,
                sdp: "test_configured_sdp".to_string(),
                trickle: None
            })
        })
    );
}

#[test]
fn parse_unpublished() {
    let event = parse(raw_event(
        obj(vec![
            ("videoroom", text("event")),
            ("room", num(8146468)),
            ("unpublished", num(1337)),
        ]),
        None,
    ));
    assert_eq!(
        event,
        PluginEvent::LegacyVideoRoomEvent(LegacyVideoRoomEvent::Unpublished {
            room: uint(8146468),
            unpublished: uint(1337)
        })
    );
}

#[test]
fn parse_started() {
    let event = parse(raw_event(
        obj(vec![("videoroom", text("event")), ("room", num(8146468)), ("started", text("ok"))]),
        None,
    ));
    assert_eq!(
        event,
        PluginEvent::LegacyVideoRoomEvent(LegacyVideoRoomEvent::SubscriberStarted {
            room: uint(8146468),
            started: "ok".to_string()
        })
    );
}

#[test]
fn parse_leaving() {
    let event = parse(raw_event(
        obj(vec![
            ("videoroom", text("event")),
            ("room", num(8146468)),
            ("leaving", text("ok")),
            ("reason", text("kicked")),
        ]),
        None,
    ));
    assert_eq!(
        event,
        PluginEvent::LegacyVideoRoomEvent(LegacyVideoRoomEvent::Leaving {
            room: uint(8146468),
            reason: "kicked".to_string()
        })
    );
}

#[test]
fn parse_kicked() {
    let event = parse(raw_event(
        obj(vec![("videoroom", text("event")), ("room", num(8146468)), ("kicked", num(1337))]),
        None,
    ));
    assert_eq!(
        event,
        PluginEvent::LegacyVideoRoomEvent(LegacyVideoRoomEvent::Kicked {
            room: uint(8146468),
            participant: uint(1337)
        })
    );
}

#[test]
fn parse_error() {
    let event = parse(raw_event(
        obj(vec![("error_code", num(426)), ("error", text("No such room"))]),
        None,
    ));
    assert_eq!(
        event,
        PluginEvent::LegacyVideoRoomEvent(LegacyVideoRoomEvent::Error {
            error_code: 426,
            error: "No such room".to_string()
        })
    );
}

#[test]
fn subscriber_attached_without_jsep_is_other() {
    let data = || {
        obj(vec![("videoroom", text("attached")), ("id", num(1)), ("room", num(2))])
    };
    let event = parse(raw_event(data(), None));
    assert_eq!(event, PluginEvent::LegacyVideoRoomEvent(LegacyVideoRoomEvent::Other(data())));
}
