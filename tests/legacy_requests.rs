use jarust::janus_id::JanusId;
use jarust::legacy_video_room::{
    decode_created_rsp, decode_exists_rsp, exists_body, kick_body, publisher_join_body,
    start_body, subscriber_join_body, LegacyVideoRoomCreatedRsp, LegacyVideoRoomExistsRsp,
};
use jarust::protocol::{JsonNumber, JsonValue};
use jarust::request::{janus_id_to_json, with_request};

fn num(n: u64) -> JsonValue {
    JsonValue::Number(JsonNumber::PosInt(n))
}

fn text(s: &str) -> JsonValue {
    JsonValue::String(s.to_string())
}

fn obj(members: Vec<(&str, JsonValue)>) -> JsonValue {
    JsonValue::Object(members.into_iter().map(|(k, v)| (k.to_string(), v)).collect())
}

fn uint(n: u64) -> JanusId {
    JanusId::Uint(n.try_into().unwrap())
}

#[test]
fn janus_id_json_values() {
    assert_eq!(janus_id_to_json(&uint(8146468)), num(8146468));
    assert_eq!(janus_id_to_json(&JanusId::String("lobby".to_string())), text("lobby"));
}

#[test]
fn legacy_exists_and_start_bodies() {
    assert_eq!(
        exists_body(&uint(1234)),
        obj(vec![("request", text("exists")), ("room", num(1234))])
    );
    assert_eq!(start_body(), obj(vec![("request", text("start"))]));
}

#[test]
fn legacy_kick_body() {
    assert_eq!(
        kick_body(&uint(1), &uint(2), Some("pw".to_string())),
        obj(vec![
            ("request", text("kick")),
            ("room", num(1)),
            ("id", num(2)),
            ("secret", text("pw")),
        ])
    );
    assert_eq!(
        kick_body(&uint(1), &JanusId::String("bob".to_string()), None),
        obj(vec![("request", text("kick")), ("room", num(1)), ("id", text("bob"))])
    );
}

#[test]
fn legacy_join_bodies() {
    assert_eq!(
        publisher_join_body(&uint(1), Some(&uint(7)), Some("Alice".to_string()), None),
        obj(vec![
            ("request", text("join")),
            ("ptype", text("publisher")),
            ("room", num(1)),
            ("id", num(7)),
            ("display", text("Alice")),
        ])
    );
    assert_eq!(
        subscriber_join_body(&uint(1), &uint(7), Some(99)),
        obj(vec![
            ("request", text("join")),
            ("ptype", text("subscriber")),
            ("room", num(1)),
            ("feed", num(7)),
            ("private_id", num(99)),
        ])
    );
}

#[test]
fn with_request_sets_or_replaces_the_request() {
    let params = obj(vec![("room", num(5)), ("request", text("old")), ("pin", text("1"))]);
    assert_eq!(
        with_request(params, "create"),
        obj(vec![("room", num(5)), ("request", text("create")), ("pin", text("1"))])
    );
    assert_eq!(
        with_request(obj(vec![("room", num(5))]), "create"),
        obj(vec![("room", num(5)), ("request", text("create"))])
    );
    assert_eq!(with_request(JsonValue::Null, "list"), obj(vec![("request", text("list"))]));
}

#[test]
fn legacy_reply_decoders() {
    assert_eq!(
        decode_exists_rsp(&obj(vec![
            ("videoroom", text("success")),
            ("room", num(1234)),
            ("exists", JsonValue::Bool(true)),
        ])),
        Some(LegacyVideoRoomExistsRsp { room: uint(1234), exists: true })
    );
    assert_eq!(decode_exists_rsp(&obj(vec![("room", num(1234))])), None);
    assert_eq!(
        decode_created_rsp(&obj(vec![
            ("videoroom", text("created")),
            ("room", text("lobby")),
            ("permanent", JsonValue::Bool(false)),
        ])),
        Some(LegacyVideoRoomCreatedRsp {
            room: JanusId::String("lobby".to_string()),
            permanent: false
        })
    );
}
