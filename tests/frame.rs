use jarust::protocol::{
    GenericEvent, JaHandleEvent, JaResponse, JaSuccessProtocol, JsonNumber, JsonValue,
    ResponseType,
};

fn num(n: u64) -> JsonValue {
    JsonValue::Number(JsonNumber::PosInt(n))
}

fn text(s: &str) -> JsonValue {
    JsonValue::String(s.to_string())
}

fn obj(members: Vec<(&str, JsonValue)>) -> JsonValue {
    JsonValue::Object(members.into_iter().map(|(k, v)| (k.to_string(), v)).collect())
}

#[test]
fn frame_ack_with_transaction() {
    let frame = JaResponse::from_json(obj(vec![
        ("janus", text("ack")),
        ("transaction", text("abc")),
        ("session_id", num(5)),
    ]))
    .unwrap();
    assert_eq!(frame.janus, ResponseType::Ack);
    assert_eq!(frame.transaction, Some("abc".to_string()));
    assert_eq!(frame.session_id, Some(5));
    assert_eq!(frame.sender, None);
}

#[test]
fn frame_success_with_id() {
    let frame = JaResponse::from_json(obj(vec![
        ("janus", text("success")),
        ("transaction", text("t")),
        ("data", obj(vec![("id", num(8146468))])),
    ]))
    .unwrap();
    assert_eq!(frame.janus, ResponseType::Success(JaSuccessProtocol::Data { id: 8146468 }));
}

#[test]
fn frame_error_with_code_and_reason() {
    let frame = JaResponse::from_json(obj(vec![
        ("janus", text("error")),
        ("error", obj(vec![("code", num(458)), ("reason", text("No such session"))])),
    ]))
    .unwrap();
    assert_eq!(
        frame.janus,
        ResponseType::Error { code: 458, reason: "No such session".to_string() }
    );
}

#[test]
fn frame_generic_events() {
    for (verb, event) in [
        ("detached", GenericEvent::Detached),
        ("hangup", GenericEvent::Hangup),
        ("media", GenericEvent::Media),
        ("timeout", GenericEvent::Timeout),
        ("webrtcup", GenericEvent::WebrtcUp),
        ("slowlink", GenericEvent::SlowLink),
        ("trickle", GenericEvent::Trickle),
    ] {
        let frame = JaResponse::from_json(obj(vec![
            ("janus", text(verb)),
            ("session_id", num(1)),
            ("sender", num(2)),
        ]))
        .unwrap();
        assert_eq!(frame.janus, ResponseType::Event(JaHandleEvent::GenericEvent(event)));
    }
}

#[test]
fn frame_refuses_what_is_no_frame() {
    assert_eq!(JaResponse::from_json(obj(vec![("janus", text("unheard_of"))])), None);
    assert_eq!(JaResponse::from_json(obj(vec![("transaction", text("t"))])), None);
    assert_eq!(
        JaResponse::from_json(obj(vec![("janus", text("ack")), ("session_id", text("1"))])),
        None
    );
    assert_eq!(JaResponse::from_json(obj(vec![("janus", text("event"))])), None);
    assert_eq!(JaResponse::from_json(JsonValue::Null), None);
}
