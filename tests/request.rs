use jarust::protocol::{JaResponse, Jsep, JsepType, JsonNumber, JsonValue, ResponseType};
use jarust::request::{attach_request, build_request, jsep_to_json, keepalive_request};

fn get<'a>(v: &'a JsonValue, key: &str) -> Option<&'a JsonValue> {
    v.get(key)
}

#[test]
fn request_envelope_carries_what_is_given() {
    let jsep = Jsep { jsep_type: JsepType::Offer, trickle: Some(true), sdp: "v=0".to_string() };
    let body = JsonValue::Object(vec![("request".to_string(), JsonValue::String("list".to_string()))]);
    let request = build_request(
        "message",
        "txn-1",
        Some(10),
        Some(20),
        &Some("hunter2".to_string()),
        Some(body),
        Some(jsep),
    );
    assert_eq!(get(&request, "janus"), Some(&JsonValue::String("message".to_string())));
    assert_eq!(get(&request, "transaction"), Some(&JsonValue::String("txn-1".to_string())));
    assert_eq!(get(&request, "session_id"), Some(&JsonValue::Number(JsonNumber::PosInt(10))));
    assert_eq!(get(&request, "handle_id"), Some(&JsonValue::Number(JsonNumber::PosInt(20))));
    assert_eq!(
        get(&request, "apisecret"),
        Some(&JsonValue::String("hunter2".to_string()))
    );
    assert_eq!(
        get(&request, "body"),
        Some(&JsonValue::Object(vec![(
            "request".to_string(),
            JsonValue::String("list".to_string())
        )]))
    );
    assert_eq!(
        get(&request, "jsep"),
        Some(&JsonValue::Object(vec![
            ("type".to_string(), JsonValue::String("offer".to_string())),
            ("sdp".to_string(), JsonValue::String("v=0".to_string())),
            ("trickle".to_string(), JsonValue::Bool(true)),
        ]))
    );
}

#[test]
fn request_envelope_leaves_out_what_is_not_given() {
    let request = build_request("info", "t", None, None, &None, None, None);
    assert_eq!(
        request,
        JsonValue::Object(vec![
            ("janus".to_string(), JsonValue::String("info".to_string())),
            ("transaction".to_string(), JsonValue::String("t".to_string())),
        ])
    );
}

#[test]
fn keepalive_envelope() {
    let request = keepalive_request(99, "k", &None);
    assert_eq!(
        request,
        JsonValue::Object(vec![
            ("janus".to_string(), JsonValue::String("keepalive".to_string())),
            ("transaction".to_string(), JsonValue::String("k".to_string())),
            ("session_id".to_string(), JsonValue::Number(JsonNumber::PosInt(99))),
        ])
    );
}

#[test]
fn jsep_round_trips_through_a_frame() {
    let jsep = || Jsep { jsep_type: JsepType::Answer, trickle: None, sdp: "sdp".to_string() };
    let frame = JsonValue::Object(vec![
        ("janus".to_string(), JsonValue::String("ack".to_string())),
        ("jsep".to_string(), jsep_to_json(&jsep())),
    ]);
    let frame = JaResponse::from_json(frame).unwrap();
    assert_eq!(frame.janus, ResponseType::Ack);
    assert_eq!(frame.jsep, Some(jsep()));
}

#[test]
fn attach_envelope() {
    let request = attach_request("a1", 42, "janus.plugin.echotest", &None);
    assert_eq!(
        request,
        JsonValue::Object(vec![
            ("janus".to_string(), JsonValue::String("attach".to_string())),
            ("transaction".to_string(), JsonValue::String("a1".to_string())),
            ("session_id".to_string(), JsonValue::Number(JsonNumber::PosInt(42))),
            ("plugin".to_string(), JsonValue::String("janus.plugin.echotest".to_string())),
        ])
    );
}
