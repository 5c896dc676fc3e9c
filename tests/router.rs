use jarust::protocol::{
    GenericEvent, JaHandleEvent, JaResponse, JsonNumber, JsonValue, ResponseType,
};
use jarust::router::Router;

fn ack() -> JaResponse {
    JaResponse {
        janus: ResponseType::Ack,
        transaction: None,
        session_id: None,
        sender: None,
        jsep: None,
    }
}

fn event(session_id: Option<u64>, sender: Option<u64>, e: GenericEvent) -> JaResponse {
    JaResponse {
        janus: ResponseType::Event(JaHandleEvent::GenericEvent(e)),
        transaction: None,
        session_id,
        sender,
        jsep: None,
    }
}

#[test]
fn test_basic_usage() {
    let mut router = Router::new("janus");
    let channel_one = router.add_subroute("one");
    let channel_two = router.add_subroute("two");

    assert!(router.pub_subroute("one", ack()).is_some());
    assert!(router.pub_subroute("two", ack()).is_some());
    assert!(router.pub_subroute("two", ack()).is_some());

    let size_one = router.take(channel_one).len();
    let size_two = router.take(channel_two).len();

    assert_eq!(size_one, 1);
    assert_eq!(size_two, 2);
}

#[test]
fn router_drops_frames_without_a_route() {
    let mut router = Router::new("janus");
    let one = router.add_subroute("one");
    assert_eq!(router.pub_subroute("three", ack()), None);
    assert_eq!(router.publish("janus/one", ack()), Some(one));
    assert_eq!(router.pending(one), 1);
}

#[test]
fn router_readding_a_route_starts_over() {
    let mut router = Router::new("janus");
    let one = router.add_subroute("one");
    router.pub_subroute("one", ack());
    assert_eq!(router.add_subroute("one"), one);
    assert_eq!(router.pending(one), 0);
    assert_eq!(router.len(), 1);
    assert_eq!(router.remove_subroute("one"), Some(one));
    assert_eq!(router.remove_subroute("one"), None);
    assert_eq!(router.len(), 0);
}

#[test]
fn router_routes_frames_in_wire_order() {
    let mut router = Router::new("janus");
    let session = router.add_subroute("7");
    let handle = router.add_subroute("7/9");
    router.route(event(Some(7), Some(9), GenericEvent::WebrtcUp));
    router.route(event(Some(7), None, GenericEvent::Timeout));
    router.route(event(Some(7), Some(9), GenericEvent::Hangup));
    router.route(event(None, Some(9), GenericEvent::Media));
    router.route(event(Some(8), Some(9), GenericEvent::Media));
    let for_handle = router.take(handle);
    assert_eq!(
        for_handle,
        vec![
            event(Some(7), Some(9), GenericEvent::WebrtcUp),
            event(Some(7), Some(9), GenericEvent::Hangup)
        ]
    );
    assert_eq!(router.take(session), vec![event(Some(7), None, GenericEvent::Timeout)]);
    assert!(router.take(handle).is_empty());
}

#[test]
fn path_from_response_uses_session_and_sender() {
    assert_eq!(
        Router::path_from_response(event(Some(12), Some(34), GenericEvent::Media)),
        Some("12/34".to_string())
    );
    assert_eq!(
        Router::path_from_response(event(Some(12), None, GenericEvent::Media)),
        Some("12".to_string())
    );
    assert_eq!(Router::path_from_response(event(None, Some(34), GenericEvent::Media)), None);
}

#[test]
fn path_from_request_uses_session_and_handle() {
    let number = |n: u64| JsonValue::Number(JsonNumber::PosInt(n));
    let request = JsonValue::Object(vec![
        ("janus".to_string(), JsonValue::String("message".to_string())),
        ("session_id".to_string(), number(12)),
        ("handle_id".to_string(), number(34)),
    ]);
    assert_eq!(Router::path_from_request(&request), Some("12/34".to_string()));
    let request = JsonValue::Object(vec![("session_id".to_string(), number(12))]);
    assert_eq!(Router::path_from_request(&request), Some("12".to_string()));
    let request = JsonValue::Object(vec![(
        "session_id".to_string(),
        JsonValue::String("12".to_string()),
    )]);
    assert_eq!(Router::path_from_request(&request), None);
    assert_eq!(Router::path_from_request(&JsonValue::Null), None);
}
