use jarust::correlator::Correlator;
use jarust::error::{Error, JanusError};
use jarust::multiplex::{
    decode_id, decode_plugin_response, dispatch, handle_step, wait_step, HandleInput,
    HandleState, HandleTransition, WaitMode, WaitStep,
};
use jarust::protocol::{
    GenericEvent, JaHandleEvent, JaResponse, JaSuccessProtocol, JsonValue, PluginData,
    PluginInnerData, ResponseType,
};

fn frame(janus: ResponseType, transaction: Option<&str>) -> JaResponse {
    JaResponse {
        janus,
        transaction: transaction.map(|t| t.to_string()),
        session_id: Some(1),
        sender: Some(2),
        jsep: None,
    }
}

fn plugin_event(data: PluginInnerData) -> ResponseType {
    ResponseType::Event(JaHandleEvent::PluginEvent {
        plugin_data: PluginData { plugin: "janus.plugin.echotest".to_string(), data },
    })
}

#[test]
fn correlator_resolves_each_transaction_once() {
    let mut correlator = Correlator::new();
    assert!(correlator.register("abc".to_string(), 1).is_ok());
    assert_eq!(correlator.register("abc".to_string(), 2), Err(2));
    assert!(correlator.register("def".to_string(), 3).is_ok());
    assert_eq!(correlator.len(), 2);
    assert_eq!(correlator.take("abc"), Some(1));
    assert_eq!(correlator.take("abc"), None);
    assert!(!correlator.is_registered("abc"));
    assert!(correlator.is_registered("def"));
    assert_eq!(correlator.len(), 1);
}

#[test]
fn wait_for_response_swallows_the_ack() {
    let ack = frame(ResponseType::Ack, Some("t"));
    let result = frame(plugin_event(PluginInnerData::Data(JsonValue::Null)), Some("t"));
    assert_eq!(wait_step(WaitMode::Response, &ack), WaitStep::Continue);
    assert_eq!(wait_step(WaitMode::Response, &result), WaitStep::Resolve);
    assert_eq!(wait_step(WaitMode::Ack, &ack), WaitStep::Resolve);
    let hangup = frame(ResponseType::Event(JaHandleEvent::GenericEvent(GenericEvent::Hangup)), Some("t"));
    assert_eq!(wait_step(WaitMode::Response, &hangup), WaitStep::Continue);
    let error = frame(ResponseType::Error { code: 458, reason: "gone".to_string() }, Some("t"));
    assert_eq!(wait_step(WaitMode::Response, &error), WaitStep::Resolve);
}

#[test]
fn dispatch_completes_registered_slots_and_routes_events() {
    let mut correlator = Correlator::new();
    correlator.register("t".to_string(), (WaitMode::Ack, ())).unwrap();
    correlator.register("r".to_string(), (WaitMode::Response, ())).unwrap();
    let ack = frame(ResponseType::Ack, Some("t"));
    let d = dispatch(&ack, &correlator);
    assert!(d.complete);
    assert!(!d.route);
    // an interim ack does not answer a wait for a response
    let interim = frame(ResponseType::Ack, Some("r"));
    let d = dispatch(&interim, &correlator);
    assert!(!d.complete && !d.route);
    let answer = frame(plugin_event(PluginInnerData::Data(JsonValue::Null)), Some("r"));
    let d = dispatch(&answer, &correlator);
    assert!(d.complete && d.route);
    let stray = frame(ResponseType::Ack, Some("u"));
    let d = dispatch(&stray, &correlator);
    assert!(!d.complete && !d.route);
    let event = frame(plugin_event(PluginInnerData::Data(JsonValue::Null)), None);
    let d = dispatch(&event, &correlator);
    assert!(!d.complete && d.route);
}

#[test]
fn decode_id_reads_success_data() {
    let ok = frame(ResponseType::Success(JaSuccessProtocol::Data { id: 77 }), Some("t"));
    assert_eq!(decode_id(ok).map(u64::from).unwrap(), 77);
    let big = frame(ResponseType::Success(JaSuccessProtocol::Data { id: u64::MAX }), Some("t"));
    assert!(matches!(decode_id(big), Err(Error::UnexpectedResponse)));
    let err = frame(ResponseType::Error { code: 458, reason: "No such session".to_string() }, None);
    match decode_id(err) {
        Err(Error::JanusError { error, reason }) => {
            assert_eq!(error, JanusError::SessionNotFound);
            assert_eq!(reason, "No such session");
        }
        other => panic!("unexpected {:?}", other),
    }
    assert!(matches!(decode_id(frame(ResponseType::Ack, None)), Err(Error::UnexpectedResponse)));
}

#[test]
fn decode_plugin_response_reads_data_and_errors() {
    let data = || JsonValue::Object(vec![("echotest".to_string(), JsonValue::String("event".to_string()))]);
    let ok = frame(plugin_event(PluginInnerData::Data(data())), Some("t"));
    assert_eq!(decode_plugin_response(ok).unwrap(), data());
    let failed = frame(
        plugin_event(PluginInnerData::Error { error_code: 455, error: "bad".to_string() }),
        Some("t"),
    );
    match decode_plugin_response(failed) {
        Err(Error::PluginResponseError { error_code, error }) => {
            assert_eq!(error_code, 455);
            assert_eq!(error, "bad");
        }
        other => panic!("unexpected {:?}", other),
    }
    let success = frame(
        ResponseType::Success(JaSuccessProtocol::Plugin {
            plugin_data: PluginData {
                plugin: "janus.plugin.videoroom".to_string(),
                data: PluginInnerData::Data(JsonValue::Bool(true)),
            },
        }),
        Some("t"),
    );
    assert_eq!(decode_plugin_response(success).unwrap(), JsonValue::Bool(true));
    assert!(matches!(
        decode_plugin_response(frame(ResponseType::Ack, None)),
        Err(Error::UnexpectedResponse)
    ));
}

#[test]
fn handle_lifecycle() {
    let detached = HandleTransition {
        next: HandleState::Detached,
        deliver: Some(GenericEvent::Detached),
        close: true,
    };
    assert_eq!(handle_step(HandleState::Attached, HandleInput::DetachAcked), detached);
    assert_eq!(handle_step(HandleState::Attached, HandleInput::SessionDestroyed), detached);
    assert_eq!(
        handle_step(HandleState::Attached, HandleInput::Hangup),
        HandleTransition { next: HandleState::Attached, deliver: Some(GenericEvent::Hangup), close: false }
    );
    assert_eq!(
        handle_step(HandleState::Detached, HandleInput::SessionDestroyed),
        HandleTransition { next: HandleState::Detached, deliver: None, close: false }
    );
}
