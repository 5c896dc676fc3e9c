use jarust::janus_id::JanusId;
use jarust::protocol::{
    JaHandleEvent, JaResponse, JsonNumber, JsonValue, PluginData, PluginInnerData, ResponseType,
};
use jarust::streaming::{PluginEvent, StreamingEvent};

fn obj(members: Vec<(&str, JsonValue)>) -> JsonValue {
    JsonValue::Object(members.into_iter().map(|(k, v)| (k.to_string(), v)).collect())
}

fn response(data: PluginInnerData) -> JaResponse {
    JaResponse {
        janus: ResponseType::Event(JaHandleEvent::PluginEvent {
            plugin_data: PluginData { plugin: "janus.plugin.streaming".to_string(), data },
        }),
        jsep: None,
        transaction: None,
        session_id: None,
        sender: None,
    }
}

#[test]
fn it_parse_mountpoint_created() {
    let rsp = response(PluginInnerData::Data(obj(vec![
        ("streaming", JsonValue::String("created".to_string())),
        ("id", JsonValue::Number(JsonNumber::PosInt(63807))),
        ("type", JsonValue::String("live".to_string())),
    ])));
    let event: PluginEvent = rsp.try_into().unwrap();
    assert_eq!(
        event,
        PluginEvent::StreamingEvent(StreamingEvent::MountpointCreated {
            id: JanusId::Uint(63807u64.try_into().unwrap()),
            mountpoint_type: "live".to_string()
        })
    );
}

#[test]
fn it_parse_mountpoint_destroyed() {
    let rsp = response(PluginInnerData::Data(obj(vec![
        ("streaming", JsonValue::String("destroyed".to_string())),
        ("id", JsonValue::Number(JsonNumber::PosInt(63807))),
    ])));
    let event: PluginEvent = rsp.try_into().unwrap();
    assert_eq!(
        event,
        PluginEvent::StreamingEvent(StreamingEvent::MountpointDestroyed {
            id: JanusId::Uint(63807u64.try_into().unwrap()),
        })
    );
}

#[test]
fn events_it_parse_error() {
    let rsp = response(PluginInnerData::Error {
        error_code: 456,
        error: "Can't add 'rtp' stream, error creating data source stream".to_string(),
    });
    let event: PluginEvent = rsp.try_into().unwrap();
    assert_eq!(
        event,
        PluginEvent::StreamingEvent(StreamingEvent::Error {
            error_code: 456,
            error: "Can't add 'rtp' stream, error creating data source stream".to_string()
        })
    );
}

#[test]
fn streaming_it_parse_unsupported_event_as_other() {
    let data = || {
        obj(vec![
            ("streaming", JsonValue::String("jarust_rocks".to_string())),
            ("jarust", JsonValue::String("rocks".to_string())),
        ])
    };
    let event: PluginEvent = response(PluginInnerData::Data(data())).try_into().unwrap();
    assert_eq!(event, PluginEvent::StreamingEvent(StreamingEvent::Other(data())));
}
