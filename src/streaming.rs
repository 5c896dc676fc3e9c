use vstd::prelude::*;
use crate::decode::{get_id, get_string, id_field, string_field};
use crate::error::Error;
use crate::janus_id::JanusId;
use crate::protocol::{
    member, str_eq, GenericEvent, JaHandleEvent, JaResponse, JsonValue, PluginInnerData,
    ResponseType,
};

verus! {

/// An event of the streaming plugin.
#[derive(PartialEq, Eq, Debug)]
pub enum StreamingEvent {
    MountpointDestroyed { id: JanusId },
    MountpointCreated { id: JanusId, mountpoint_type: String },
    Error { error_code: u16, error: String },
    /// A message of a kind this library does not know, as it came.
    Other(JsonValue),
}

/// What the handle of a streaming mountpoint receives.
#[derive(PartialEq, Eq, Debug)]
pub enum PluginEvent {
    StreamingEvent(StreamingEvent),
    GenericEvent(GenericEvent),
}

/// The `streaming` member of a message is `tag`.
pub open spec fn streaming_tagged(d: JsonValue, tag: Seq<char>) -> bool {
    string_field(member(d, "streaming"@)) matches Some(s) && s@ == tag
}

/// The event that the plugin data `d` stands for: a destroyed mountpoint
/// with its `id`, a created one with its `id` and `type`, or `Other`.
pub open spec fn streaming_event_of(d: JsonValue) -> StreamingEvent {
    let id = id_field(member(d, "id"@));
    if streaming_tagged(d, "destroyed"@) && id is Some {
        StreamingEvent::MountpointDestroyed { id: id->Some_0 }
    } else if streaming_tagged(d, "created"@) && id is Some && string_field(member(d, "type"@)) is Some {
        StreamingEvent::MountpointCreated {
            id: id->Some_0,
            mountpoint_type: string_field(member(d, "type"@))->Some_0,
        }
    } else {
        StreamingEvent::Other(d)
    }
}

fn is_tag(d: &JsonValue, tag: &str) -> (r: bool)
    ensures
        r == streaming_tagged(*d, tag@),
{
    match d.get("streaming") {
        Some(JsonValue::String(s)) => str_eq(s.as_str(), tag),
        _ => false,
    }
}

/// Reads the plugin data `d` of a streaming frame.
pub fn decode_streaming(d: JsonValue) -> (r: StreamingEvent)
    ensures
        r == streaming_event_of(d),
{
    proof {
        reveal_strlit("destroyed");
        reveal_strlit("created");
        assert("destroyed"@.len() == 9 && "created"@.len() == 7);
    }
    if is_tag(&d, "destroyed") {
        if let Some(id) = get_id(&d, "id") {
            return StreamingEvent::MountpointDestroyed { id };
        }
    } else if is_tag(&d, "created") {
        if let (Some(id), Some(mountpoint_type)) = (get_id(&d, "id"), get_string(&d, "type")) {
            return StreamingEvent::MountpointCreated { id, mountpoint_type };
        }
    }
    StreamingEvent::Other(d)
}

/// What a handle of the streaming mountpoint receives for the frame `value`, as `r`.
pub open spec fn event_of_response(value: JaResponse, r: Result<PluginEvent, Error>) -> bool {
    match value.janus {
        ResponseType::Event(JaHandleEvent::PluginEvent { plugin_data }) => match plugin_data.data {
            PluginInnerData::Error { error_code, error } => r == Ok::<PluginEvent, Error>(
                PluginEvent::StreamingEvent(StreamingEvent::Error { error_code, error }),
            ),
            PluginInnerData::Data(d) => r == Ok::<PluginEvent, Error>(
                PluginEvent::StreamingEvent(streaming_event_of(d)),
            ),
        },
        ResponseType::Event(JaHandleEvent::GenericEvent(e)) => r == Ok::<PluginEvent, Error>(
            PluginEvent::GenericEvent(e),
        ),
        _ => r matches Err(Error::IncompletePacket),
    }
}

impl PluginEvent {
    /// Reads an event that the handle of a streaming mountpoint received: a
    /// plugin event through `decode_streaming`, a plugin error as `Error`, a
    /// generic event as it is; any other frame is incomplete.
    pub fn from_response(value: JaResponse) -> (r: Result<PluginEvent, Error>)
        ensures
            event_of_response(value, r),
    {
        match value.janus {
            ResponseType::Event(JaHandleEvent::PluginEvent { plugin_data }) => match plugin_data.data {
                PluginInnerData::Error { error_code, error } => Ok(
                    PluginEvent::StreamingEvent(StreamingEvent::Error { error_code, error }),
                ),
                PluginInnerData::Data(d) => Ok(PluginEvent::StreamingEvent(decode_streaming(d))),
            },
            ResponseType::Event(JaHandleEvent::GenericEvent(e)) => Ok(PluginEvent::GenericEvent(e)),
            _ => Err(Error::IncompletePacket),
        }
    }
}

impl TryFrom<JaResponse> for PluginEvent {
    type Error = Error;

    fn try_from(value: JaResponse) -> (r: Result<PluginEvent, Error>)
        ensures
            event_of_response(value, r),
    {
        PluginEvent::from_response(value)
    }
}

impl vstd::std_specs::convert::TryFromSpecImpl<JaResponse> for PluginEvent {
    open spec fn obeys_try_from_spec() -> bool {
        false
    }

    open spec fn try_from_spec(v: JaResponse) -> Result<PluginEvent, Error> {
        arbitrary()
    }
}

} // verus!
