use vstd::prelude::*;
use crate::decode::{
    bool_field, get_bool, get_id, get_opt_bool, get_opt_string, get_opt_u64, get_string,
    id_field, opt_bool_field, opt_string_field, opt_u64_field, string_field,
};
use crate::error::Error;
use crate::janus_id::JanusId;
use crate::protocol::{
    member, GenericEvent, JaHandleEvent, JaResponse, Jsep, JsonValue, PluginInnerData,
    ResponseType,
};

verus! {

/// A participant of an audio room.
#[derive(Clone, PartialEq, Eq, PartialOrd, Ord, Hash, Debug)]
pub struct AudioBridgeParticipant {
    pub id: JanusId,
    pub display: Option<String>,
    pub setup: bool,
    pub muted: bool,
    pub suspended: Option<bool>,
    pub talking: Option<bool>,
    pub spatial_position: Option<u64>,
}

/// The participant a JSON object describes: `id`, `setup` and `muted` are
/// required, the rest optional.
pub open spec fn participant_of(v: JsonValue) -> Option<AudioBridgeParticipant> {
    if v is Object && id_field(member(v, "id"@)) is Some && bool_field(member(v, "setup"@)) is Some
        && bool_field(member(v, "muted"@)) is Some && opt_string_field(member(v, "display"@)) is Some
        && opt_bool_field(member(v, "suspended"@)) is Some && opt_bool_field(
        member(v, "talking"@),
    ) is Some && opt_u64_field(member(v, "spatial_position"@)) is Some {
        Some(
            AudioBridgeParticipant {
                id: id_field(member(v, "id"@))->Some_0,
                display: opt_string_field(member(v, "display"@))->Some_0,
                setup: bool_field(member(v, "setup"@))->Some_0,
                muted: bool_field(member(v, "muted"@))->Some_0,
                suspended: opt_bool_field(member(v, "suspended"@))->Some_0,
                talking: opt_bool_field(member(v, "talking"@))->Some_0,
                spatial_position: opt_u64_field(member(v, "spatial_position"@))->Some_0,
            },
        )
    } else {
        None
    }
}

/// The value is an array of participants.
pub open spec fn participants_ok(v: Option<JsonValue>) -> bool {
    match v {
        Some(JsonValue::Array(items)) => forall|i: int|
            0 <= i < items@.len() ==> (#[trigger] participant_of(items@[i])) is Some,
        _ => false,
    }
}

/// `ps` are the participants the array `v` describes, in order.
pub open spec fn participants_match(v: Option<JsonValue>, ps: Seq<AudioBridgeParticipant>) -> bool {
    match v {
        Some(JsonValue::Array(items)) => ps.len() == items@.len() && forall|i: int|
            0 <= i < items@.len() ==> #[trigger] participant_of(items@[i]) == Some(ps[i]),
        _ => false,
    }
}

fn decode_participant(v: &JsonValue) -> (r: Option<AudioBridgeParticipant>)
    ensures
        r == participant_of(*v),
{
    if !matches!(v, JsonValue::Object(_)) {
        return None;
    }
    let id = get_id(v, "id");
    let setup = get_bool(v, "setup");
    let muted = get_bool(v, "muted");
    let display = get_opt_string(v, "display");
    let suspended = get_opt_bool(v, "suspended");
    let talking = get_opt_bool(v, "talking");
    let spatial_position = get_opt_u64(v, "spatial_position");
    match (id, setup, muted, display, suspended, talking, spatial_position) {
        (
            Some(id),
            Some(setup),
            Some(muted),
            Some(display),
            Some(suspended),
            Some(talking),
            Some(spatial_position),
        ) => Some(
            AudioBridgeParticipant { id, display, setup, muted, suspended, talking, spatial_position },
        ),
        _ => None,
    }
}

fn decode_participants(obj: &JsonValue) -> (r: Option<Vec<AudioBridgeParticipant>>)
    ensures
        match r {
            Some(ps) => participants_match(member(*obj, "participants"@), ps@),
            None => !participants_ok(member(*obj, "participants"@)),
        },
{
    match obj.get("participants") {
        Some(JsonValue::Array(items)) => {
            let mut out: Vec<AudioBridgeParticipant> = Vec::new();
            let mut i: usize = 0;
            while i < items.len()
                invariant
                    member(*obj, "participants"@) == Some(JsonValue::Array(*items)),
                    i <= items@.len(),
                    out@.len() == i,
                    forall|j: int| 0 <= j < i ==> #[trigger] participant_of(items@[j]) == Some(
                        out@[j],
                    ),
                decreases items@.len() - i,
            {
                match decode_participant(&items[i]) {
                    Some(p) => out.push(p),
                    None => {
                        return None;
                    },
                }
                i = i + 1;
            }
            Some(out)
        },
        _ => None,
    }
}

/// The kinds of `event` message of the audio bridge plugin, told apart by
/// which members they have, tried in this order.
#[derive(Clone, PartialEq, Eq, PartialOrd, Ord, Hash, Debug)]
pub enum AudioBridgeEventEventType {
    Result { result: String },
    ParticipantsUpdated { room: JanusId, participants: Vec<AudioBridgeParticipant> },
    RoomMuteUpdated { room: JanusId, muted: bool },
    ParticipantKicked { room: JanusId, kicked: JanusId },
    ParticipantLeft { room: JanusId, leaving: JanusId },
    KickedAll { room: JanusId, kicked_all: JanusId },
}

/// An event of the audio bridge plugin.
#[derive(PartialEq, Eq, Debug)]
pub enum AudioBridgeEvent {
    Result { transaction: String, result: String },
    ResultWithJsep { transaction: String, result: String, jsep: Jsep },
    RoomJoinedWithJsep {
        id: JanusId,
        room: JanusId,
        participants: Vec<AudioBridgeParticipant>,
        jsep: Jsep,
    },
    RoomJoined { id: JanusId, room: JanusId, participants: Vec<AudioBridgeParticipant> },
    RoomLeft { id: JanusId, room: JanusId },
    RoomChanged { id: JanusId, room: JanusId, participants: Vec<AudioBridgeParticipant> },
    RoomMuteUpdated { room: JanusId, muted: bool },
    ParticipantsJoined { room: JanusId, participants: Vec<AudioBridgeParticipant> },
    ParticipantsUpdated { room: JanusId, participants: Vec<AudioBridgeParticipant> },
    ParticipantKicked { room: JanusId, kicked: JanusId },
    ParticipantLeft { room: JanusId, leaving: JanusId },
    KickedAll { room: JanusId, kicked_all: JanusId },
    Error { error_code: u16, error: String },
    /// A message of a kind this library does not know, as it came.
    Other(JsonValue),
}

/// What the handle of an audio bridge receives.
#[derive(PartialEq, Eq, Debug)]
pub enum PluginEvent {
    AudioBridgeEvent(AudioBridgeEvent),
    GenericEvent(GenericEvent),
}

/// The `audiobridge` member of a message is `tag`.
pub open spec fn tagged(d: JsonValue, tag: Seq<char>) -> bool {
    string_field(member(d, "audiobridge"@)) matches Some(s) && s@ == tag
}

/// What an `event` message of the audio bridge says, as `r`: the first of
/// its kinds whose members are all there, or none.
pub open spec fn event_type_decodes(d: JsonValue, r: Option<AudioBridgeEventEventType>) -> bool {
    let room = id_field(member(d, "room"@));
    if string_field(member(d, "result"@)) is Some {
        r == Some(AudioBridgeEventEventType::Result { result: string_field(member(d, "result"@))->Some_0 })
    } else if room is Some && participants_ok(member(d, "participants"@)) {
        r matches Some(AudioBridgeEventEventType::ParticipantsUpdated { room: rm, participants })
            && Some(rm) == room && participants_match(member(d, "participants"@), participants@)
    } else if room is Some && bool_field(member(d, "muted"@)) is Some {
        r == Some(
            AudioBridgeEventEventType::RoomMuteUpdated {
                room: room->Some_0,
                muted: bool_field(member(d, "muted"@))->Some_0,
            },
        )
    } else if room is Some && id_field(member(d, "kicked"@)) is Some {
        r == Some(
            AudioBridgeEventEventType::ParticipantKicked {
                room: room->Some_0,
                kicked: id_field(member(d, "kicked"@))->Some_0,
            },
        )
    } else if room is Some && id_field(member(d, "leaving"@)) is Some {
        r == Some(
            AudioBridgeEventEventType::ParticipantLeft {
                room: room->Some_0,
                leaving: id_field(member(d, "leaving"@))->Some_0,
            },
        )
    } else if room is Some && id_field(member(d, "kicked_all"@)) is Some {
        r == Some(
            AudioBridgeEventEventType::KickedAll {
                room: room->Some_0,
                kicked_all: id_field(member(d, "kicked_all"@))->Some_0,
            },
        )
    } else {
        r is None
    }
}

fn decode_event_type(d: &JsonValue) -> (r: Option<AudioBridgeEventEventType>)
    ensures
        event_type_decodes(*d, r),
{
    if let Some(result) = get_string(d, "result") {
        return Some(AudioBridgeEventEventType::Result { result });
    }
    let room = get_id(d, "room");
    let room = match room {
        Some(room) => room,
        None => {
            return None;
        },
    };
    if let Some(participants) = decode_participants(d) {
        return Some(AudioBridgeEventEventType::ParticipantsUpdated { room, participants });
    }
    if let Some(muted) = get_bool(d, "muted") {
        return Some(AudioBridgeEventEventType::RoomMuteUpdated { room, muted });
    }
    if let Some(kicked) = get_id(d, "kicked") {
        return Some(AudioBridgeEventEventType::ParticipantKicked { room, kicked });
    }
    if let Some(leaving) = get_id(d, "leaving") {
        return Some(AudioBridgeEventEventType::ParticipantLeft { room, leaving });
    }
    if let Some(kicked_all) = get_id(d, "kicked_all") {
        return Some(AudioBridgeEventEventType::KickedAll { room, kicked_all });
    }
    None
}

/// The event that the plugin data `d` of a frame with `transaction` and
/// `jsep` stands for, as `r`. A `result` without a transaction is an
/// incomplete frame; data of no known kind is handed on as `Other`.
pub open spec fn audio_bridge_decodes(
    d: JsonValue,
    transaction: Option<String>,
    jsep: Option<Jsep>,
    r: Result<AudioBridgeEvent, Error>,
) -> bool {
    let id = id_field(member(d, "id"@));
    let room = id_field(member(d, "room"@));
    let ps = member(d, "participants"@);
    if tagged(d, "joined"@) && id is Some && room is Some && participants_ok(ps) {
        match jsep {
            Some(j) => r matches Ok(
                AudioBridgeEvent::RoomJoinedWithJsep { id: i, room: rm, participants, jsep: jj },
            ) && Some(i) == id && Some(rm) == room && participants_match(ps, participants@) && jj
                == j,
            None => r matches Ok(AudioBridgeEvent::RoomJoined { id: i, room: rm, participants })
                && Some(i) == id && Some(rm) == room && participants_match(ps, participants@),
        }
    } else if tagged(d, "joined"@) && room is Some && participants_ok(ps) {
        r matches Ok(AudioBridgeEvent::ParticipantsJoined { room: rm, participants }) && Some(rm)
            == room && participants_match(ps, participants@)
    } else if tagged(d, "left"@) && id is Some && room is Some {
        r == Ok::<AudioBridgeEvent, Error>(
            AudioBridgeEvent::RoomLeft { id: id->Some_0, room: room->Some_0 },
        )
    } else if tagged(d, "roomchanged"@) && id is Some && room is Some && participants_ok(ps) {
        r matches Ok(AudioBridgeEvent::RoomChanged { id: i, room: rm, participants }) && Some(i)
            == id && Some(rm) == room && participants_match(ps, participants@)
    } else if tagged(d, "event"@) && !event_type_decodes(d, None) {
        if string_field(member(d, "result"@)) is Some {
            let result = string_field(member(d, "result"@))->Some_0;
            match (transaction, jsep) {
                (None, _) => r matches Err(Error::IncompletePacket),
                (Some(t), Some(j)) => r == Ok::<AudioBridgeEvent, Error>(
                    AudioBridgeEvent::ResultWithJsep { transaction: t, result, jsep: j },
                ),
                (Some(t), None) => r == Ok::<AudioBridgeEvent, Error>(
                    AudioBridgeEvent::Result { transaction: t, result },
                ),
            }
        } else if room is Some && participants_ok(ps) {
            r matches Ok(AudioBridgeEvent::ParticipantsUpdated { room: rm, participants })
                && Some(rm) == room && participants_match(ps, participants@)
        } else if room is Some && bool_field(member(d, "muted"@)) is Some {
            r == Ok::<AudioBridgeEvent, Error>(
                AudioBridgeEvent::RoomMuteUpdated {
                    room: room->Some_0,
                    muted: bool_field(member(d, "muted"@))->Some_0,
                },
            )
        } else if room is Some && id_field(member(d, "kicked"@)) is Some {
            r == Ok::<AudioBridgeEvent, Error>(
                AudioBridgeEvent::ParticipantKicked {
                    room: room->Some_0,
                    kicked: id_field(member(d, "kicked"@))->Some_0,
                },
            )
        } else if room is Some && id_field(member(d, "leaving"@)) is Some {
            r == Ok::<AudioBridgeEvent, Error>(
                AudioBridgeEvent::ParticipantLeft {
                    room: room->Some_0,
                    leaving: id_field(member(d, "leaving"@))->Some_0,
                },
            )
        } else {
            r == Ok::<AudioBridgeEvent, Error>(
                AudioBridgeEvent::KickedAll {
                    room: room->Some_0,
                    kicked_all: id_field(member(d, "kicked_all"@))->Some_0,
                },
            )
        }
    } else {
        r == Ok::<AudioBridgeEvent, Error>(AudioBridgeEvent::Other(d))
    }
}

fn is_tag(d: &JsonValue, tag: &str) -> (r: bool)
    ensures
        r == tagged(*d, tag@),
{
    match d.get("audiobridge") {
        Some(JsonValue::String(s)) => crate::protocol::str_eq(s.as_str(), tag),
        _ => false,
    }
}

/// Reads the plugin data `d` of an audio bridge frame.
pub fn decode_audio_bridge(d: JsonValue, transaction: Option<String>, jsep: Option<Jsep>) -> (r:
    Result<AudioBridgeEvent, Error>)
    ensures
        audio_bridge_decodes(d, transaction, jsep, r),
{
    proof {
        reveal_strlit("joined");
        reveal_strlit("left");
        reveal_strlit("roomchanged");
        reveal_strlit("event");
        assert("joined"@.len() == 6 && "left"@.len() == 4 && "roomchanged"@.len() == 11
            && "event"@.len() == 5);
    }
    if is_tag(&d, "joined") {
        let id = get_id(&d, "id");
        let room = get_id(&d, "room");
        let participants = decode_participants(&d);
        match (id, room, participants) {
            (Some(id), Some(room), Some(participants)) => {
                return match jsep {
                    Some(jsep) => Ok(
                        AudioBridgeEvent::RoomJoinedWithJsep { id, room, participants, jsep },
                    ),
                    None => Ok(AudioBridgeEvent::RoomJoined { id, room, participants }),
                };
            },
            (None, Some(room), Some(participants)) => {
                return Ok(AudioBridgeEvent::ParticipantsJoined { room, participants });
            },
            _ => {},
        }
    } else if is_tag(&d, "left") {
        if let (Some(id), Some(room)) = (get_id(&d, "id"), get_id(&d, "room")) {
            return Ok(AudioBridgeEvent::RoomLeft { id, room });
        }
    } else if is_tag(&d, "roomchanged") {
        let id = get_id(&d, "id");
        let room = get_id(&d, "room");
        let participants = decode_participants(&d);
        if let (Some(id), Some(room), Some(participants)) = (id, room, participants) {
            return Ok(AudioBridgeEvent::RoomChanged { id, room, participants });
        }
    } else if is_tag(&d, "event") {
        match decode_event_type(&d) {
            Some(AudioBridgeEventEventType::Result { result }) => {
                return match (transaction, jsep) {
                    (None, _) => Err(Error::IncompletePacket),
                    (Some(transaction), Some(jsep)) => Ok(
                        AudioBridgeEvent::ResultWithJsep { transaction, result, jsep },
                    ),
                    (Some(transaction), None) => Ok(AudioBridgeEvent::Result { transaction, result }),
                };
            },
            Some(AudioBridgeEventEventType::ParticipantsUpdated { room, participants }) => {
                return Ok(AudioBridgeEvent::ParticipantsUpdated { room, participants });
            },
            Some(AudioBridgeEventEventType::RoomMuteUpdated { room, muted }) => {
                return Ok(AudioBridgeEvent::RoomMuteUpdated { room, muted });
            },
            Some(AudioBridgeEventEventType::ParticipantKicked { room, kicked }) => {
                return Ok(AudioBridgeEvent::ParticipantKicked { room, kicked });
            },
            Some(AudioBridgeEventEventType::ParticipantLeft { room, leaving }) => {
                return Ok(AudioBridgeEvent::ParticipantLeft { room, leaving });
            },
            Some(AudioBridgeEventEventType::KickedAll { room, kicked_all }) => {
                return Ok(AudioBridgeEvent::KickedAll { room, kicked_all });
            },
            None => {},
        }
    }
    Ok(AudioBridgeEvent::Other(d))
}

/// What a handle of the audio bridge receives for the frame `value`, as `r`.
pub open spec fn event_of_response(value: JaResponse, r: Result<PluginEvent, Error>) -> bool {
    match value.janus {
        ResponseType::Event(JaHandleEvent::PluginEvent { plugin_data }) => match plugin_data.data {
            PluginInnerData::Error { error_code, error } => r == Ok::<PluginEvent, Error>(
                PluginEvent::AudioBridgeEvent(AudioBridgeEvent::Error { error_code, error }),
            ),
            PluginInnerData::Data(d) => exists|e: Result<AudioBridgeEvent, Error>|
                audio_bridge_decodes(d, value.transaction, value.jsep, e) && r == match e {
                    Ok(ev) => Ok::<PluginEvent, Error>(PluginEvent::AudioBridgeEvent(ev)),
                    Err(x) => Err(x),
                },
        },
        ResponseType::Event(JaHandleEvent::GenericEvent(e)) => r == Ok::<PluginEvent, Error>(
            PluginEvent::GenericEvent(e),
        ),
        _ => r matches Err(Error::IncompletePacket),
    }
}

impl PluginEvent {
    /// Reads an event that the handle of an audio bridge received: a plugin
    /// event through `decode_audio_bridge`, a plugin error as `Error`, a
    /// generic event as it is; any other frame is incomplete.
    pub fn from_response(value: JaResponse) -> (r: Result<PluginEvent, Error>)
        ensures
            event_of_response(value, r),
    {
        match value.janus {
            ResponseType::Event(JaHandleEvent::PluginEvent { plugin_data }) => match plugin_data.data {
                PluginInnerData::Error { error_code, error } => Ok(
                    PluginEvent::AudioBridgeEvent(AudioBridgeEvent::Error { error_code, error }),
                ),
                PluginInnerData::Data(d) => match decode_audio_bridge(d, value.transaction, value.jsep) {
                    Ok(ev) => Ok(PluginEvent::AudioBridgeEvent(ev)),
                    Err(x) => Err(x),
                },
            },
            ResponseType::Event(JaHandleEvent::GenericEvent(e)) => Ok(PluginEvent::GenericEvent(e)),
            _ => Err(Error::IncompletePacket),
        }
    }
}

impl TryFrom<JaResponse> for PluginEvent {
    type Error = Error;

    fn try_from(value: JaResponse) -> (r: Result<PluginEvent, Error>)
        ensures
            event_of_response(value, r),
    {
        PluginEvent::from_response(value)
    }
}

impl vstd::std_specs::convert::TryFromSpecImpl<JaResponse> for PluginEvent {
    open spec fn obeys_try_from_spec() -> bool {
        false
    }

    open spec fn try_from_spec(v: JaResponse) -> Result<PluginEvent, Error> {
        arbitrary()
    }
}

} // verus!
