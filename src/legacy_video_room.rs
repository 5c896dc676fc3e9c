use vstd::prelude::*;
use crate::decode::{
    get_bool, get_id, get_opt_string, get_opt_u64, get_string, id_field, janus_id_of,
    opt_string_field, opt_u64_field, string_field,
};
use crate::request::{janus_id_to_json, push_member};
use crate::error::Error;
use crate::janus_id::JanusId;
use crate::protocol::{
    member, str_eq, GenericEvent, JaHandleEvent, JaResponse, Jsep, JsonNumber, JsonValue,
    PluginInnerData, ResponseType,
};

verus! {

/// Audio codecs a legacy video room can force on its publishers.
#[derive(Clone, Copy, PartialEq, Eq, PartialOrd, Ord, Hash, Debug, Structural)]
pub enum LegacyVideoRoomAudioCodec {
    OPUS,
    G722,
    PCMU,
    PCMA,
    ISAC32,
    ISAC16,
}

/// Video codecs a legacy video room can force on its publishers.
#[derive(Clone, Copy, PartialEq, Eq, PartialOrd, Ord, Hash, Debug, Structural)]
pub enum LegacyVideoRoomVideoCodec {
    VP8,
    VP9,
    H264,
    AV1,
    H265,
}

/// `s` without repeats, each element where it first occurs.
pub open spec fn dedup<T>(s: Seq<T>) -> Seq<T>
    decreases s.len(),
{
    if s.len() == 0 {
        s
    } else {
        let d = dedup(s.drop_last());
        if d.contains(s.last()) {
            d
        } else {
            d.push(s.last())
        }
    }
}

/// The names of `s` joined by commas.
pub open spec fn comma_joined(names: Seq<Seq<char>>) -> Seq<char>
    decreases names.len(),
{
    if names.len() == 0 {
        Seq::empty()
    } else if names.len() == 1 {
        names[0]
    } else {
        comma_joined(names.drop_last()) + seq![','] + names.last()
    }
}

/// The name by which Janus knows an audio codec.
pub open spec fn audio_codec_name(c: LegacyVideoRoomAudioCodec) -> Seq<char> {
    match c {
        LegacyVideoRoomAudioCodec::OPUS => "opus"@,
        LegacyVideoRoomAudioCodec::G722 => "g722"@,
        LegacyVideoRoomAudioCodec::PCMU => "pcmu"@,
        LegacyVideoRoomAudioCodec::PCMA => "pcma"@,
        LegacyVideoRoomAudioCodec::ISAC32 => "isac32"@,
        LegacyVideoRoomAudioCodec::ISAC16 => "isac16"@,
    }
}

/// The name by which Janus knows a video codec.
pub open spec fn video_codec_name(c: LegacyVideoRoomVideoCodec) -> Seq<char> {
    match c {
        LegacyVideoRoomVideoCodec::VP8 => "vp8"@,
        LegacyVideoRoomVideoCodec::VP9 => "vp9"@,
        LegacyVideoRoomVideoCodec::H264 => "h264"@,
        LegacyVideoRoomVideoCodec::AV1 => "av1"@,
        LegacyVideoRoomVideoCodec::H265 => "h265"@,
    }
}

impl LegacyVideoRoomAudioCodec {
    /// The name by which Janus knows this codec.
    pub fn name(&self) -> (r: &'static str)
        ensures
            r@ == audio_codec_name(*self),
    {
        match self {
            LegacyVideoRoomAudioCodec::OPUS => "opus",
            LegacyVideoRoomAudioCodec::G722 => "g722",
            LegacyVideoRoomAudioCodec::PCMU => "pcmu",
            LegacyVideoRoomAudioCodec::PCMA => "pcma",
            LegacyVideoRoomAudioCodec::ISAC32 => "isac32",
            LegacyVideoRoomAudioCodec::ISAC16 => "isac16",
        }
    }
}

impl LegacyVideoRoomVideoCodec {
    /// The name by which Janus knows this codec.
    pub fn name(&self) -> (r: &'static str)
        ensures
            r@ == video_codec_name(*self),
    {
        match self {
            LegacyVideoRoomVideoCodec::VP8 => "vp8",
            LegacyVideoRoomVideoCodec::VP9 => "vp9",
            LegacyVideoRoomVideoCodec::H264 => "h264",
            LegacyVideoRoomVideoCodec::AV1 => "av1",
            LegacyVideoRoomVideoCodec::H265 => "h265",
        }
    }
}

/// Audio codecs in order of preference, each at most once.
#[derive(Clone, PartialEq, Eq, PartialOrd, Ord, Hash, Debug, Default)]
pub struct LegacyVideoRoomAudioCodecList {
    pub codecs: Vec<LegacyVideoRoomAudioCodec>,
}

/// Video codecs in order of preference, each at most once.
#[derive(Clone, PartialEq, Eq, PartialOrd, Ord, Hash, Debug, Default)]
pub struct LegacyVideoRoomVideoCodecList {
    pub codecs: Vec<LegacyVideoRoomVideoCodec>,
}

impl LegacyVideoRoomAudioCodecList {
    /// The list of `codecs` without repeats, each where it first occurs.
    pub fn new(codecs: Vec<LegacyVideoRoomAudioCodec>) -> (r: Self)
        ensures
            r.codecs@ == dedup(codecs@),
    {
        let mut out: Vec<LegacyVideoRoomAudioCodec> = Vec::new();
        let mut i: usize = 0;
        while i < codecs.len()
            invariant
                i <= codecs@.len(),
                out@ == dedup(codecs@.subrange(0, i as int)),
            decreases codecs@.len() - i,
        {
            let c = codecs[i];
            let mut seen = false;
            let mut j: usize = 0;
            while j < out.len()
                invariant
                    j <= out@.len(),
                    seen == out@.subrange(0, j as int).contains(c),
                decreases out@.len() - j,
            {
                if out[j] == c {
                    seen = true;
                }
                proof {
                    let a = out@.subrange(0, j as int);
                    let b = out@.subrange(0, j + 1);
                    assert(b == a.push(out@[j as int]));
                    if out@[j as int] == c {
                        assert(b[j as int] == c);
                    } else if b.contains(c) {
                        let k = choose|k: int| 0 <= k < b.len() && b[k] == c;
                        assert(a[k] == c);
                    }
                    if a.contains(c) {
                        let k = choose|k: int| 0 <= k < a.len() && a[k] == c;
                        assert(b[k] == c);
                    }
                }
                j = j + 1;
            }
            assert(out@.subrange(0, out@.len() as int) == out@);
            assert(codecs@.subrange(0, i + 1).drop_last() == codecs@.subrange(0, i as int));
            if !seen {
                out.push(c);
            }
            i = i + 1;
        }
        assert(codecs@.subrange(0, codecs@.len() as int) == codecs@);
        LegacyVideoRoomAudioCodecList { codecs: out }
    }

    /// The list as Janus reads it: the codec names joined by commas.
    pub fn to_param(&self) -> (r: String)
        ensures
            r@ == comma_joined(self.codecs@.map_values(|c| audio_codec_name(c))),
    {
        let ghost names = self.codecs@.map_values(|c| audio_codec_name(c));
        let mut r = String::new();
        let mut i: usize = 0;
        while i < self.codecs.len()
            invariant
                i <= self.codecs@.len(),
                names == self.codecs@.map_values(|c| audio_codec_name(c)),
                r@ == comma_joined(names.subrange(0, i as int)),
            decreases self.codecs@.len() - i,
        {
            if i > 0 {
                r.append(",");
            }
            r.append(self.codecs[i].name());
            proof {
                reveal_strlit(",");
                assert(names.subrange(0, i + 1).drop_last() == names.subrange(0, i as int));
            }
            i = i + 1;
        }
        assert(names.subrange(0, names.len() as int) == names);
        r
    }
}

impl LegacyVideoRoomVideoCodecList {
    /// The list of `codecs` without repeats, each where it first occurs.
    pub fn new(codecs: Vec<LegacyVideoRoomVideoCodec>) -> (r: Self)
        ensures
            r.codecs@ == dedup(codecs@),
    {
        let mut out: Vec<LegacyVideoRoomVideoCodec> = Vec::new();
        let mut i: usize = 0;
        while i < codecs.len()
            invariant
                i <= codecs@.len(),
                out@ == dedup(codecs@.subrange(0, i as int)),
            decreases codecs@.len() - i,
        {
            let c = codecs[i];
            let mut seen = false;
            let mut j: usize = 0;
            while j < out.len()
                invariant
                    j <= out@.len(),
                    seen == out@.subrange(0, j as int).contains(c),
                decreases out@.len() - j,
            {
                if out[j] == c {
                    seen = true;
                }
                proof {
                    let a = out@.subrange(0, j as int);
                    let b = out@.subrange(0, j + 1);
                    assert(b == a.push(out@[j as int]));
                    if out@[j as int] == c {
                        assert(b[j as int] == c);
                    } else if b.contains(c) {
                        let k = choose|k: int| 0 <= k < b.len() && b[k] == c;
                        assert(a[k] == c);
                    }
                    if a.contains(c) {
                        let k = choose|k: int| 0 <= k < a.len() && a[k] == c;
                        assert(b[k] == c);
                    }
                }
                j = j + 1;
            }
            assert(out@.subrange(0, out@.len() as int) == out@);
            assert(codecs@.subrange(0, i + 1).drop_last() == codecs@.subrange(0, i as int));
            if !seen {
                out.push(c);
            }
            i = i + 1;
        }
        assert(codecs@.subrange(0, codecs@.len() as int) == codecs@);
        LegacyVideoRoomVideoCodecList { codecs: out }
    }

    /// The list as Janus reads it: the codec names joined by commas.
    pub fn to_param(&self) -> (r: String)
        ensures
            r@ == comma_joined(self.codecs@.map_values(|c| video_codec_name(c))),
    {
        let ghost names = self.codecs@.map_values(|c| video_codec_name(c));
        let mut r = String::new();
        let mut i: usize = 0;
        while i < self.codecs.len()
            invariant
                i <= self.codecs@.len(),
                names == self.codecs@.map_values(|c| video_codec_name(c)),
                r@ == comma_joined(names.subrange(0, i as int)),
            decreases self.codecs@.len() - i,
        {
            if i > 0 {
                r.append(",");
            }
            r.append(self.codecs[i].name());
            proof {
                reveal_strlit(",");
                assert(names.subrange(0, i + 1).drop_last() == names.subrange(0, i as int));
            }
            i = i + 1;
        }
        assert(names.subrange(0, names.len() as int) == names);
        r
    }
}

/// Reply to the creation of a room.
#[derive(Clone, PartialEq, Eq, PartialOrd, Ord, Hash, Debug)]
pub struct LegacyVideoRoomCreatedRsp {
    pub room: JanusId,
    pub permanent: bool,
}

/// Reply to the question whether a room exists.
#[derive(Clone, PartialEq, Eq, PartialOrd, Ord, Hash, Debug)]
pub struct LegacyVideoRoomExistsRsp {
    pub room: JanusId,
    pub exists: bool,
}

/// An active publisher of a room.
#[derive(Clone, PartialEq, Eq, PartialOrd, Ord, Hash, Debug)]
pub struct LegacyVideoRoomPublisher {
    /// unique ID of active publisher
    pub id: JanusId,
    /// display name of active publisher
    pub display: Option<String>,
    pub substream: Option<u8>,
}

/// An optional member of at most 8 bits.
pub open spec fn opt_u8_field(v: Option<JsonValue>) -> Option<Option<u8>> {
    match v {
        None => Some(None),
        Some(JsonValue::Null) => Some(None),
        Some(JsonValue::Number(JsonNumber::PosInt(n))) => if n <= 255 {
            Some(Some(n as u8))
        } else {
            None
        },
        _ => None,
    }
}

/// The publisher a JSON object describes: `id` is required, `display` and
/// `substream` optional.
pub open spec fn publisher_of(v: JsonValue) -> Option<LegacyVideoRoomPublisher> {
    if v is Object && id_field(member(v, "id"@)) is Some && opt_string_field(member(v, "display"@))
        is Some && opt_u8_field(member(v, "substream"@)) is Some {
        Some(
            LegacyVideoRoomPublisher {
                id: id_field(member(v, "id"@))->Some_0,
                display: opt_string_field(member(v, "display"@))->Some_0,
                substream: opt_u8_field(member(v, "substream"@))->Some_0,
            },
        )
    } else {
        None
    }
}

/// The value is an array of publishers.
pub open spec fn publishers_ok(v: Option<JsonValue>) -> bool {
    match v {
        Some(JsonValue::Array(items)) => forall|i: int|
            0 <= i < items@.len() ==> (#[trigger] publisher_of(items@[i])) is Some,
        _ => false,
    }
}

/// `ps` are the publishers the array `v` describes, in order.
pub open spec fn publishers_match(v: Option<JsonValue>, ps: Seq<LegacyVideoRoomPublisher>) -> bool {
    match v {
        Some(JsonValue::Array(items)) => ps.len() == items@.len() && forall|i: int|
            0 <= i < items@.len() ==> #[trigger] publisher_of(items@[i]) == Some(ps[i]),
        _ => false,
    }
}

fn decode_publisher(v: &JsonValue) -> (r: Option<LegacyVideoRoomPublisher>)
    ensures
        r == publisher_of(*v),
{
    if !matches!(v, JsonValue::Object(_)) {
        return None;
    }
    let id = get_id(v, "id");
    let display = get_opt_string(v, "display");
    let substream = match v.get("substream") {
        None => Some(None),
        Some(JsonValue::Null) => Some(None),
        Some(JsonValue::Number(JsonNumber::PosInt(n))) => if *n <= 255 {
            Some(Some(*n as u8))
        } else {
            None
        },
        _ => None,
    };
    match (id, display, substream) {
        (Some(id), Some(display), Some(substream)) => Some(
            LegacyVideoRoomPublisher { id, display, substream },
        ),
        _ => None,
    }
}

fn decode_publishers(obj: &JsonValue) -> (r: Option<Vec<LegacyVideoRoomPublisher>>)
    ensures
        match r {
            Some(ps) => publishers_match(member(*obj, "publishers"@), ps@),
            None => !publishers_ok(member(*obj, "publishers"@)),
        },
{
    match obj.get("publishers") {
        Some(JsonValue::Array(items)) => {
            let mut out: Vec<LegacyVideoRoomPublisher> = Vec::new();
            let mut i: usize = 0;
            while i < items.len()
                invariant
                    member(*obj, "publishers"@) == Some(JsonValue::Array(*items)),
                    i <= items@.len(),
                    out@.len() == i,
                    forall|j: int| 0 <= j < i ==> #[trigger] publisher_of(items@[j]) == Some(
                        out@[j],
                    ),
                decreases items@.len() - i,
            {
                match decode_publisher(&items[i]) {
                    Some(p) => out.push(p),
                    None => {
                        return None;
                    },
                }
                i = i + 1;
            }
            Some(out)
        },
        _ => None,
    }
}

/// An event of the legacy video room plugin.
#[derive(PartialEq, Eq, Debug)]
pub enum LegacyVideoRoomEvent {
    RoomJoined {
        /// unique ID of the new participant
        id: JanusId,
        /// ID of the room the participant joined into
        room: JanusId,
        /// display name of the new participant
        description: Option<String>,
        private_id: Option<u64>,
        publishers: Vec<LegacyVideoRoomPublisher>,
        jsep: Option<Jsep>,
    },
    Configured { room: JanusId, jsep: Option<Jsep> },
    NewPublishers { room: JanusId, publishers: Vec<LegacyVideoRoomPublisher> },
    SubscriberAttached { id: JanusId, room: JanusId, display: Option<String>, jsep: Jsep },
    SlowLink,
    Unpublished { room: JanusId, unpublished: JanusId },
    SubscriberStarted { room: JanusId, started: String },
    Leaving { room: JanusId, reason: String },
    Kicked { room: JanusId, participant: JanusId },
    Error { error_code: u16, error: String },
    /// A message of a kind this library does not know, as it came.
    Other(JsonValue),
}

/// What the handle of a legacy video room receives.
#[derive(PartialEq, Eq, Debug)]
pub enum PluginEvent {
    GenericEvent(GenericEvent),
    LegacyVideoRoomEvent(LegacyVideoRoomEvent),
}

/// The `videoroom` member of a message is `tag`.
pub open spec fn room_tagged(d: JsonValue, tag: Seq<char>) -> bool {
    string_field(member(d, "videoroom"@)) matches Some(s) && s@ == tag
}

/// The event that the plugin data `d` of a frame with `jsep` stands for,
/// as `r`; the kinds of an `event` message are told apart by which members
/// they have, tried in order. A subscriber attached without a session
/// description, and data of no known kind, are handed on as `Other`.
pub open spec fn legacy_event_decodes(d: JsonValue, jsep: Option<Jsep>, r: LegacyVideoRoomEvent) -> bool {
    let id = id_field(member(d, "id"@));
    let room = id_field(member(d, "room"@));
    if room_tagged(d, "joined"@) && id is Some && room is Some && opt_u64_field(
        member(d, "private_id"@),
    ) is Some && opt_string_field(member(d, "description"@)) is Some && publishers_ok(
        member(d, "publishers"@),
    ) {
        r matches LegacyVideoRoomEvent::RoomJoined {
            id: i,
            room: rm,
            description,
            private_id,
            publishers,
            jsep: j,
        } && Some(i) == id && Some(rm) == room && Some(description) == opt_string_field(
            member(d, "description"@),
        ) && Some(private_id) == opt_u64_field(member(d, "private_id"@)) && publishers_match(
            member(d, "publishers"@),
            publishers@,
        ) && j == jsep
    } else if room_tagged(d, "attached"@) && id is Some && room is Some && opt_string_field(
        member(d, "display"@),
    ) is Some && jsep is Some {
        r == LegacyVideoRoomEvent::SubscriberAttached {
            id: id->Some_0,
            room: room->Some_0,
            display: opt_string_field(member(d, "display"@))->Some_0,
            jsep: jsep->Some_0,
        }
    } else if room_tagged(d, "slow_link"@) {
        r == LegacyVideoRoomEvent::SlowLink
    } else if room_tagged(d, "event"@) && room is Some {
        if string_field(member(d, "configured"@)) is Some {
            r == LegacyVideoRoomEvent::Configured { room: room->Some_0, jsep }
        } else if publishers_ok(member(d, "publishers"@)) {
            r matches LegacyVideoRoomEvent::NewPublishers { room: rm, publishers } && Some(rm)
                == room && publishers_match(member(d, "publishers"@), publishers@)
        } else if id_field(member(d, "unpublished"@)) is Some {
            r == LegacyVideoRoomEvent::Unpublished {
                room: room->Some_0,
                unpublished: id_field(member(d, "unpublished"@))->Some_0,
            }
        } else if string_field(member(d, "started"@)) is Some {
            r == LegacyVideoRoomEvent::SubscriberStarted {
                room: room->Some_0,
                started: string_field(member(d, "started"@))->Some_0,
            }
        } else if string_field(member(d, "leaving"@)) is Some && string_field(member(d, "reason"@))
            is Some {
            r == LegacyVideoRoomEvent::Leaving {
                room: room->Some_0,
                reason: string_field(member(d, "reason"@))->Some_0,
            }
        } else if id_field(member(d, "kicked"@)) is Some {
            r == LegacyVideoRoomEvent::Kicked {
                room: room->Some_0,
                participant: id_field(member(d, "kicked"@))->Some_0,
            }
        } else {
            r == LegacyVideoRoomEvent::Other(d)
        }
    } else {
        r == LegacyVideoRoomEvent::Other(d)
    }
}

fn is_tag(d: &JsonValue, tag: &str) -> (r: bool)
    ensures
        r == room_tagged(*d, tag@),
{
    match d.get("videoroom") {
        Some(JsonValue::String(s)) => str_eq(s.as_str(), tag),
        _ => false,
    }
}

/// Reads the plugin data `d` of a legacy video room frame.
pub fn decode_legacy_video_room(d: JsonValue, jsep: Option<Jsep>) -> (r: LegacyVideoRoomEvent)
    ensures
        legacy_event_decodes(d, jsep, r),
{
    proof {
        reveal_strlit("joined");
        reveal_strlit("attached");
        reveal_strlit("slow_link");
        reveal_strlit("event");
        assert("joined"@.len() == 6 && "attached"@.len() == 8 && "slow_link"@.len() == 9
            && "event"@.len() == 5);
    }
    if is_tag(&d, "joined") {
        let id = get_id(&d, "id");
        let room = get_id(&d, "room");
        let private_id = get_opt_u64(&d, "private_id");
        let description = get_opt_string(&d, "description");
        let publishers = decode_publishers(&d);
        if let (Some(id), Some(room), Some(private_id), Some(description), Some(publishers)) = (
            id,
            room,
            private_id,
            description,
            publishers,
        ) {
            return LegacyVideoRoomEvent::RoomJoined {
                id,
                room,
                description,
                private_id,
                publishers,
                jsep,
            };
        }
    } else if is_tag(&d, "attached") {
        let id = get_id(&d, "id");
        let room = get_id(&d, "room");
        let display = get_opt_string(&d, "display");
        if let (Some(id), Some(room), Some(display), Some(jsep)) = (id, room, display, jsep) {
            return LegacyVideoRoomEvent::SubscriberAttached { id, room, display, jsep };
        }
    } else if is_tag(&d, "slow_link") {
        return LegacyVideoRoomEvent::SlowLink;
    } else if is_tag(&d, "event") {
        if let Some(room) = get_id(&d, "room") {
            if let Some(_) = get_string(&d, "configured") {
                return LegacyVideoRoomEvent::Configured { room, jsep };
            }
            if let Some(publishers) = decode_publishers(&d) {
                return LegacyVideoRoomEvent::NewPublishers { room, publishers };
            }
            if let Some(unpublished) = get_id(&d, "unpublished") {
                return LegacyVideoRoomEvent::Unpublished { room, unpublished };
            }
            if let Some(started) = get_string(&d, "started") {
                return LegacyVideoRoomEvent::SubscriberStarted { room, started };
            }
            if let (Some(_), Some(reason)) = (get_string(&d, "leaving"), get_string(&d, "reason")) {
                return LegacyVideoRoomEvent::Leaving { room, reason };
            }
            if let Some(participant) = get_id(&d, "kicked") {
                return LegacyVideoRoomEvent::Kicked { room, participant };
            }
        }
    }
    LegacyVideoRoomEvent::Other(d)
}

/// What a handle of the legacy video room receives for the frame `value`, as `r`.
pub open spec fn event_of_response(value: JaResponse, r: Result<PluginEvent, Error>) -> bool {
    match value.janus {
        ResponseType::Event(JaHandleEvent::PluginEvent { plugin_data }) => match plugin_data.data {
            PluginInnerData::Error { error_code, error } => r == Ok::<PluginEvent, Error>(
                PluginEvent::LegacyVideoRoomEvent(
                    LegacyVideoRoomEvent::Error { error_code, error },
                ),
            ),
            PluginInnerData::Data(d) => r matches Ok(
                PluginEvent::LegacyVideoRoomEvent(e),
            ) && legacy_event_decodes(d, value.jsep, e),
        },
        ResponseType::Event(JaHandleEvent::GenericEvent(e)) => r == Ok::<PluginEvent, Error>(
            PluginEvent::GenericEvent(e),
        ),
        _ => r matches Err(Error::IncompletePacket),
    }
}

impl PluginEvent {
    /// Reads an event that the handle of a legacy video room received: a
    /// plugin event through `decode_legacy_video_room`, a plugin error as
    /// `Error`, a generic event as it is; any other frame is incomplete.
    pub fn from_response(value: JaResponse) -> (r: Result<PluginEvent, Error>)
        ensures
            event_of_response(value, r),
    {
        match value.janus {
            ResponseType::Event(JaHandleEvent::PluginEvent { plugin_data }) => match plugin_data.data {
                PluginInnerData::Error { error_code, error } => Ok(
                    PluginEvent::LegacyVideoRoomEvent(LegacyVideoRoomEvent::Error { error_code, error }),
                ),
                PluginInnerData::Data(d) => Ok(
                    PluginEvent::LegacyVideoRoomEvent(decode_legacy_video_room(d, value.jsep)),
                ),
            },
            ResponseType::Event(JaHandleEvent::GenericEvent(e)) => Ok(PluginEvent::GenericEvent(e)),
            _ => Err(Error::IncompletePacket),
        }
    }
}

impl TryFrom<JaResponse> for PluginEvent {
    type Error = Error;

    fn try_from(value: JaResponse) -> (r: Result<PluginEvent, Error>)
        ensures
            event_of_response(value, r),
    {
        PluginEvent::from_response(value)
    }
}

impl vstd::std_specs::convert::TryFromSpecImpl<JaResponse> for PluginEvent {
    open spec fn obeys_try_from_spec() -> bool {
        false
    }

    open spec fn try_from_spec(v: JaResponse) -> Result<PluginEvent, Error> {
        arbitrary()
    }
}

/// `request` of a plugin message is `name`.
pub open spec fn requests(body: JsonValue, name: Seq<char>) -> bool {
    member(body, "request"@) matches Some(JsonValue::String(s)) && s@ == name
}

/// Member `key` of `body` stands for the identifier `id`.
pub open spec fn names_id(body: JsonValue, key: Seq<char>, id: JanusId) -> bool {
    member(body, key) matches Some(v) && janus_id_of(v) == Some(id)
}

/// Member `key` of `body` is the string `value` where it is given, and
/// absent otherwise.
pub open spec fn optional_text(body: JsonValue, key: Seq<char>, value: Option<String>) -> bool {
    member(body, key) == match value {
        Some(s) => Some(JsonValue::String(s)),
        None => None,
    }
}

/// The question whether `room` exists.
pub fn exists_body(room: &JanusId) -> (r: JsonValue)
    ensures
        requests(r, "exists"@),
        names_id(r, "room"@, *room),
{
    proof {
        reveal_strlit("request");
        reveal_strlit("room");
        assert("request"@.len() == 7 && "room"@.len() == 4);
    }
    let mut members: Vec<(String, JsonValue)> = Vec::new();
    push_member(&mut members, "request", JsonValue::String(String::from_str("exists")));
    let ghost m0 = members@;
    push_member(&mut members, "room", janus_id_to_json(room));
    assert(members@[0] == m0[0]);
    JsonValue::Object(members)
}

/// The removal of participant `id` from `room`, with the room's `secret`
/// where it has one.
pub fn kick_body(room: &JanusId, id: &JanusId, secret: Option<String>) -> (r: JsonValue)
    ensures
        requests(r, "kick"@),
        names_id(r, "room"@, *room),
        names_id(r, "id"@, *id),
        optional_text(r, "secret"@, secret),
{
    proof {
        reveal_strlit("request");
        reveal_strlit("room");
        reveal_strlit("id");
        reveal_strlit("secret");
        assert("request"@.len() == 7 && "room"@.len() == 4 && "id"@.len() == 2 && "secret"@.len()
            == 6);
    }
    let mut members: Vec<(String, JsonValue)> = Vec::new();
    push_member(&mut members, "request", JsonValue::String(String::from_str("kick")));
    let ghost m0 = members@;
    push_member(&mut members, "room", janus_id_to_json(room));
    let ghost m1 = members@;
    push_member(&mut members, "id", janus_id_to_json(id));
    let ghost m2 = members@;
    match secret {
        Some(s) => push_member(&mut members, "secret", JsonValue::String(s)),
        None => {},
    }
    assert(members@[0] == m0[0]);
    assert(members@[1] == m1[1]);
    assert(members@[2] == m2[2]);
    JsonValue::Object(members)
}

/// The joining of `room` as a publisher, under the id, display name and
/// invitation token where they are given.
pub fn publisher_join_body(
    room: &JanusId,
    id: Option<&JanusId>,
    display: Option<String>,
    token: Option<String>,
) -> (r: JsonValue)
    ensures
        requests(r, "join"@),
        member(r, "ptype"@) matches Some(JsonValue::String(s)) && s@ == "publisher"@,
        names_id(r, "room"@, *room),
        match id {
            Some(i) => names_id(r, "id"@, *i),
            None => member(r, "id"@) is None,
        },
        optional_text(r, "display"@, display),
        optional_text(r, "token"@, token),
{
    proof {
        reveal_strlit("request");
        reveal_strlit("ptype");
        reveal_strlit("room");
        reveal_strlit("id");
        reveal_strlit("display");
        reveal_strlit("token");
        assert("request"@.len() == 7 && "ptype"@.len() == 5 && "room"@.len() == 4 && "id"@.len()
            == 2 && "display"@.len() == 7 && "token"@.len() == 5);
        assert("request"@[0] == 'r' && "display"@[0] == 'd' && "ptype"@[0] == 'p' && "token"@[0]
            == 't');
    }
    let mut members: Vec<(String, JsonValue)> = Vec::new();
    push_member(&mut members, "request", JsonValue::String(String::from_str("join")));
    let ghost m0 = members@;
    push_member(&mut members, "ptype", JsonValue::String(String::from_str("publisher")));
    let ghost m1 = members@;
    push_member(&mut members, "room", janus_id_to_json(room));
    let ghost m2 = members@;
    match id {
        Some(i) => push_member(&mut members, "id", janus_id_to_json(i)),
        None => {},
    }
    let ghost m3 = members@;
    match display {
        Some(d) => push_member(&mut members, "display", JsonValue::String(d)),
        None => {},
    }
    let ghost m4 = members@;
    match token {
        Some(t) => push_member(&mut members, "token", JsonValue::String(t)),
        None => {},
    }
    proof {
        assert(members@[0] == m0[0]);
        assert(members@[1] == m1[1]);
        assert(members@[2] == m2[2]);
        if id is Some {
            assert(members@[3] == m3[3]);
        }
        if display is Some {
            assert(members@[m4.len() - 1] == m4[m4.len() - 1]);
        }
    }
    JsonValue::Object(members)
}

/// The subscription in `room` to the publisher `feed`, on behalf of the
/// publisher with `private_id` where it is given.
pub fn subscriber_join_body(room: &JanusId, feed: &JanusId, private_id: Option<u64>) -> (r:
    JsonValue)
    ensures
        requests(r, "join"@),
        member(r, "ptype"@) matches Some(JsonValue::String(s)) && s@ == "subscriber"@,
        names_id(r, "room"@, *room),
        names_id(r, "feed"@, *feed),
        member(r, "private_id"@) == match private_id {
            Some(n) => Some(JsonValue::Number(JsonNumber::PosInt(n))),
            None => None,
        },
{
    proof {
        reveal_strlit("request");
        reveal_strlit("ptype");
        reveal_strlit("room");
        reveal_strlit("feed");
        reveal_strlit("private_id");
        assert("request"@.len() == 7 && "ptype"@.len() == 5 && "room"@.len() == 4
            && "feed"@.len() == 4 && "private_id"@.len() == 10);
        assert("room"@[0] == 'r' && "feed"@[0] == 'f');
    }
    let mut members: Vec<(String, JsonValue)> = Vec::new();
    push_member(&mut members, "request", JsonValue::String(String::from_str("join")));
    let ghost m0 = members@;
    push_member(&mut members, "ptype", JsonValue::String(String::from_str("subscriber")));
    let ghost m1 = members@;
    push_member(&mut members, "room", janus_id_to_json(room));
    let ghost m2 = members@;
    push_member(&mut members, "feed", janus_id_to_json(feed));
    let ghost m3 = members@;
    match private_id {
        Some(n) => push_member(&mut members, "private_id", JsonValue::Number(JsonNumber::PosInt(n))),
        None => {},
    }
    assert(members@[0] == m0[0]);
    assert(members@[1] == m1[1]);
    assert(members@[2] == m2[2]);
    assert(members@[3] == m3[3]);
    JsonValue::Object(members)
}

/// The request that completes a subscriber's PeerConnection; its session
/// description travels beside it.
pub fn start_body() -> (r: JsonValue)
    ensures
        requests(r, "start"@),
        r matches JsonValue::Object(members) && members@.len() == 1,
{
    let mut members: Vec<(String, JsonValue)> = Vec::new();
    push_member(&mut members, "request", JsonValue::String(String::from_str("start")));
    JsonValue::Object(members)
}

/// Reads the answer to `exists`: `room` and `exists`.
pub fn decode_exists_rsp(v: &JsonValue) -> (r: Option<LegacyVideoRoomExistsRsp>)
    ensures
        r == (if id_field(member(*v, "room"@)) is Some && crate::decode::bool_field(
            member(*v, "exists"@),
        ) is Some {
            Some(
                LegacyVideoRoomExistsRsp {
                    room: id_field(member(*v, "room"@))->Some_0,
                    exists: crate::decode::bool_field(member(*v, "exists"@))->Some_0,
                },
            )
        } else {
            None
        }),
{
    match (get_id(v, "room"), get_bool(v, "exists")) {
        (Some(room), Some(exists)) => Some(LegacyVideoRoomExistsRsp { room, exists }),
        _ => None,
    }
}

/// Reads the answer to `create`: `room` and `permanent`.
pub fn decode_created_rsp(v: &JsonValue) -> (r: Option<LegacyVideoRoomCreatedRsp>)
    ensures
        r == (if id_field(member(*v, "room"@)) is Some && crate::decode::bool_field(
            member(*v, "permanent"@),
        ) is Some {
            Some(
                LegacyVideoRoomCreatedRsp {
                    room: id_field(member(*v, "room"@))->Some_0,
                    permanent: crate::decode::bool_field(member(*v, "permanent"@))->Some_0,
                },
            )
        } else {
            None
        }),
{
    match (get_id(v, "room"), get_bool(v, "permanent")) {
        (Some(room), Some(permanent)) => Some(LegacyVideoRoomCreatedRsp { room, permanent }),
        _ => None,
    }
}

} // verus!
