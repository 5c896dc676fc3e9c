use vstd::prelude::*;

verus! {

/// A JSON number as serde_json holds it; a number with a fraction or an
/// exponent is kept as its text.
#[derive(Clone, PartialEq, Eq, Hash, Debug)]
pub enum JsonNumber {
    PosInt(u64),
    NegInt(i64),
    Float(String),
}

/// A JSON value: the payload of plugin messages, which the core carries
/// through and the plugin decoders read.
#[derive(PartialEq, Eq, Debug)]
pub enum JsonValue {
    Null,
    Bool(bool),
    Number(JsonNumber),
    String(String),
    Array(Vec<JsonValue>),
    Object(Vec<(String, JsonValue)>),
}

/// Index of the first member named `key`, or -1.
pub open spec fn member_index(members: Seq<(String, JsonValue)>, key: Seq<char>) -> int
    decreases members.len(),
{
    if members.len() == 0 {
        -1
    } else if members[0].0@ == key {
        0
    } else {
        let j = member_index(members.subrange(1, members.len() as int), key);
        if j < 0 {
            -1
        } else {
            j + 1
        }
    }
}

/// The member named `key` of an object; nothing for another kind of value.
pub open spec fn member(v: JsonValue, key: Seq<char>) -> Option<JsonValue> {
    match v {
        JsonValue::Object(members) => {
            let i = member_index(members@, key);
            if i >= 0 {
                Some(members@[i].1)
            } else {
                None
            }
        },
        _ => None,
    }
}

/// The value as an unsigned integer, where it is a non-negative integer.
pub open spec fn as_u64_of(v: Option<JsonValue>) -> Option<u64> {
    match v {
        Some(JsonValue::Number(JsonNumber::PosInt(n))) => Some(n),
        _ => None,
    }
}

pub proof fn lemma_member_index(members: Seq<(String, JsonValue)>, key: Seq<char>)
    ensures
        -1 <= member_index(members, key) < members.len(),
        member_index(members, key) >= 0 ==> members[member_index(members, key)].0@ == key,
        forall|j: int|
            0 <= j < members.len() && j < member_index(members, key) ==> members[j].0@ != key,
        member_index(members, key) < 0 ==> forall|j: int|
            0 <= j < members.len() ==> members[j].0@ != key,
    decreases members.len(),
{
    if members.len() > 0 && members[0].0@ != key {
        let tail = members.subrange(1, members.len() as int);
        lemma_member_index(tail, key);
        assert forall|j: int| 0 < j < members.len() implies members[j] == tail[j - 1] by {}
    }
}

/// The first member named `key` is at index `i` when none before it has that name.
pub proof fn lemma_member_index_at(members: Seq<(String, JsonValue)>, key: Seq<char>, i: int)
    requires
        0 <= i < members.len(),
        members[i].0@ == key,
        forall|j: int| 0 <= j < i ==> members[j].0@ != key,
    ensures
        member_index(members, key) == i,
{
    lemma_member_index(members, key);
    let m = member_index(members, key);
    if m < i {
        assert(members[m].0@ != key);
    }
    if m < 0 || m > i {
        assert(members[i].0@ != key);
    }
}

/// No member has the name `key` when none of them does.
pub proof fn lemma_member_index_absent(members: Seq<(String, JsonValue)>, key: Seq<char>)
    requires
        forall|j: int| 0 <= j < members.len() ==> members[j].0@ != key,
    ensures
        member_index(members, key) == -1,
{
    lemma_member_index(members, key);
}

impl JsonValue {
    /// The member named `key` of an object, `None` for another kind of value.
    pub fn get(&self, key: &str) -> (r: Option<&JsonValue>)
        ensures
            match r {
                Some(v) => member(*self, key@) == Some(*v),
                None => member(*self, key@) is None,
            },
    {
        match self {
            JsonValue::Object(members) => {
                let mut i: usize = 0;
                while i < members.len()
                    invariant
                        *self == JsonValue::Object(*members),
                        i <= members@.len(),
                        forall|j: int| 0 <= j < i ==> members@[j].0@ != key@,
                    decreases members@.len() - i,
                {
                    if str_eq(members[i].0.as_str(), key) {
                        proof {
                            lemma_member_index(members@, key@);
                            let m = member_index(members@, key@);
                            if m < i {
                                assert(members@[m].0@ != key@);
                            }
                            if m < 0 || m > i {
                                assert(members@[i as int].0@ != key@);
                            }
                        }
                        return Some(&members[i].1);
                    }
                    i = i + 1;
                }
                proof {
                    lemma_member_index(members@, key@);
                }
                None
            },
            _ => None,
        }
    }

    /// The value as an unsigned integer, where it is a non-negative integer.
    pub fn as_u64(&self) -> (r: Option<u64>)
        ensures
            r == as_u64_of(Some(*self)),
    {
        match self {
            JsonValue::Number(JsonNumber::PosInt(n)) => Some(*n),
            _ => None,
        }
    }
}

/// Whether two texts are equal, character by character.
pub fn str_eq(a: &str, b: &str) -> (r: bool)
    ensures
        r == (a@ == b@),
{
    let la = a.unicode_len();
    let lb = b.unicode_len();
    if la != lb {
        return false;
    }
    let mut i: usize = 0;
    while i < la
        invariant
            la == a@.len(),
            lb == b@.len(),
            la == lb,
            i <= la,
            forall|j: int| 0 <= j < i ==> a@[j] == b@[j],
        decreases la - i,
    {
        if a.get_char(i) != b.get_char(i) {
            return false;
        }
        i = i + 1;
    }
    assert(a@ =~= b@);
    true
}

/// Kind of a session description.
#[derive(Clone, Copy, PartialEq, Eq, Hash, Debug, Structural)]
pub enum JsepType {
    Offer,
    Answer,
}

/// Session description that Janus carries on behalf of WebRTC.
#[derive(Clone, PartialEq, Eq, Hash, Debug)]
pub struct Jsep {
    pub jsep_type: JsepType,
    pub trickle: Option<bool>,
    pub sdp: String,
}

/// Events that the Janus core sends about a handle, or about a session.
#[derive(Clone, Copy, PartialEq, Eq, Hash, Debug, Structural)]
pub enum GenericEvent {
    /// The handle was detached.
    Detached,
    /// The PeerConnection was closed.
    Hangup,
    /// Media started or stopped flowing.
    Media,
    /// The session timed out.
    Timeout,
    /// The PeerConnection came up.
    WebrtcUp,
    /// Packets are being lost.
    SlowLink,
    /// A trickle candidate.
    Trickle,
}

/// What a plugin answered: an error with its code, or data.
#[derive(PartialEq, Eq, Debug)]
pub enum PluginInnerData {
    Error { error_code: u16, error: String },
    Data(JsonValue),
}

/// The `plugindata` part of a frame.
#[derive(PartialEq, Eq, Debug)]
pub struct PluginData {
    pub plugin: String,
    pub data: PluginInnerData,
}

/// An event addressed to a handle.
#[derive(PartialEq, Eq, Debug)]
pub enum JaHandleEvent {
    PluginEvent { plugin_data: PluginData },
    GenericEvent(GenericEvent),
}

/// What a `success` frame carries.
#[derive(PartialEq, Eq, Debug)]
pub enum JaSuccessProtocol {
    /// The id of a created session or an attached handle.
    Data { id: u64 },
    /// The synchronous answer of a plugin.
    Plugin { plugin_data: PluginData },
    /// Nothing more.
    Empty,
}

/// The `janus` discriminator of an inbound frame, with what goes with it.
#[derive(PartialEq, Eq, Debug)]
pub enum ResponseType {
    Ack,
    Success(JaSuccessProtocol),
    Error { code: u16, reason: String },
    ServerInfo,
    Event(JaHandleEvent),
    KeepAlive,
}

/// An inbound frame.
#[derive(PartialEq, Eq, Debug)]
pub struct JaResponse {
    pub janus: ResponseType,
    pub transaction: Option<String>,
    pub session_id: Option<u64>,
    pub sender: Option<u64>,
    pub jsep: Option<Jsep>,
}

} // verus!
