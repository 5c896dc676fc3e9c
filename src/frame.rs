use vstd::prelude::*;
use crate::decode::{opt_bool_field, string_field};
use crate::protocol::{
    as_u64_of, member, str_eq, GenericEvent, JaHandleEvent, JaResponse,
    JaSuccessProtocol, Jsep, JsepType, JsonNumber, JsonValue, PluginData, PluginInnerData,
    ResponseType,
};

verus! {

/// An optional unsigned member of a frame: absent gives `Some(None)`.
pub open spec fn opt_id_member(v: Option<JsonValue>) -> Option<Option<u64>> {
    match v {
        None => Some(None),
        Some(JsonValue::Null) => Some(None),
        Some(JsonValue::Number(JsonNumber::PosInt(n))) => Some(Some(n)),
        _ => None,
    }
}

/// An optional string member of a frame.
pub open spec fn opt_text_member(v: Option<JsonValue>) -> Option<Option<String>> {
    match v {
        None => Some(None),
        Some(JsonValue::Null) => Some(None),
        Some(JsonValue::String(s)) => Some(Some(s)),
        _ => None,
    }
}

/// A 16-bit code.
pub open spec fn code_member(v: Option<JsonValue>) -> Option<u16> {
    match v {
        Some(JsonValue::Number(JsonNumber::PosInt(n))) => if n <= 65535 {
            Some(n as u16)
        } else {
            None
        },
        _ => None,
    }
}

/// The session description of a `jsep` member: `type` is `offer` or
/// `answer`, `sdp` a string, `trickle` an optional boolean.
pub open spec fn jsep_of(v: JsonValue) -> Option<Jsep> {
    let kind = string_field(member(v, "type"@));
    let kind = if kind matches Some(k) && k@ == "offer"@ {
        Some(JsepType::Offer)
    } else if kind matches Some(k) && k@ == "answer"@ {
        Some(JsepType::Answer)
    } else {
        None
    };
    if kind is Some && string_field(member(v, "sdp"@)) is Some && opt_bool_field(
        member(v, "trickle"@),
    ) is Some {
        Some(
            Jsep {
                jsep_type: kind->Some_0,
                trickle: opt_bool_field(member(v, "trickle"@))->Some_0,
                sdp: string_field(member(v, "sdp"@))->Some_0,
            },
        )
    } else {
        None
    }
}

/// An optional `jsep` member.
pub open spec fn opt_jsep_member(v: Option<JsonValue>) -> Option<Option<Jsep>> {
    match v {
        None => Some(None),
        Some(JsonValue::Null) => Some(None),
        Some(x) => match jsep_of(x) {
            Some(j) => Some(Some(j)),
            None => None,
        },
    }
}

/// The `plugindata` member: `plugin` names the plugin, and `data` is an
/// error where it has `error_code` and `error`, data otherwise.
pub open spec fn plugin_data_of(v: Option<JsonValue>) -> Option<PluginData> {
    match v {
        Some(pd) => {
            let plugin = string_field(member(pd, "plugin"@));
            let data = member(pd, "data"@);
            if plugin is Some && data is Some {
                let d = data->Some_0;
                let inner = if code_member(member(d, "error_code"@)) is Some && string_field(
                    member(d, "error"@),
                ) is Some {
                    PluginInnerData::Error {
                        error_code: code_member(member(d, "error_code"@))->Some_0,
                        error: string_field(member(d, "error"@))->Some_0,
                    }
                } else {
                    PluginInnerData::Data(d)
                };
                Some(PluginData { plugin: plugin->Some_0, data: inner })
            } else {
                None
            }
        },
        None => None,
    }
}

/// The generic event a verb names.
pub open spec fn generic_event_of(verb: Seq<char>) -> Option<GenericEvent> {
    if verb == "detached"@ {
        Some(GenericEvent::Detached)
    } else if verb == "hangup"@ {
        Some(GenericEvent::Hangup)
    } else if verb == "media"@ {
        Some(GenericEvent::Media)
    } else if verb == "timeout"@ {
        Some(GenericEvent::Timeout)
    } else if verb == "webrtcup"@ {
        Some(GenericEvent::WebrtcUp)
    } else if verb == "slowlink"@ {
        Some(GenericEvent::SlowLink)
    } else if verb == "trickle"@ {
        Some(GenericEvent::Trickle)
    } else {
        None
    }
}

/// What the `janus` member of `v` with verb `verb` makes of the frame.
pub open spec fn response_type_of(v: JsonValue, verb: Seq<char>) -> Option<ResponseType> {
    if verb == "ack"@ {
        Some(ResponseType::Ack)
    } else if verb == "keepalive"@ {
        Some(ResponseType::KeepAlive)
    } else if verb == "server_info"@ {
        Some(ResponseType::ServerInfo)
    } else if verb == "success"@ {
        let id = as_u64_of(member_of(member(v, "data"@), "id"@));
        if id is Some {
            Some(ResponseType::Success(JaSuccessProtocol::Data { id: id->Some_0 }))
        } else if plugin_data_of(member(v, "plugindata"@)) is Some {
            Some(
                ResponseType::Success(
                    JaSuccessProtocol::Plugin {
                        plugin_data: plugin_data_of(member(v, "plugindata"@))->Some_0,
                    },
                ),
            )
        } else {
            Some(ResponseType::Success(JaSuccessProtocol::Empty))
        }
    } else if verb == "error"@ {
        let e = member(v, "error"@);
        let code = code_member(member_of(e, "code"@));
        let reason = string_field(member_of(e, "reason"@));
        if code is Some && reason is Some {
            Some(ResponseType::Error { code: code->Some_0, reason: reason->Some_0 })
        } else {
            None
        }
    } else if verb == "event"@ {
        match plugin_data_of(member(v, "plugindata"@)) {
            Some(pd) => Some(ResponseType::Event(JaHandleEvent::PluginEvent { plugin_data: pd })),
            None => None,
        }
    } else {
        match generic_event_of(verb) {
            Some(e) => Some(ResponseType::Event(JaHandleEvent::GenericEvent(e))),
            None => None,
        }
    }
}

/// The member `key` of an optional value.
pub open spec fn member_of(v: Option<JsonValue>, key: Seq<char>) -> Option<JsonValue> {
    match v {
        Some(x) => member(x, key),
        None => None,
    }
}

/// The inbound frame a JSON object stands for, where it is one.
pub open spec fn frame_of(v: JsonValue) -> Option<JaResponse> {
    let verb = string_field(member(v, "janus"@));
    let transaction = opt_text_member(member(v, "transaction"@));
    let session_id = opt_id_member(member(v, "session_id"@));
    let sender = opt_id_member(member(v, "sender"@));
    let jsep = opt_jsep_member(member(v, "jsep"@));
    if verb is Some && transaction is Some && session_id is Some && sender is Some && jsep is Some
        && response_type_of(v, verb->Some_0@) is Some {
        Some(
            JaResponse {
                janus: response_type_of(v, verb->Some_0@)->Some_0,
                transaction: transaction->Some_0,
                session_id: session_id->Some_0,
                sender: sender->Some_0,
                jsep: jsep->Some_0,
            },
        )
    } else {
        None
    }
}

fn get_opt_id(v: &JsonValue, key: &str) -> (r: Option<Option<u64>>)
    ensures
        r == opt_id_member(member(*v, key@)),
{
    match v.get(key) {
        None => Some(None),
        Some(JsonValue::Null) => Some(None),
        Some(JsonValue::Number(JsonNumber::PosInt(n))) => Some(Some(*n)),
        _ => None,
    }
}

fn get_opt_text(v: &JsonValue, key: &str) -> (r: Option<Option<String>>)
    ensures
        r == opt_text_member(member(*v, key@)),
{
    match v.get(key) {
        None => Some(None),
        Some(JsonValue::Null) => Some(None),
        Some(JsonValue::String(s)) => Some(Some(s.clone())),
        _ => None,
    }
}

fn get_text(v: Option<&JsonValue>, key: &str) -> (r: Option<String>)
    ensures
        r == string_field(
            match v {
                Some(x) => member(*x, key@),
                None => None,
            },
        ),
{
    match v {
        Some(x) => match x.get(key) {
            Some(JsonValue::String(s)) => Some(s.clone()),
            _ => None,
        },
        None => None,
    }
}

fn get_code(v: Option<&JsonValue>, key: &str) -> (r: Option<u16>)
    ensures
        r == code_member(
            match v {
                Some(x) => member(*x, key@),
                None => None,
            },
        ),
{
    match v {
        Some(x) => match x.get(key) {
            Some(JsonValue::Number(JsonNumber::PosInt(n))) => if *n <= 65535 {
                Some(*n as u16)
            } else {
                None
            },
            _ => None,
        },
        None => None,
    }
}

fn decode_jsep(v: &JsonValue) -> (r: Option<Jsep>)
    ensures
        r == jsep_of(*v),
{
    let kind = match v.get("type") {
        Some(JsonValue::String(k)) => if str_eq(k.as_str(), "offer") {
            Some(JsepType::Offer)
        } else if str_eq(k.as_str(), "answer") {
            Some(JsepType::Answer)
        } else {
            None
        },
        _ => None,
    };
    let sdp = get_text(Some(v), "sdp");
    let trickle = match v.get("trickle") {
        None => Some(None),
        Some(JsonValue::Null) => Some(None),
        Some(JsonValue::Bool(b)) => Some(Some(*b)),
        _ => None,
    };
    match (kind, sdp, trickle) {
        (Some(jsep_type), Some(sdp), Some(trickle)) => Some(Jsep { jsep_type, trickle, sdp }),
        _ => None,
    }
}

fn get_opt_jsep(v: &JsonValue) -> (r: Option<Option<Jsep>>)
    ensures
        r == opt_jsep_member(member(*v, "jsep"@)),
{
    match v.get("jsep") {
        None => Some(None),
        Some(JsonValue::Null) => Some(None),
        Some(x) => match decode_jsep(x) {
            Some(j) => Some(Some(j)),
            None => None,
        },
    }
}

/// The member `key` of `v`, taken out of it.
fn into_member(v: JsonValue, key: &str) -> (r: Option<JsonValue>)
    ensures
        r == member(v, key@),
{
    let ghost whole = v;
    let present = match v.get(key) {
        Some(_) => true,
        None => false,
    };
    if !present {
        return None;
    }
    match v {
        JsonValue::Object(mut members) => {
            let mut i: usize = 0;
            while i < members.len()
                invariant
                    whole == v,
                    whole == JsonValue::Object(members),
                    i <= members@.len(),
                    forall|j: int| 0 <= j < i ==> members@[j].0@ != key@,
                    member(whole, key@) is Some,
                decreases members@.len() - i,
            {
                if str_eq(members[i].0.as_str(), key) {
                    proof {
                        crate::protocol::lemma_member_index_at(members@, key@, i as int);
                    }
                    assert(member(whole, key@) == Some(members@[i as int].1));
                    let ghost expected = members@[i as int].1;
                    let (_, value) = members.remove(i);
                    assert(value == expected);
                    return Some(value);
                }
                i = i + 1;
            }
            proof {
                crate::protocol::lemma_member_index_absent(members@, key@);
            }
            None
        },
        _ => None,
    }
}

/// Reads the `plugindata` member, taken out of `v`.
fn decode_plugin_data(v: JsonValue) -> (r: Option<PluginData>)
    ensures
        r == plugin_data_of(member(v, "plugindata"@)),
{
    let pd = match into_member(v, "plugindata") {
        Some(pd) => pd,
        None => {
            return None;
        },
    };
    let plugin = get_text(Some(&pd), "plugin");
    let plugin = match plugin {
        Some(p) => p,
        None => {
            return None;
        },
    };
    let d = match into_member(pd, "data") {
        Some(d) => d,
        None => {
            return None;
        },
    };
    let code = get_code(Some(&d), "error_code");
    let error = get_text(Some(&d), "error");
    let data = match (code, error) {
        (Some(error_code), Some(error)) => PluginInnerData::Error { error_code, error },
        _ => PluginInnerData::Data(d),
    };
    Some(PluginData { plugin, data })
}

fn verb_is(verb: &String, name: &str) -> (r: bool)
    ensures
        r == (verb@ == name@),
{
    str_eq(verb.as_str(), name)
}

fn decode_generic(verb: &String) -> (r: Option<GenericEvent>)
    ensures
        r == generic_event_of(verb@),
{
    if verb_is(verb, "detached") {
        Some(GenericEvent::Detached)
    } else if verb_is(verb, "hangup") {
        Some(GenericEvent::Hangup)
    } else if verb_is(verb, "media") {
        Some(GenericEvent::Media)
    } else if verb_is(verb, "timeout") {
        Some(GenericEvent::Timeout)
    } else if verb_is(verb, "webrtcup") {
        Some(GenericEvent::WebrtcUp)
    } else if verb_is(verb, "slowlink") {
        Some(GenericEvent::SlowLink)
    } else if verb_is(verb, "trickle") {
        Some(GenericEvent::Trickle)
    } else {
        None
    }
}

fn decode_response_type(v: JsonValue, verb: &String) -> (r: Option<ResponseType>)
    ensures
        r == response_type_of(v, verb@),
{
    if verb_is(verb, "ack") {
        Some(ResponseType::Ack)
    } else if verb_is(verb, "keepalive") {
        Some(ResponseType::KeepAlive)
    } else if verb_is(verb, "server_info") {
        Some(ResponseType::ServerInfo)
    } else if verb_is(verb, "success") {
        let id = match v.get("data") {
            Some(data) => match data.get("id") {
                Some(x) => x.as_u64(),
                None => None,
            },
            None => None,
        };
        match id {
            Some(id) => Some(ResponseType::Success(JaSuccessProtocol::Data { id })),
            None => match decode_plugin_data(v) {
                Some(plugin_data) => Some(
                    ResponseType::Success(JaSuccessProtocol::Plugin { plugin_data }),
                ),
                None => Some(ResponseType::Success(JaSuccessProtocol::Empty)),
            },
        }
    } else if verb_is(verb, "error") {
        let e = v.get("error");
        let code = get_code(e, "code");
        let reason = get_text(e, "reason");
        match (code, reason) {
            (Some(code), Some(reason)) => Some(ResponseType::Error { code, reason }),
            _ => None,
        }
    } else if verb_is(verb, "event") {
        match decode_plugin_data(v) {
            Some(plugin_data) => Some(
                ResponseType::Event(JaHandleEvent::PluginEvent { plugin_data }),
            ),
            None => None,
        }
    } else {
        match decode_generic(verb) {
            Some(e) => Some(ResponseType::Event(JaHandleEvent::GenericEvent(e))),
            None => None,
        }
    }
}

impl JaResponse {
    /// Reads an inbound frame from its JSON object: the `janus` verb with
    /// what it carries, and the optional `transaction`, `session_id`,
    /// `sender` and `jsep`. `None` where the object is no frame.
    pub fn from_json(v: JsonValue) -> (r: Option<JaResponse>)
        ensures
            r == frame_of(v),
    {
        let verb = get_text(Some(&v), "janus");
        let transaction = get_opt_text(&v, "transaction");
        let session_id = get_opt_id(&v, "session_id");
        let sender = get_opt_id(&v, "sender");
        let jsep = get_opt_jsep(&v);
        match (verb, transaction, session_id, sender, jsep) {
            (Some(verb), Some(transaction), Some(session_id), Some(sender), Some(jsep)) => {
                match decode_response_type(v, &verb) {
                    Some(janus) => Some(JaResponse { janus, transaction, session_id, sender, jsep }),
                    None => None,
                }
            },
            _ => None,
        }
    }
}

} // verus!
