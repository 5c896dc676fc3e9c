use vstd::prelude::*;
use crate::decode::janus_id_of;
use crate::frame::jsep_of;
use crate::janus_id::JanusId;
use crate::protocol::{member, member_index, Jsep, JsepType, JsonNumber, JsonValue};

verus! {

proof fn lemma_member_index_push(m: Seq<(String, JsonValue)>, k: String, v: JsonValue, key: Seq<char>)
    ensures
        member_index(m.push((k, v)), key) == if member_index(m, key) >= 0 {
            member_index(m, key)
        } else if k@ == key {
            m.len() as int
        } else {
            -1
        },
    decreases m.len(),
{
    let p = m.push((k, v));
    if m.len() > 0 {
        assert(p[0] == m[0]);
        if m[0].0@ != key {
            let tail = m.subrange(1, m.len() as int);
            assert(p.subrange(1, p.len() as int) =~= tail.push((k, v)));
            lemma_member_index_push(tail, k, v, key);
            let j = member_index(tail.push((k, v)), key);
            assert(member_index(p, key) == if j < 0 { -1 } else { j + 1 });
            let j2 = member_index(tail, key);
            assert(member_index(m, key) == if j2 < 0 { -1 } else { j2 + 1 });
        }
    } else {
        let e = p.subrange(1, p.len() as int);
        assert(e =~= Seq::<(String, JsonValue)>::empty());
        assert(member_index(e, key) == -1);
        assert(member_index(m, key) == -1);
        assert(p[0].0@ == k@);
    }
}

proof fn lemma_member_index_update(
    m: Seq<(String, JsonValue)>,
    i: int,
    k: String,
    v: JsonValue,
    key: Seq<char>,
)
    requires
        0 <= i < m.len(),
        m[i].0@ == k@,
    ensures
        member_index(m.update(i, (k, v)), key) == member_index(m, key),
    decreases m.len(),
{
    let u = m.update(i, (k, v));
    if i > 0 {
        assert(u[0] == m[0]);
        if m[0].0@ != key {
            let tail = m.subrange(1, m.len() as int);
            assert(u.subrange(1, u.len() as int) =~= tail.update(i - 1, (k, v)));
            lemma_member_index_update(tail, i - 1, k, v, key);
        }
    } else {
        assert(u.subrange(1, u.len() as int) =~= m.subrange(1, m.len() as int));
    }
}

/// `params` with its member `request` set to `name`: replaced where it is
/// there, added at the end otherwise. A value that is no object becomes an
/// object with that member alone.
pub fn with_request(params: JsonValue, name: &str) -> (r: JsonValue)
    ensures
        member(r, "request"@) matches Some(JsonValue::String(s)) && s@ == name@,
        forall|k: Seq<char>| k != "request"@ ==> #[trigger] member(r, k) == member(params, k),
{
    let ghost whole = params;
    let mut members = match params {
        JsonValue::Object(members) => members,
        _ => Vec::new(),
    };
    let ghost before = members@;
    assert forall|k: Seq<char>| k != "request"@ implies #[trigger] member(whole, k) == (if member_index(before, k) >= 0 {
        Some(before[member_index(before, k)].1)
    } else {
        None::<JsonValue>
    }) by {
        if !(whole is Object) {
            assert(before.len() == 0);
        }
    }
    let mut i: usize = 0;
    let mut found = false;
    while i < members.len() && !found
        invariant
            members@ == before,
            i <= members@.len(),
            found ==> i < members@.len() && members@[i as int].0@ == "request"@,
            forall|j: int| 0 <= j < i ==> members@[j].0@ != "request"@,
        decreases members@.len() - i + (if found { 0int } else { 1int }),
    {
        if crate::protocol::str_eq(members[i].0.as_str(), "request") {
            found = true;
        } else {
            i = i + 1;
        }
    }
    let value = JsonValue::String(String::from_str(name));
    if found {
        let ghost v = value;
        let key = String::from_str("request");
        let ghost kk = key;
        members.set(i, (key, value));
        proof {
            crate::protocol::lemma_member_index_at(before, "request"@, i as int);
            assert forall|k: Seq<char>| #[trigger] member_index(members@, k) == member_index(before, k) by {
                lemma_member_index_update(before, i as int, kk, v, k);
            }
        }
    } else {
        proof {
            crate::protocol::lemma_member_index_absent(before, "request"@);
        }
        push_member(&mut members, "request", value);
    }
    proof {
        assert forall|k: Seq<char>| k != "request"@ implies #[trigger] member(
            JsonValue::Object(members),
            k,
        ) == member(whole, k) by {
            crate::protocol::lemma_member_index(before, k);
            let idx = member_index(before, k);
            if idx >= 0 {
                assert(members@[idx] == before[idx]);
            }
        }
        crate::protocol::lemma_member_index(members@, "request"@);
    }
    JsonValue::Object(members)
}

/// Appends the member `key: value` to `members`, where no member has that name.
pub(crate) fn push_member(members: &mut Vec<(String, JsonValue)>, key: &str, value: JsonValue)
    ensures
        final(members)@.len() == old(members)@.len() + 1,
        forall|k: Seq<char>| #[trigger] member_index(final(members)@, k) == if member_index(old(members)@, k) >= 0 {
            member_index(old(members)@, k)
        } else if key@ == k {
            old(members)@.len() as int
        } else {
            -1
        },
        final(members)@[old(members)@.len() as int].1 == value,
        forall|i: int| 0 <= i < old(members)@.len() ==> #[trigger] final(members)@[i] == old(members)@[i],
{
    let ghost before = members@;
    let name = String::from_str(key);
    let ghost n = name;
    let ghost v = value;
    members.push((name, value));
    assert forall|k: Seq<char>| #[trigger] member_index(members@, k) == if member_index(before, k) >= 0 {
        member_index(before, k)
    } else if key@ == k {
        before.len() as int
    } else {
        -1
    } by {
        lemma_member_index_push(before, n, v, k);
    }
}

/// The JSON value of an identifier: a string, or an unsigned integer.
pub fn janus_id_to_json(id: &JanusId) -> (r: JsonValue)
    ensures
        janus_id_of(r) == Some(*id),
{
    match id {
        JanusId::String(s) => JsonValue::String(s.clone()),
        JanusId::Uint(u) => JsonValue::Number(JsonNumber::PosInt(u.value())),
    }
}

/// The JSON object of a session description: `type`, `sdp`, and `trickle`
/// where it is given.
pub fn jsep_to_json(jsep: &Jsep) -> (r: JsonValue)
    ensures
        jsep_of(r) == Some(*jsep),
{
    proof {
        reveal_strlit("type");
        reveal_strlit("sdp");
        reveal_strlit("trickle");
        reveal_strlit("offer");
        reveal_strlit("answer");
        assert("type"@.len() == 4 && "sdp"@.len() == 3 && "trickle"@.len() == 7);
        assert("offer"@.len() == 5 && "answer"@.len() == 6);
    }
    let mut members: Vec<(String, JsonValue)> = Vec::new();
    let kind = match jsep.jsep_type {
        JsepType::Offer => String::from_str("offer"),
        JsepType::Answer => String::from_str("answer"),
    };
    push_member(&mut members, "type", JsonValue::String(kind));
    push_member(&mut members, "sdp", JsonValue::String(jsep.sdp.clone()));
    match jsep.trickle {
        Some(t) => push_member(&mut members, "trickle", JsonValue::Bool(t)),
        None => {},
    }
    let r = JsonValue::Object(members);
    assert(member(r, "type"@) == Some(members@[0].1));
    assert(member(r, "sdp"@) == Some(members@[1].1));
    r
}

/// The envelope of an outbound request: the verb `janus` and the
/// `transaction`, then `session_id`, `handle_id`, `apisecret`, `body` and
/// `jsep` where each is given.
pub fn build_request(
    janus: &str,
    transaction: &str,
    session_id: Option<u64>,
    handle_id: Option<u64>,
    apisecret: &Option<String>,
    body: Option<JsonValue>,
    jsep: Option<Jsep>,
) -> (r: JsonValue)
    ensures
        member(r, "janus"@) matches Some(JsonValue::String(s)) && s@ == janus@,
        member(r, "transaction"@) matches Some(JsonValue::String(s)) && s@ == transaction@,
        member(r, "session_id"@) == match session_id {
            Some(n) => Some(JsonValue::Number(JsonNumber::PosInt(n))),
            None => None,
        },
        member(r, "handle_id"@) == match handle_id {
            Some(n) => Some(JsonValue::Number(JsonNumber::PosInt(n))),
            None => None,
        },
        member(r, "apisecret"@) == match *apisecret {
            Some(s) => Some(JsonValue::String(s)),
            None => None,
        },
        member(r, "body"@) == body,
        match jsep {
            Some(j) => member(r, "jsep"@) matches Some(x) && jsep_of(x) == Some(j),
            None => member(r, "jsep"@) is None,
        },
{
    proof {
        reveal_strlit("janus");
        reveal_strlit("transaction");
        reveal_strlit("session_id");
        reveal_strlit("handle_id");
        reveal_strlit("apisecret");
        reveal_strlit("body");
        reveal_strlit("jsep");
        assert("janus"@.len() == 5 && "transaction"@.len() == 11 && "session_id"@.len() == 10);
        assert("handle_id"@.len() == 9 && "apisecret"@.len() == 9 && "handle_id"@[0] == 'h'
            && "apisecret"@[0] == 'a');
        assert("body"@.len() == 4 && "jsep"@.len() == 4 && "body"@[0] == 'b' && "jsep"@[0] == 'j');
    }
    let mut members: Vec<(String, JsonValue)> = Vec::new();
    push_member(&mut members, "janus", JsonValue::String(String::from_str(janus)));
    push_member(&mut members, "transaction", JsonValue::String(String::from_str(transaction)));
    let ghost base = members@;
    match session_id {
        Some(n) => push_member(&mut members, "session_id", JsonValue::Number(JsonNumber::PosInt(n))),
        None => {},
    }
    let ghost s1 = members@;
    match handle_id {
        Some(n) => push_member(&mut members, "handle_id", JsonValue::Number(JsonNumber::PosInt(n))),
        None => {},
    }
    let ghost s2 = members@;
    match apisecret {
        Some(s) => push_member(&mut members, "apisecret", JsonValue::String(s.clone())),
        None => {},
    }
    let ghost s3 = members@;
    match body {
        Some(b) => push_member(&mut members, "body", b),
        None => {},
    }
    let ghost s4 = members@;
    match jsep {
        Some(j) => push_member(&mut members, "jsep", jsep_to_json(&j)),
        None => {},
    }
    proof {
        assert(member_index(members@, "janus"@) == 0);
        assert(member_index(members@, "transaction"@) == 1);
        assert(members@[0] == base[0]);
        assert(members@[1] == base[1]);
        if session_id is Some {
            assert(members@[2] == s1[2]);
        }
        if handle_id is Some {
            assert(members@[s1.len() - 1] == s2[s1.len() - 1]);
        }
        if apisecret is Some {
            assert(members@[s2.len() - 1] == s3[s2.len() - 1]);
        }
        if body is Some {
            assert(members@[s3.len() - 1] == s4[s3.len() - 1]);
        }
    }
    JsonValue::Object(members)
}

/// The attachment of `plugin` to session `session_id`.
pub fn attach_request(
    transaction: &str,
    session_id: u64,
    plugin: &str,
    apisecret: &Option<String>,
) -> (r: JsonValue)
    ensures
        member(r, "janus"@) matches Some(JsonValue::String(s)) && s@ == "attach"@,
        member(r, "transaction"@) matches Some(JsonValue::String(s)) && s@ == transaction@,
        member(r, "session_id"@) == Some(JsonValue::Number(JsonNumber::PosInt(session_id))),
        member(r, "plugin"@) matches Some(JsonValue::String(s)) && s@ == plugin@,
        member(r, "apisecret"@) == match *apisecret {
            Some(s) => Some(JsonValue::String(s)),
            None => None,
        },
        member(r, "handle_id"@) is None,
{
    proof {
        reveal_strlit("janus");
        reveal_strlit("transaction");
        reveal_strlit("session_id");
        reveal_strlit("plugin");
        reveal_strlit("apisecret");
        reveal_strlit("handle_id");
        assert("janus"@.len() == 5 && "transaction"@.len() == 11 && "session_id"@.len() == 10
            && "plugin"@.len() == 6 && "apisecret"@.len() == 9 && "handle_id"@.len() == 9);
        assert("handle_id"@[0] == 'h' && "apisecret"@[0] == 'a');
    }
    let mut members: Vec<(String, JsonValue)> = Vec::new();
    push_member(&mut members, "janus", JsonValue::String(String::from_str("attach")));
    let ghost m0 = members@;
    push_member(&mut members, "transaction", JsonValue::String(String::from_str(transaction)));
    let ghost m1 = members@;
    push_member(&mut members, "session_id", JsonValue::Number(JsonNumber::PosInt(session_id)));
    let ghost m2 = members@;
    push_member(&mut members, "plugin", JsonValue::String(String::from_str(plugin)));
    let ghost m3 = members@;
    match apisecret {
        Some(s) => push_member(&mut members, "apisecret", JsonValue::String(s.clone())),
        None => {},
    }
    assert(members@[0] == m0[0]);
    assert(members@[1] == m1[1]);
    assert(members@[2] == m2[2]);
    assert(members@[3] == m3[3]);
    JsonValue::Object(members)
}

/// The keep-alive of a session: fired every few seconds, awaited by no one.
pub fn keepalive_request(session_id: u64, transaction: &str, apisecret: &Option<String>) -> (r:
    JsonValue)
    ensures
        member(r, "janus"@) matches Some(JsonValue::String(s)) && s@ == "keepalive"@,
        member(r, "transaction"@) matches Some(JsonValue::String(s)) && s@ == transaction@,
        member(r, "session_id"@) == Some(JsonValue::Number(JsonNumber::PosInt(session_id))),
        member(r, "handle_id"@) is None,
        member(r, "apisecret"@) == match *apisecret {
            Some(s) => Some(JsonValue::String(s)),
            None => None,
        },
        member(r, "body"@) is None,
        member(r, "jsep"@) is None,
{
    build_request("keepalive", transaction, Some(session_id), None, apisecret, None, None)
}

} // verus!
