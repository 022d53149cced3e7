//! JSON documents as the gateway reads them: chat requests and the answers
//! of language-model services.

use vstd::prelude::*;
use crate::text::str_eq;

verus! {

broadcast use vstd::string::group_string_axioms;

/// A JSON value. A number is held as its decimal text.
pub enum JsonValue {
    Null,
    Bool(bool),
    Number(String),
    Text(String),
    Array(Vec<JsonValue>),
    Object(Vec<JsonMember>),
}

/// One member of a JSON object.
pub struct JsonMember {
    pub key: String,
    pub value: JsonValue,
}

/// `serde_json::Value`, declared so that a parsed document can be carried to
/// its conversion; nothing is seen inside it.
#[verifier::external_type_specification]
#[verifier::external_body]
pub struct ExSerdeJsonValue(serde_json::Value);

/// The document `serde_json` reads from `bytes`, in this library's form, or
/// `None` when `serde_json` does not accept the bytes as JSON.
pub uninterp spec fn json_of(bytes: Seq<u8>) -> Option<JsonValue>;

/// `serde_json::from_slice::<serde_json::Value>`: the JSON document in
/// `bytes`, converted to a `JsonValue`, or `None` when the bytes are not
/// JSON. The result depends on the bytes alone; what it is for given bytes
/// is not stated here.
#[verifier::external_body]
pub(crate) fn parse_json(bytes: &[u8]) -> (r: Option<JsonValue>)
    ensures
        r == json_of(bytes@),
{
    match serde_json::from_slice::<serde_json::Value>(bytes) {
        Ok(v) => Some(json_from_value(&v)),
        Err(_) => None,
    }
}

/// The conversion `parse_json` applies to what `serde_json` read: each
/// `serde_json::Value` variant to the `JsonValue` variant of the same name
/// (a number to its text, an object's members in `serde_json`'s order).
#[verifier::external_body]
fn json_from_value(v: &serde_json::Value) -> (r: JsonValue) {
    match v {
        serde_json::Value::Null => JsonValue::Null,
        serde_json::Value::Bool(b) => JsonValue::Bool(*b),
        serde_json::Value::Number(n) => JsonValue::Number(n.to_string()),
        serde_json::Value::String(t) => JsonValue::Text(t.clone()),
        serde_json::Value::Array(items) => JsonValue::Array(items.iter().map(json_from_value).collect()),
        serde_json::Value::Object(map) => JsonValue::Object(
            map.iter().map(|(k, x)| JsonMember { key: k.clone(), value: json_from_value(x) }).collect(),
        ),
    }
}

/// The value of the first member called `key`.
pub open spec fn member_lookup(ms: Seq<JsonMember>, key: Seq<char>) -> Option<JsonValue>
    decreases ms.len(),
{
    if ms.len() == 0 {
        None
    } else if ms[0].key@ == key {
        Some(ms[0].value)
    } else {
        member_lookup(ms.drop_first(), key)
    }
}

/// The member `key` of `v`, when `v` is an object that has one.
pub open spec fn json_get(v: JsonValue, key: Seq<char>) -> Option<JsonValue> {
    match v {
        JsonValue::Object(ms) => member_lookup(ms@, key),
        _ => None,
    }
}

/// The text of `v`, when `v` is a string.
pub open spec fn text_of(v: Option<JsonValue>) -> Option<Seq<char>> {
    match v {
        Some(JsonValue::Text(s)) => Some(s@),
        _ => None,
    }
}

proof fn lemma_member_lookup_skip(ms: Seq<JsonMember>, key: Seq<char>, i: int)
    requires
        0 <= i < ms.len(),
        ms[i].key@ != key,
    ensures
        member_lookup(ms.skip(i), key) == member_lookup(ms.skip(i + 1), key),
{
    assert(ms.skip(i).drop_first() =~= ms.skip(i + 1));
}

impl JsonValue {
    /// The member `key`, when this is an object that has one.
    pub fn get(&self, key: &str) -> (r: Option<&JsonValue>)
        ensures
            r matches Some(x) ==> json_get(*self, key@) == Some(*x),
            r is None ==> json_get(*self, key@) is None,
    {
        match self {
            JsonValue::Object(ms) => {
                let mut i: usize = 0;
                assert(ms@.skip(0) =~= ms@);
                while i < ms.len()
                    invariant
                        i <= ms.len(),
                        json_get(*self, key@) == member_lookup(ms@, key@),
                        member_lookup(ms@, key@) == member_lookup(ms@.skip(i as int), key@),
                    decreases ms.len() - i,
                {
                    if str_eq(ms[i].key.as_str(), key) {
                        assert(ms@.skip(i as int)[0] == ms@[i as int]);
                        return Some(&ms[i].value);
                    }
                    proof {
                        lemma_member_lookup_skip(ms@, key@, i as int);
                    }
                    i = i + 1;
                }
                None
            },
            _ => None,
        }
    }

    /// The text, when this is a string.
    pub fn as_text(&self) -> (r: Option<&String>)
        ensures
            r matches Some(s) ==> text_of(Some(*self)) == Some(s@),
            r is None ==> text_of(Some(*self)) is None,
    {
        match self {
            JsonValue::Text(s) => Some(s),
            _ => None,
        }
    }
}

/// The text of member `key` of `v`, when it is a string.
pub fn member_text<'a>(v: &'a JsonValue, key: &str) -> (r: Option<&'a String>)
    ensures
        r matches Some(s) ==> text_of(json_get(*v, key@)) == Some(s@),
        r is None ==> text_of(json_get(*v, key@)) is None,
{
    match v.get(key) {
        Some(x) => x.as_text(),
        None => None,
    }
}

/// The request carries tools, or is a JSON-RPC 2.0 call: its answer depends on
/// more than the prompt, so it is never answered from the cache.
pub open spec fn is_dynamic_request(j: JsonValue) -> bool {
    let tools = match json_get(j, "tools"@) {
        Some(JsonValue::Array(_)) => true,
        _ => false,
    };
    let rpc = text_of(json_get(j, "jsonrpc"@)) == Some("2.0"@) && json_get(j, "method"@) is Some;
    tools || rpc
}

/// The message has role `user`.
pub open spec fn is_user_message(m: JsonValue) -> bool {
    text_of(json_get(m, "role"@)) == Some("user"@)
}

/// The last message with role `user`.
pub open spec fn last_user_message(ms: Seq<JsonValue>) -> Option<JsonValue>
    decreases ms.len(),
{
    if ms.len() == 0 {
        None
    } else if is_user_message(ms.last()) {
        Some(ms.last())
    } else {
        last_user_message(ms.drop_last())
    }
}

/// The prompt of a chat request: the content of its last `user` message, when
/// that content is a string.
pub open spec fn user_prompt(j: JsonValue) -> Option<Seq<char>> {
    match json_get(j, "messages"@) {
        Some(JsonValue::Array(ms)) => match last_user_message(ms@) {
            Some(m) => text_of(json_get(m, "content"@)),
            None => None,
        },
        _ => None,
    }
}

/// The answer text of a chat completion: `choices[0].message.content`, when
/// it is a string.
pub open spec fn completion_text(j: JsonValue) -> Option<Seq<char>> {
    match json_get(j, "choices"@) {
        Some(JsonValue::Array(cs)) => if cs@.len() > 0 {
            match json_get(cs@[0], "message"@) {
                Some(m) => text_of(json_get(m, "content"@)),
                None => None,
            }
        } else {
            None
        },
        _ => None,
    }
}

/// Whether the request carries tools or is a JSON-RPC 2.0 call.
pub fn is_mcp_or_tool_request(json_body: &JsonValue) -> (r: bool)
    ensures
        r == is_dynamic_request(*json_body),
{
    let tools = match json_body.get("tools") {
        Some(JsonValue::Array(_)) => true,
        _ => false,
    };
    let rpc = match member_text(json_body, "jsonrpc") {
        Some(v) => str_eq(v.as_str(), "2.0"),
        None => false,
    };
    tools || (rpc && json_body.get("method").is_some())
}

proof fn lemma_last_user_take(ms: Seq<JsonValue>, i: int)
    requires
        0 <= i <= ms.len(),
        forall|j: int| i <= j < ms.len() ==> !is_user_message(#[trigger] ms[j]),
    ensures
        last_user_message(ms) == last_user_message(ms.take(i)),
    decreases ms.len() - i,
{
    if i == ms.len() {
        assert(ms.take(i) =~= ms);
    } else {
        lemma_last_user_take(ms.drop_last(), i);
        assert(ms.drop_last().take(i) =~= ms.take(i));
    }
}

/// The prompt of a chat request: the content of its last `user` message, when
/// that content is a string.
pub fn extract_user_prompt(json_body: &JsonValue) -> (r: Option<String>)
    ensures
        r matches Some(p) ==> user_prompt(*json_body) == Some(p@),
        r is None ==> user_prompt(*json_body) is None,
{
    match json_body.get("messages") {
        Some(JsonValue::Array(ms)) => {
            let mut i: usize = ms.len();
            let mut found = false;
            while i > 0 && !found
                invariant
                    i <= ms.len(),
                    forall|j: int| i <= j < ms.len() ==> !is_user_message(#[trigger] ms@[j]),
                    found ==> 0 < i <= ms.len() && is_user_message(ms@[i - 1]),
                decreases i + (if found { 0int } else { 1int }),
            {
                let is_user = match member_text(&ms[i - 1], "role") {
                    Some(role) => str_eq(role.as_str(), "user"),
                    None => false,
                };
                if is_user {
                    found = true;
                } else {
                    i = i - 1;
                }
            }
            if !found {
                proof {
                    lemma_last_user_take(ms@, 0);
                    assert(ms@.take(0) =~= Seq::<JsonValue>::empty());
                }
                return None;
            }
            proof {
                lemma_last_user_take(ms@, i as int);
                assert(ms@.take(i as int).last() == ms@[i - 1]);
            }
            match member_text(&ms[i - 1], "content") {
                Some(c) => Some(c.clone()),
                None => None,
            }
        },
        _ => None,
    }
}

/// The answer text of a chat completion: `choices[0].message.content`, when
/// it is a string.
pub fn extract_completion_text(response: &JsonValue) -> (r: Option<String>)
    ensures
        r matches Some(t) ==> completion_text(*response) == Some(t@),
        r is None ==> completion_text(*response) is None,
{
    match response.get("choices") {
        Some(JsonValue::Array(cs)) => {
            if cs.len() == 0 {
                return None;
            }
            match cs[0].get("message") {
                Some(m) => match member_text(m, "content") {
                    Some(t) => Some(t.clone()),
                    None => None,
                },
                None => None,
            }
        },
        _ => None,
    }
}

} // verus!
