//! Chat value types: message roles, chat messages, and the per-record
//! response payload of a streaming completion, together with the verified
//! extraction of those values from a JSON document.

use vstd::prelude::*;

use crate::json::{json_as_bool, json_as_str, json_get, json_is_null, json_model, Json};
use crate::json::json_as_array;

verus! {

/// The speaker of a chat message.
#[derive(Clone, Copy, Debug, PartialEq, Eq, Structural)]
pub enum Role {
    System,
    User,
    Assistant,
    Tool,
}

/// The role a wire name denotes, if any.
pub open spec fn role_of_str(s: Seq<char>) -> Option<Role> {
    if s == "system"@ {
        Some(Role::System)
    } else if s == "user"@ {
        Some(Role::User)
    } else if s == "assistant"@ {
        Some(Role::Assistant)
    } else if s == "tool"@ {
        Some(Role::Tool)
    } else {
        None
    }
}

/// The wire name of a role.
pub open spec fn spec_role_name(r: Role) -> Seq<char> {
    match r {
        Role::System => "system"@,
        Role::User => "user"@,
        Role::Assistant => "assistant"@,
        Role::Tool => "tool"@,
    }
}

/// Whether two string slices hold the same characters.
pub fn str_eq(a: &str, b: &str) -> (r: bool)
    ensures
        r == (a@ == b@),
{
    let sa: String = a.to_owned();
    let sb: String = b.to_owned();
    sa == sb
}

impl Role {
    /// Parses a wire name into a role.
    pub fn parse(s: &str) -> (r: Option<Role>)
        ensures
            r == role_of_str(s@),
    {
        if str_eq(s, "system") {
            Some(Role::System)
        } else if str_eq(s, "user") {
            Some(Role::User)
        } else if str_eq(s, "assistant") {
            Some(Role::Assistant)
        } else if str_eq(s, "tool") {
            Some(Role::Tool)
        } else {
            None
        }
    }

    /// The wire name of this role.
    pub fn name(&self) -> (r: &'static str)
        ensures
            r@ == spec_role_name(*self),
    {
        match self {
            Role::System => "system",
            Role::User => "user",
            Role::Assistant => "assistant",
            Role::Tool => "tool",
        }
    }
}

/// The mathematical value of a chat message.
pub struct ChatMessageModel {
    pub role: Role,
    pub content: Seq<char>,
    pub images: Option<Seq<Seq<char>>>,
    pub thoughts: Option<Seq<char>>,
}

/// The payload of one chat message: who speaks, the text, optionally
/// attached encoded image blobs, and optionally the model's thoughts.
#[derive(Clone, Debug)]
pub struct ChatMessageInner {
    pub role: Role,
    pub content: String,
    pub images: Option<Vec<String>>,
    pub thoughts: Option<String>,
}

impl View for ChatMessageInner {
    type V = ChatMessageModel;

    open spec fn view(&self) -> ChatMessageModel {
        ChatMessageModel {
            role: self.role,
            content: self.content@,
            images: match self.images {
                Some(v) => Some(v.deep_view()),
                None => None,
            },
            thoughts: match self.thoughts {
                Some(t) => Some(t@),
                None => None,
            },
        }
    }
}

/// One chat message. Immutable once constructed; the core never mutates
/// it, only reads it as part of a prompt request.
#[derive(Clone, Debug)]
pub struct ChatMessage {
    pub inner: ChatMessageInner,
}

impl View for ChatMessage {
    type V = ChatMessageModel;

    open spec fn view(&self) -> ChatMessageModel {
        self.inner@
    }
}

impl DeepView for ChatMessage {
    type V = ChatMessageModel;

    open spec fn deep_view(&self) -> ChatMessageModel {
        self.view()
    }
}

/// A copy of a vector of strings, equal as a value.
pub fn clone_string_vec(v: &Vec<String>) -> (r: Vec<String>)
    ensures
        r@ == v@,
{
    let mut out: Vec<String> = Vec::new();
    let mut i: usize = 0;
    while i < v.len()
        invariant
            0 <= i <= v.len(),
            out@ == v@.subrange(0, i as int),
        decreases v.len() - i,
    {
        out.push(v[i].clone());
        proof {
            assert(out@ =~= v@.subrange(0, i as int + 1));
        }
        i += 1;
    }
    proof {
        assert(v@.subrange(0, v.len() as int) =~= v@);
    }
    out
}

impl ChatMessage {
    /// A copy of this message, with the same value.
    pub fn duplicate(&self) -> (r: ChatMessage)
        ensures
            r@ == self@,
    {
        ChatMessage {
            inner: ChatMessageInner {
                role: self.inner.role,
                content: self.inner.content.clone(),
                images: match &self.inner.images {
                    Some(v) => Some(clone_string_vec(v)),
                    None => None,
                },
                thoughts: match &self.inner.thoughts {
                    Some(t) => Some(t.clone()),
                    None => None,
                },
            },
        }
    }

    /// Builds a message from its parts.
    pub fn new(role: Role, content: String, images: Option<Vec<String>>, thoughts: Option<String>)
        -> (r: ChatMessage)
        ensures
            r@.role == role,
            r@.content == content@,
            r@.images == match images {
                Some(v) => Some(v.deep_view()),
                None => None::<Seq<Seq<char>>>,
            },
            r@.thoughts == match thoughts {
                Some(t) => Some(t@),
                None => None::<Seq<char>>,
            },
    {
        ChatMessage { inner: ChatMessageInner { role, content, images, thoughts } }
    }
}

/// The mathematical value of one decoded completion record.
pub struct ChatResponseModel {
    pub done: bool,
    pub message: ChatMessageModel,
}

/// One decoded record of a streaming completion: whether the stream is
/// done, and the message fragment carried by this record.
#[derive(Clone, Debug)]
pub struct ChatResponse {
    pub done: bool,
    pub message: ChatMessage,
}

impl View for ChatResponse {
    type V = ChatResponseModel;

    open spec fn view(&self) -> ChatResponseModel {
        ChatResponseModel { done: self.done, message: self.message@ }
    }
}

impl DeepView for ChatResponse {
    type V = ChatResponseModel;

    open spec fn deep_view(&self) -> ChatResponseModel {
        self.view()
    }
}

/// An optional string field of a JSON object: `Some(None)` when absent or
/// null, `Some(Some(s))` when a string, `None` when present with any other
/// type (malformed).
pub open spec fn opt_str_field(j: Json, key: Seq<char>) -> Option<Option<Seq<char>>> {
    match j.obj_get(key) {
        None => Some(None),
        Some(Json::Null) => Some(None),
        Some(Json::Str(s)) => Some(Some(s)),
        Some(_) => None,
    }
}

/// Whether every element of a JSON array is a string.
pub open spec fn all_strings(a: Seq<Json>) -> bool {
    forall|i: int| 0 <= i < a.len() ==> a[i] is Str
}

/// An optional array-of-strings field of a JSON object, under the same
/// convention as [`opt_str_field`].
pub open spec fn opt_str_arr_field(j: Json, key: Seq<char>) -> Option<Option<Seq<Seq<char>>>> {
    match j.obj_get(key) {
        None => Some(None),
        Some(Json::Null) => Some(None),
        Some(Json::Arr(a)) => if all_strings(a) {
            Some(Some(a.map_values(|x: Json| x.spec_str().unwrap())))
        } else {
            None
        },
        Some(_) => None,
    }
}

/// The chat message a JSON document denotes: an object with a known `role`
/// name, a string `content`, an optional string array `images` and an
/// optional string `thoughts`; anything else is malformed.
pub open spec fn message_of_json(j: Json) -> Option<ChatMessageModel> {
    match (j.obj_get("role"@), j.obj_get("content"@)) {
        (Some(Json::Str(role_s)), Some(Json::Str(content))) => match role_of_str(role_s) {
            Some(role) => match (opt_str_arr_field(j, "images"@), opt_str_field(j, "thoughts"@)) {
                (Some(images), Some(thoughts)) => Some(
                    ChatMessageModel { role, content, images, thoughts },
                ),
                _ => None,
            },
            None => None,
        },
        _ => None,
    }
}

/// The completion record a JSON document denotes: an object with a boolean
/// `done` and a `message` object; anything else is malformed.
pub open spec fn chat_of_json(j: Json) -> Option<ChatResponseModel> {
    match j.obj_get("done"@) {
        Some(Json::Bool(done)) => match j.obj_get("message"@) {
            Some(mj) => match message_of_json(mj) {
                Some(m) => Some(ChatResponseModel { done, message: m }),
                None => None,
            },
            None => None,
        },
        _ => None,
    }
}

/// Reads an optional string field out of a parsed JSON object.
fn read_opt_str_field(v: &serde_json::Value, key: &str) -> (r: Option<Option<String>>)
    ensures
        r matches Some(f) ==> opt_str_field(json_model(*v), key@) == Some(
            match f {
                Some(s) => Some(s@),
                None => None::<Seq<char>>,
            },
        ),
        r is None ==> opt_str_field(json_model(*v), key@) is None,
{
    match json_get(v, key) {
        None => Some(None),
        Some(f) => {
            if json_is_null(f) {
                Some(None)
            } else {
                match json_as_str(f) {
                    Some(s) => Some(Some(s.to_owned())),
                    None => None,
                }
            }
        },
    }
}

/// Reads an optional array-of-strings field out of a parsed JSON object.
fn read_opt_str_arr_field(v: &serde_json::Value, key: &str) -> (r: Option<Option<Vec<String>>>)
    ensures
        r matches Some(f) ==> opt_str_arr_field(json_model(*v), key@) == Some(
            match f {
                Some(a) => Some(a.deep_view()),
                None => None::<Seq<Seq<char>>>,
            },
        ),
        r is None ==> opt_str_arr_field(json_model(*v), key@) is None,
{
    match json_get(v, key) {
        None => Some(None),
        Some(f) => {
            if json_is_null(f) {
                Some(None)
            } else {
                match json_as_array(f) {
                    None => None,
                    Some(a) => {
                        let ghost elts = json_model(*f)->Arr_0;
                        let mut out: Vec<String> = Vec::new();
                        let mut i: usize = 0;
                        while i < a.len()
                            invariant
                                json_model(*v).obj_get(key@) == Some(json_model(*f)),
                                json_model(*f) == Json::Arr(elts),
                                a@.len() == elts.len(),
                                forall|k: int|
                                    0 <= k < elts.len() ==> json_model(#[trigger] a@[k]) == elts[k],
                                0 <= i <= a.len(),
                                out.len() == i,
                                forall|k: int| 0 <= k < i ==> elts[k] is Str,
                                forall|k: int|
                                    0 <= k < i ==> (#[trigger] out@[k])@ == elts[k].spec_str().unwrap(),
                            decreases a.len() - i,
                        {
                            match json_as_str(&a[i]) {
                                Some(s) => {
                                    out.push(s.to_owned());
                                },
                                None => {
                                    proof {
                                        assert(!all_strings(elts)) by {
                                            let ki: int = i as int;
                                            assert(0 <= ki && ki < elts.len());
                                            assert(!(elts[ki] is Str));
                                        }
                                    }
                                    return None;
                                },
                            }
                            i += 1;
                        }
                        proof {
                            assert(out.deep_view() =~= elts.map_values(
                                |x: Json| x.spec_str().unwrap(),
                            ));
                        }
                        Some(Some(out))
                    },
                }
            }
        },
    }
}

/// Extracts a chat message from a parsed JSON document; `None` exactly on
/// documents [`message_of_json`] calls malformed.
pub fn message_from_value(v: &serde_json::Value) -> (r: Option<ChatMessage>)
    ensures
        r matches Some(m) ==> message_of_json(json_model(*v)) == Some(m@),
        r is None ==> message_of_json(json_model(*v)) is None,
{
    let role_v = match json_get(v, "role") {
        Some(f) => f,
        None => {
            return None;
        },
    };
    let role_s = match json_as_str(role_v) {
        Some(s) => s,
        None => {
            return None;
        },
    };
    let role = match Role::parse(role_s) {
        Some(r) => r,
        None => {
            return None;
        },
    };
    let content_v = match json_get(v, "content") {
        Some(f) => f,
        None => {
            return None;
        },
    };
    let content = match json_as_str(content_v) {
        Some(s) => s.to_owned(),
        None => {
            return None;
        },
    };
    let images = match read_opt_str_arr_field(v, "images") {
        Some(f) => f,
        None => {
            return None;
        },
    };
    let thoughts = match read_opt_str_field(v, "thoughts") {
        Some(f) => f,
        None => {
            return None;
        },
    };
    Some(ChatMessage { inner: ChatMessageInner { role, content, images, thoughts } })
}

/// Extracts one completion record from a parsed JSON document; `None`
/// exactly on documents [`chat_of_json`] calls malformed.
pub fn chat_from_value(v: &serde_json::Value) -> (r: Option<ChatResponse>)
    ensures
        r matches Some(c) ==> chat_of_json(json_model(*v)) == Some(c@),
        r is None ==> chat_of_json(json_model(*v)) is None,
{
    let done_v = match json_get(v, "done") {
        Some(f) => f,
        None => {
            return None;
        },
    };
    let done = match json_as_bool(done_v) {
        Some(b) => b,
        None => {
            return None;
        },
    };
    let msg_v = match json_get(v, "message") {
        Some(f) => f,
        None => {
            return None;
        },
    };
    let message = match message_from_value(msg_v) {
        Some(m) => m,
        None => {
            return None;
        },
    };
    Some(ChatResponse { done, message })
}

} // verus!
