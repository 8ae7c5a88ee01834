//! Verified serialization of the request bodies the library sends to a
//! backend service: the chat-completion request, the per-model detail
//! query, and the load/unload request.
//!
//! Bodies are built character by character against a spec that defines the
//! wire format, including JSON string escaping.

use vstd::prelude::*;

use vstd::string::StrSliceExecFns;

use crate::chat::{spec_role_name, ChatMessage, ChatMessageModel};

verus! {

/// The hexadecimal digit of a value below 16.
pub open spec fn hex_digit(n: u32) -> char {
    if n == 0 {
        '0'
    } else if n == 1 {
        '1'
    } else if n == 2 {
        '2'
    } else if n == 3 {
        '3'
    } else if n == 4 {
        '4'
    } else if n == 5 {
        '5'
    } else if n == 6 {
        '6'
    } else if n == 7 {
        '7'
    } else if n == 8 {
        '8'
    } else if n == 9 {
        '9'
    } else if n == 10 {
        'a'
    } else if n == 11 {
        'b'
    } else if n == 12 {
        'c'
    } else if n == 13 {
        'd'
    } else if n == 14 {
        'e'
    } else {
        'f'
    }
}

/// How one character appears inside a JSON string: quotes and backslashes
/// are escaped, the common control characters get their short escapes, any
/// other control character its four-digit escape.
pub open spec fn escape_char(c: char) -> Seq<char> {
    if c == '"' {
        seq!['\\', '"']
    } else if c == '\\' {
        seq!['\\', '\\']
    } else if c == '\n' {
        seq!['\\', 'n']
    } else if c == '\r' {
        seq!['\\', 'r']
    } else if c == '\t' {
        seq!['\\', 't']
    } else if (c as u32) < 0x20 {
        seq!['\\', 'u', '0', '0', hex_digit((c as u32) / 16), hex_digit((c as u32) % 16)]
    } else {
        seq![c]
    }
}

/// How a whole text appears inside a JSON string.
pub open spec fn json_escape(s: Seq<char>) -> Seq<char>
    decreases s.len(),
{
    if s.len() == 0 {
        Seq::empty()
    } else {
        escape_char(s[0]) + json_escape(s.drop_first())
    }
}

/// Escaping distributes over concatenation.
pub proof fn lemma_json_escape_add(a: Seq<char>, b: Seq<char>)
    ensures
        json_escape(a + b) == json_escape(a) + json_escape(b),
    decreases a.len(),
{
    if a.len() == 0 {
        assert(a + b =~= b);
        assert(json_escape(a) + json_escape(b) =~= json_escape(b));
    } else {
        assert((a + b).drop_first() =~= a.drop_first() + b);
        lemma_json_escape_add(a.drop_first(), b);
        assert(escape_char(a[0]) + (json_escape(a.drop_first()) + json_escape(b)) =~= (escape_char(
            a[0],
        ) + json_escape(a.drop_first())) + json_escape(b));
    }
}

/// Relies on `core::iter::Iterator::collect` for `String`: the collected
/// string holds exactly the characters of the vector, in order.
#[verifier::external_body]
pub(crate) fn string_from_chars(cs: &Vec<char>) -> (r: String)
    ensures
        r@ == cs@,
{
    cs.iter().collect()
}

/// Appends the characters of a string slice.
pub fn push_str_chars(out: &mut Vec<char>, s: &str)
    ensures
        final(out)@ == old(out)@ + s@,
{
    let n = s.unicode_len();
    let mut i: usize = 0;
    while i < n
        invariant
            n == s@.len(),
            0 <= i <= n,
            out@ == old(out)@ + s@.subrange(0, i as int),
        decreases n - i,
    {
        let c = s.get_char(i);
        out.push(c);
        proof {
            assert(old(out)@ + s@.subrange(0, i as int) + seq![s@[i as int]] =~= old(out)@
                + s@.subrange(0, i as int + 1));
        }
        i += 1;
    }
    proof {
        assert(s@.subrange(0, n as int) =~= s@);
    }
}

/// The hexadecimal digit of a value below 16.
fn hex_digit_char(n: u32) -> (c: char)
    requires
        n < 16,
    ensures
        c == hex_digit(n),
{
    if n == 0 {
        '0'
    } else if n == 1 {
        '1'
    } else if n == 2 {
        '2'
    } else if n == 3 {
        '3'
    } else if n == 4 {
        '4'
    } else if n == 5 {
        '5'
    } else if n == 6 {
        '6'
    } else if n == 7 {
        '7'
    } else if n == 8 {
        '8'
    } else if n == 9 {
        '9'
    } else if n == 10 {
        'a'
    } else if n == 11 {
        'b'
    } else if n == 12 {
        'c'
    } else if n == 13 {
        'd'
    } else if n == 14 {
        'e'
    } else {
        'f'
    }
}

/// Appends one character in its escaped form.
fn push_escaped_char(out: &mut Vec<char>, c: char)
    ensures
        final(out)@ == old(out)@ + escape_char(c),
{
    let ghost out0 = out@;
    if c == '"' {
        out.push('\\');
        out.push('"');
        proof {
            assert(out@ =~= out0 + escape_char(c));
        }
    } else if c == '\\' {
        out.push('\\');
        out.push('\\');
        proof {
            assert(out@ =~= out0 + escape_char(c));
        }
    } else if c == '\n' {
        out.push('\\');
        out.push('n');
        proof {
            assert(out@ =~= out0 + escape_char(c));
        }
    } else if c == '\r' {
        out.push('\\');
        out.push('r');
        proof {
            assert(out@ =~= out0 + escape_char(c));
        }
    } else if c == '\t' {
        out.push('\\');
        out.push('t');
        proof {
            assert(out@ =~= out0 + escape_char(c));
        }
    } else if (c as u32) < 0x20 {
        out.push('\\');
        out.push('u');
        out.push('0');
        out.push('0');
        out.push(hex_digit_char((c as u32) / 16));
        out.push(hex_digit_char((c as u32) % 16));
        proof {
            assert(out@ =~= out0 + escape_char(c));
        }
    } else {
        out.push(c);
        proof {
            assert(out@ =~= out0 + escape_char(c));
        }
    }
}

/// Appends a whole text in its escaped form.
fn push_escaped(out: &mut Vec<char>, s: &str)
    ensures
        final(out)@ == old(out)@ + json_escape(s@),
{
    let n = s.unicode_len();
    let mut i: usize = 0;
    while i < n
        invariant
            n == s@.len(),
            0 <= i <= n,
            out@ == old(out)@ + json_escape(s@.subrange(0, i as int)),
        decreases n - i,
    {
        let c = s.get_char(i);
        push_escaped_char(out, c);
        proof {
            let pre = s@.subrange(0, i as int);
            let post = s@.subrange(0, i as int + 1);
            assert(post =~= pre + seq![s@[i as int]]);
            lemma_json_escape_add(pre, seq![s@[i as int]]);
            assert(json_escape(seq![s@[i as int]]) =~= escape_char(s@[i as int])) by {
                assert(seq![s@[i as int]].drop_first() =~= Seq::<char>::empty());
                assert(json_escape(Seq::<char>::empty()) =~= Seq::<char>::empty());
                assert(escape_char(s@[i as int]) + Seq::<char>::empty() =~= escape_char(
                    s@[i as int],
                ));
            }
            assert(old(out)@ + json_escape(pre) + escape_char(s@[i as int]) =~= old(out)@
                + json_escape(post));
        }
        i += 1;
    }
    proof {
        assert(s@.subrange(0, n as int) =~= s@);
    }
}

/// A JSON string literal: the escaped text between quotes.
pub open spec fn json_string(s: Seq<char>) -> Seq<char> {
    seq!['"'] + json_escape(s) + seq!['"']
}

/// Appends a JSON string literal.
fn push_json_string(out: &mut Vec<char>, s: &str)
    ensures
        final(out)@ == old(out)@ + json_string(s@),
{
    let ghost out0 = out@;
    out.push('"');
    push_escaped(out, s);
    out.push('"');
    proof {
        assert(out@ =~= out0 + json_string(s@));
    }
}

/// The wire form of one chat message: `role` and `content` always,
/// `images` and `thoughts` only when present.
pub open spec fn message_json(m: ChatMessageModel) -> Seq<char> {
    "{\"role\":"@ + json_string(spec_role_name(m.role)) + ",\"content\":"@ + json_string(m.content)
        + (match m.images {
        Some(imgs) => ",\"images\":"@ + string_array_json(imgs),
        None => Seq::empty(),
    }) + (match m.thoughts {
        Some(t) => ",\"thoughts\":"@ + json_string(t),
        None => Seq::empty(),
    }) + "}"@
}

/// The wire form of an array of JSON strings.
pub open spec fn string_array_json(items: Seq<Seq<char>>) -> Seq<char> {
    seq!['['] + string_array_items(items) + seq![']']
}

/// The comma-separated items of a JSON string array.
pub open spec fn string_array_items(items: Seq<Seq<char>>) -> Seq<char>
    decreases items.len(),
{
    if items.len() == 0 {
        Seq::empty()
    } else if items.len() == 1 {
        json_string(items[0])
    } else {
        string_array_items(items.drop_last()) + seq![','] + json_string(items.last())
    }
}

/// Appends a JSON array of strings.
fn push_string_array(out: &mut Vec<char>, items: &Vec<String>)
    ensures
        final(out)@ == old(out)@ + string_array_json(items.deep_view()),
{
    let ghost out0 = out@;
    out.push('[');
    let mut i: usize = 0;
    while i < items.len()
        invariant
            0 <= i <= items.len(),
            out@ == out0 + seq!['['] + string_array_items(items.deep_view().subrange(0, i as int)),
        decreases items.len() - i,
    {
        if i > 0 {
            out.push(',');
        }
        push_json_string(out, items[i].as_str());
        proof {
            let dv = items.deep_view();
            let pre = dv.subrange(0, i as int);
            let post = dv.subrange(0, i as int + 1);
            assert(post.drop_last() =~= pre);
            assert(post.last() == dv[i as int]);
            if i == 0 {
                assert(string_array_items(post) == json_string(dv[0]));
                assert(out@ =~= out0 + seq!['['] + string_array_items(post));
            } else {
                assert(string_array_items(post) == string_array_items(pre) + seq![',']
                    + json_string(dv[i as int]));
                assert(out@ =~= out0 + seq!['['] + string_array_items(post));
            }
        }
        i += 1;
    }
    out.push(']');
    proof {
        assert(items.deep_view().subrange(0, items.len() as int) =~= items.deep_view());
        assert(out@ =~= out0 + string_array_json(items.deep_view()));
    }
}

/// Appends the wire form of one chat message.
fn push_message(out: &mut Vec<char>, m: &ChatMessage)
    ensures
        final(out)@ == old(out)@ + message_json(m@),
{
    let ghost out0 = out@;
    push_str_chars(out, "{\"role\":");
    push_json_string(out, m.inner.role.name());
    push_str_chars(out, ",\"content\":");
    push_json_string(out, m.inner.content.as_str());
    match &m.inner.images {
        Some(imgs) => {
            push_str_chars(out, ",\"images\":");
            push_string_array(out, imgs);
        },
        None => {},
    }
    match &m.inner.thoughts {
        Some(t) => {
            push_str_chars(out, ",\"thoughts\":");
            push_json_string(out, t.as_str());
        },
        None => {},
    }
    push_str_chars(out, "}");
    proof {
        assert(out@ =~= out0 + message_json(m@));
    }
}

/// The wire form of a whole message history.
pub open spec fn messages_json(ms: Seq<ChatMessageModel>) -> Seq<char> {
    seq!['['] + messages_items(ms) + seq![']']
}

/// The comma-separated items of a message array.
pub open spec fn messages_items(ms: Seq<ChatMessageModel>) -> Seq<char>
    decreases ms.len(),
{
    if ms.len() == 0 {
        Seq::empty()
    } else if ms.len() == 1 {
        message_json(ms[0])
    } else {
        messages_items(ms.drop_last()) + seq![','] + message_json(ms.last())
    }
}

/// The body of a chat-completion request: the model to drive, a fixed
/// keep-alive, whether the model should think, and the full message
/// sequence (the history followed by the new message).
pub open spec fn chat_body_spec(model_id: Seq<char>, think: bool, ms: Seq<ChatMessageModel>) -> Seq<
    char,
> {
    "{\"model\":"@ + json_string(model_id) + ",\"keep_alive\":\"10m\",\"think\":"@ + (if think {
        "true"@
    } else {
        "false"@
    }) + ",\"messages\":"@ + messages_json(ms) + "}"@
}

/// Builds the body of a chat-completion request.
pub fn chat_request_body(model_id: &str, think: bool, messages: &Vec<ChatMessage>) -> (r: String)
    ensures
        r@ == chat_body_spec(model_id@, think, messages.deep_view()),
{
    let mut out: Vec<char> = Vec::new();
    push_str_chars(&mut out, "{\"model\":");
    push_json_string(&mut out, model_id);
    push_str_chars(&mut out, ",\"keep_alive\":\"10m\",\"think\":");
    if think {
        push_str_chars(&mut out, "true");
    } else {
        push_str_chars(&mut out, "false");
    }
    push_str_chars(&mut out, ",\"messages\":");
    let ghost mid = out@;
    out.push('[');
    let mut i: usize = 0;
    while i < messages.len()
        invariant
            0 <= i <= messages.len(),
            out@ == mid + seq!['['] + messages_items(messages.deep_view().subrange(0, i as int)),
        decreases messages.len() - i,
    {
        if i > 0 {
            out.push(',');
        }
        push_message(&mut out, &messages[i]);
        proof {
            let dv = messages.deep_view();
            let pre = dv.subrange(0, i as int);
            let post = dv.subrange(0, i as int + 1);
            assert(post.drop_last() =~= pre);
            assert(post.last() == dv[i as int]);
            if i == 0 {
                assert(out@ =~= mid + seq!['['] + messages_items(post));
            } else {
                assert(out@ =~= mid + seq!['['] + messages_items(post));
            }
        }
        i += 1;
    }
    out.push(']');
    push_str_chars(&mut out, "}");
    let r = string_from_chars(&out);
    proof {
        assert(messages.deep_view().subrange(0, messages.len() as int) =~= messages.deep_view());
        assert(out@ =~= chat_body_spec(model_id@, think, messages.deep_view()));
    }
    r
}

/// The body of a per-model detail query.
pub open spec fn show_body_spec(model_name: Seq<char>) -> Seq<char> {
    "{\"model\":"@ + json_string(model_name) + "}"@
}

/// Builds the body of a per-model detail query.
pub fn show_request_body(model_name: &str) -> (r: String)
    ensures
        r@ == show_body_spec(model_name@),
{
    let mut out: Vec<char> = Vec::new();
    push_str_chars(&mut out, "{\"model\":");
    push_json_string(&mut out, model_name);
    push_str_chars(&mut out, "}");
    let r = string_from_chars(&out);
    proof {
        assert(out@ =~= show_body_spec(model_name@));
    }
    r
}

/// The body of a load or unload request: loading names the model and a
/// null keep-alive; unloading asks for a zero keep-alive.
pub open spec fn generate_body_spec(model_name: Seq<char>, unload: bool) -> Seq<char> {
    "{\"model\":"@ + json_string(model_name) + ",\"keep_alive\":"@ + (if unload {
        "0"@
    } else {
        "null"@
    }) + "}"@
}

/// Builds the body of a load or unload request.
pub fn generate_request_body(model_name: &str, unload: bool) -> (r: String)
    ensures
        r@ == generate_body_spec(model_name@, unload),
{
    let mut out: Vec<char> = Vec::new();
    push_str_chars(&mut out, "{\"model\":");
    push_json_string(&mut out, model_name);
    push_str_chars(&mut out, ",\"keep_alive\":");
    if unload {
        push_str_chars(&mut out, "0");
    } else {
        push_str_chars(&mut out, "null");
    }
    push_str_chars(&mut out, "}");
    let r = string_from_chars(&out);
    proof {
        assert(out@ =~= generate_body_spec(model_name@, unload));
    }
    r
}

/// The full message sequence of a prompt: the history followed by the new
/// message.
pub fn assemble_messages(content: ChatMessage, history: &Vec<ChatMessage>) -> (r: Vec<ChatMessage>)
    ensures
        r.deep_view() == history.deep_view().push(content@),
{
    let mut messages: Vec<ChatMessage> = Vec::new();
    let mut i: usize = 0;
    while i < history.len()
        invariant
            0 <= i <= history.len(),
            messages.len() == i,
            forall|k: int| 0 <= k < i ==> (#[trigger] messages@[k])@ == history@[k]@,
        decreases history.len() - i,
    {
        let m = history[i].duplicate();
        messages.push(m);
        i += 1;
    }
    let ghost cv = content@;
    messages.push(content);
    proof {
        let dv = history.deep_view();
        assert forall|k: int| 0 <= k < messages@.len() implies #[trigger] messages.deep_view()[k]
            == dv.push(cv)[k] by {
            assert(messages.deep_view()[k] == messages@[k].deep_view());
            if k < dv.len() {
                assert(dv[k] == history@[k].deep_view());
            }
        }
        assert(messages.deep_view() =~= dv.push(cv));
    }
    messages
}

} // verus!
