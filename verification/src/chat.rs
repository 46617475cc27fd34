//! Chat Completions side of the translator: the request body, and the
//! streamed chunks read back into stream events.

use vstd::prelude::*;

use crate::anthropic::{desc_json, events_view, js, str_or};
use crate::cif::{
    contents_view, finish_reason_of, messages_view, opt_string_view, tool_calls_view, tools_view, Content, ContentV,
    FinishReason, FinishReasonV, Message, MessageV, Request, StreamEvent, StreamEventV, Tool, ToolCall, ToolCallV,
    ToolV,
};
use crate::json::{array, items_view, jarr, jget, jget_str, jint, jv, members_view, object, pairs2, pairs3, push_item, push_member, str_json, Json, JsonV};
use crate::json_serde::{json_parsed, parse_json};
use crate::text::{chars_of, concat_str, str_eq, string_from_chars, trim, trim_chars};

verus! {

/// Chat content: a single text piece as a plain string, anything else as
/// an array of parts (text parts and `image_url` parts).
pub open spec fn chat_content(cs: Seq<ContentV>) -> JsonV {
    if cs.len() == 1 && cs[0] is Text {
        js(cs[0]->text)
    } else {
        JsonV::Array(cs.map_values(|c: ContentV| chat_part(c)))
    }
}

/// One part of multi-part chat content.
pub open spec fn chat_part(c: ContentV) -> JsonV {
    match c {
        ContentV::Text { text } => JsonV::Object(seq![("type"@, js("text"@)), ("text"@, js(text))]),
        ContentV::Image { url, .. } => JsonV::Object(
            seq![("type"@, js("image_url"@)), ("image_url"@, JsonV::Object(seq![("url"@, js(url))]))],
        ),
    }
}

/// The text pieces of `cs`, concatenated.
pub open spec fn flatten_text(cs: Seq<ContentV>) -> Seq<char>
    decreases cs.len(),
{
    if cs.len() == 0 {
        Seq::empty()
    } else {
        flatten_text(cs.drop_last()) + match cs.last() {
            ContentV::Text { text } => text,
            ContentV::Image { .. } => Seq::empty(),
        }
    }
}

/// A chat `tool_calls` entry.
pub open spec fn chat_tool_call(tc: ToolCallV) -> JsonV {
    JsonV::Object(
        seq![
            ("id"@, js(tc.id)),
            ("type"@, js("function"@)),
            ("function"@, JsonV::Object(seq![("name"@, js(tc.name)), ("arguments"@, js(tc.arguments))])),
        ],
    )
}

/// The text of assistant content as JSON: the string, or `null` when empty.
pub open spec fn text_or_null(t: Seq<char>) -> JsonV {
    if t.len() > 0 {
        js(t)
    } else {
        JsonV::Null
    }
}

/// The chat messages one message becomes: none for reasoning (chat has no
/// slot for it).
pub open spec fn chat_messages_of(m: MessageV) -> Seq<JsonV> {
    match m {
        MessageV::User { content } => seq![
            JsonV::Object(seq![("role"@, js("user"@)), ("content"@, chat_content(content))]),
        ],
        MessageV::Assistant { content, tool_calls } => seq![
            JsonV::Object(
                seq![("role"@, js("assistant"@)), ("content"@, text_or_null(flatten_text(content)))]
                    + if tool_calls.len() > 0 {
                    seq![("tool_calls"@, JsonV::Array(tool_calls.map_values(|tc: ToolCallV| chat_tool_call(tc))))]
                } else {
                    Seq::empty()
                },
            ),
        ],
        MessageV::Tool { tool_call_id, content } => seq![
            JsonV::Object(
                seq![("role"@, js("tool"@)), ("tool_call_id"@, js(tool_call_id)), ("content"@, js(content))],
            ),
        ],
        MessageV::Reasoning { .. } => Seq::empty(),
    }
}

/// The `content` of the one chat message a user message becomes.
pub open spec fn user_content(content: Seq<ContentV>) -> Option<JsonV> {
    crate::json::jget(chat_messages_of(MessageV::User { content })[0], "content"@)
}

/// Law: a user message becomes one `user` chat message. A lone text piece
/// is sent as that text; any other content is sent as parts, one per
/// piece in order: a text piece as `{"type":"text","text":t}` with its
/// own text, an image piece as an `image_url` part carrying its URL.
pub proof fn lemma_user_content_parts(content: Seq<ContentV>, i: int)
    requires
        0 <= i < content.len(),
    ensures
        chat_messages_of(MessageV::User { content }).len() == 1,
        crate::json::jget_str(chat_messages_of(MessageV::User { content })[0], "role"@) == Some("user"@),
        (content.len() == 1 && content[0] is Text) ==> user_content(content) == Some(js(content[0]->Text_text)),
        !(content.len() == 1 && content[0] is Text) ==> (user_content(content) matches Some(JsonV::Array(parts))
            && parts.len() == content.len() && match content[i] {
            ContentV::Text { text } => crate::json::jget_str(parts[i], "type"@) == Some("text"@)
                && crate::json::jget_str(parts[i], "text"@) == Some(text),
            ContentV::Image { url, .. } => crate::json::jget_str(parts[i], "type"@) == Some("image_url"@)
                && (crate::json::jget(parts[i], "image_url"@) matches Some(o) && crate::json::jget_str(o, "url"@)
                == Some(url)),
        }),
{
    reveal_with_fuel(crate::json::entries_get, 3);
    reveal_strlit("type");
    reveal_strlit("text");
    reveal_strlit("role");
    reveal_strlit("content");
    reveal_strlit("image_url");
    assert("type"@ != "text"@) by {
        assert("type"@[1] != "text"@[1]);
    }
    assert("type"@ != "image_url"@) by {
        assert("type"@.len() != "image_url"@.len());
    }
    assert("role"@ != "content"@) by {
        assert("role"@.len() != "content"@.len());
    }
}

/// The chat messages of a list of messages, in order.
pub open spec fn chat_messages(ms: Seq<MessageV>) -> Seq<JsonV>
    decreases ms.len(),
{
    if ms.len() == 0 {
        Seq::empty()
    } else {
        chat_messages(ms.drop_last()) + chat_messages_of(ms.last())
    }
}

/// A chat tool definition.
pub open spec fn chat_tool(t: ToolV) -> JsonV {
    JsonV::Object(
        seq![
            ("type"@, js("function"@)),
            (
                "function"@,
                JsonV::Object(
                    seq![("name"@, js(t.name)), ("description"@, desc_json(t.description)), ("parameters"@, t.parameters)],
                ),
            ),
        ],
    )
}

/// The leading system message, when there is a system text.
pub open spec fn system_message(s: Option<String>) -> Seq<JsonV> {
    match s {
        Some(t) => seq![JsonV::Object(seq![("role"@, js("system"@)), ("content"@, js(t@))])],
        None => Seq::empty(),
    }
}

/// The chat-completions request body for `req`: `model`, `messages` (the
/// system message first), `stream`, then `tools` when any, `temperature`
/// and `max_tokens` when given.
pub open spec fn chat_body(req: Request) -> JsonV {
    JsonV::Object(
        seq![
            ("model"@, js(req.model@)),
            ("messages"@, JsonV::Array(system_message(req.system) + chat_messages(messages_view(req.messages@)))),
            ("stream"@, JsonV::Bool(req.stream)),
        ] + if req.tools@.len() > 0 {
            seq![("tools"@, JsonV::Array(tools_view(req.tools@).map_values(|t: ToolV| chat_tool(t))))]
        } else {
            Seq::empty()
        } + match req.temperature {
            Some(t) => seq![("temperature"@, jv(t))],
            None => Seq::empty(),
        } + match req.max_output_tokens {
            Some(m) => seq![("max_tokens"@, JsonV::Int(m as int))],
            None => Seq::empty(),
        },
    )
}

} // verus!

verus! {

fn chat_part_exec(c: &Content) -> (j: Json)
    ensures
        jv(j) == chat_part(c@),
{
    match c {
        Content::Text { text } => pairs2("type", str_json("text"), "text", str_json(text.as_str())),
        Content::Image { url, .. } => {
            let mut inner: Vec<(String, Json)> = Vec::new();
            push_member(&mut inner, "url", str_json(url.as_str()));
            assert(members_view(inner@) =~= seq![("url"@, js(url@))]);
            pairs2("type", str_json("image_url"), "image_url", object(inner))
        },
    }
}

fn chat_content_exec(content: &Vec<Content>) -> (j: Json)
    ensures
        jv(j) == chat_content(contents_view(content@)),
{
    let ghost cv = contents_view(content@);
    if content.len() == 1 {
        if let Content::Text { text } = &content[0] {
            return str_json(text.as_str());
        }
    }
    let mut parts: Vec<Json> = Vec::new();
    let mut i: usize = 0;
    while i < content.len()
        invariant
            i <= content.len(),
            cv == contents_view(content@),
            items_view(parts@) == cv.take(i as int).map_values(|c: ContentV| chat_part(c)),
        decreases content.len() - i,
    {
        push_item(&mut parts, chat_part_exec(&content[i]));
        assert(cv.take(i + 1) =~= cv.take(i as int).push(content@[i as int]@));
        assert(items_view(parts@) =~= cv.take(i + 1).map_values(|c: ContentV| chat_part(c)));
        i += 1;
    }
    assert(cv.take(content.len() as int) =~= cv);
    array(parts)
}

fn flatten_text_exec(content: &Vec<Content>) -> (t: String)
    ensures
        t@ == flatten_text(contents_view(content@)),
{
    let ghost cv = contents_view(content@);
    let mut out = String::new();
    let mut i: usize = 0;
    while i < content.len()
        invariant
            i <= content.len(),
            cv == contents_view(content@),
            out@ == flatten_text(cv.take(i as int)),
        decreases content.len() - i,
    {
        assert(cv.take(i + 1).drop_last() =~= cv.take(i as int));
        match &content[i] {
            Content::Text { text } => {
                out = concat_str(out.as_str(), text.as_str());
            },
            Content::Image { .. } => {
                assert(out@ + Seq::<char>::empty() =~= out@);
            },
        }
        i += 1;
    }
    assert(cv.take(content.len() as int) =~= cv);
    out
}

fn chat_message_exec(m: &Message, out: &mut Vec<Json>)
    ensures
        items_view(final(out)@) == items_view(old(out)@) + chat_messages_of(m@),
{
    let ghost before = items_view(out@);
    match m {
        Message::User { content } => {
            push_item(out, pairs2("role", str_json("user"), "content", chat_content_exec(content)));
            assert(items_view(out@) =~= before + chat_messages_of(m@));
        },
        Message::Assistant { content, tool_calls } => {
            let text = flatten_text_exec(content);
            let c = if !text.as_str().is_empty() { str_json(text.as_str()) } else { Json::Null };
            let mut msg: Vec<(String, Json)> = Vec::new();
            push_member(&mut msg, "role", str_json("assistant"));
            push_member(&mut msg, "content", c);
            let ghost head = members_view(msg@);
            if tool_calls.len() > 0 {
                let ghost tcs = tool_calls_view(tool_calls@);
                let mut calls: Vec<Json> = Vec::new();
                let mut i: usize = 0;
                while i < tool_calls.len()
                    invariant
                        i <= tool_calls.len(),
                        tcs == tool_calls_view(tool_calls@),
                        items_view(calls@) == tcs.take(i as int).map_values(|tc: ToolCallV| chat_tool_call(tc)),
                    decreases tool_calls.len() - i,
                {
                    let tc = &tool_calls[i];
                    let f = pairs2("name", str_json(tc.name.as_str()), "arguments", str_json(tc.arguments.as_str()));
                    push_item(&mut calls, pairs3("id", str_json(tc.id.as_str()), "type", str_json("function"), "function", f));
                    assert(tcs.take(i + 1) =~= tcs.take(i as int).push(tc@));
                    assert(items_view(calls@) =~= tcs.take(i + 1).map_values(|tc: ToolCallV| chat_tool_call(tc)));
                    i += 1;
                }
                assert(tcs.take(tool_calls.len() as int) =~= tcs);
                push_member(&mut msg, "tool_calls", array(calls));
            }
            assert(members_view(msg@) =~= seq![("role"@, js("assistant"@)), ("content"@, text_or_null(flatten_text(contents_view(content@))))]
                + if tool_calls@.len() > 0 {
                seq![("tool_calls"@, JsonV::Array(tool_calls_view(tool_calls@).map_values(|tc: ToolCallV| chat_tool_call(tc))))]
            } else {
                Seq::empty()
            });
            push_item(out, object(msg));
            assert(items_view(out@) =~= before + chat_messages_of(m@));
        },
        Message::Tool { tool_call_id, content } => {
            push_item(out, pairs3("role", str_json("tool"), "tool_call_id", str_json(tool_call_id.as_str()), "content", str_json(content.as_str())));
            assert(items_view(out@) =~= before + chat_messages_of(m@));
        },
        Message::Reasoning { .. } => {
            assert(items_view(out@) =~= before + chat_messages_of(m@));
        },
    }
}

/// Encode `req` as a chat-completions request body (see [`chat_body`]).
pub fn encode_request(req: &Request) -> (j: Json)
    ensures
        jv(j) == chat_body(*req),
{
    let mut messages: Vec<Json> = Vec::new();
    match &req.system {
        Some(s) => push_item(&mut messages, pairs2("role", str_json("system"), "content", str_json(s.as_str()))),
        None => {},
    }
    let ghost head = items_view(messages@);
    assert(head =~= system_message(req.system));
    let ghost mv = messages_view(req.messages@);
    let mut i: usize = 0;
    while i < req.messages.len()
        invariant
            i <= req.messages.len(),
            mv == messages_view(req.messages@),
            items_view(messages@) == head + chat_messages(mv.take(i as int)),
        decreases req.messages.len() - i,
    {
        chat_message_exec(&req.messages[i], &mut messages);
        assert(mv.take(i + 1).drop_last() =~= mv.take(i as int));
        assert(mv.take(i + 1).last() == req.messages@[i as int]@);
        i += 1;
    }
    assert(mv.take(req.messages.len() as int) =~= mv);
    let mut out: Vec<(String, Json)> = Vec::new();
    push_member(&mut out, "model", str_json(req.model.as_str()));
    push_member(&mut out, "messages", array(messages));
    push_member(&mut out, "stream", Json::Bool(req.stream));
    let ghost m0 = members_view(out@);
    assert(m0 =~= seq![
        ("model"@, js(req.model@)),
        ("messages"@, JsonV::Array(system_message(req.system) + chat_messages(messages_view(req.messages@)))),
        ("stream"@, JsonV::Bool(req.stream)),
    ]);
    if req.tools.len() > 0 {
        let ghost tv = tools_view(req.tools@);
        let mut tools: Vec<Json> = Vec::new();
        let mut q: usize = 0;
        while q < req.tools.len()
            invariant
                q <= req.tools.len(),
                tv == tools_view(req.tools@),
                items_view(tools@) == tv.take(q as int).map_values(|t: ToolV| chat_tool(t)),
            decreases req.tools.len() - q,
        {
            let t = &req.tools[q];
            let d = match &t.description {
                Some(d) => str_json(d.as_str()),
                None => Json::Null,
            };
            let f = pairs3("name", str_json(t.name.as_str()), "description", d, "parameters", t.parameters.duplicate());
            push_item(&mut tools, pairs2("type", str_json("function"), "function", f));
            assert(tv.take(q + 1) =~= tv.take(q as int).push(tv[q as int]));
            assert(items_view(tools@) =~= tv.take(q + 1).map_values(|t: ToolV| chat_tool(t)));
            q += 1;
        }
        assert(tv.take(req.tools.len() as int) =~= tv);
        push_member(&mut out, "tools", array(tools));
    }
    let ghost m1 = members_view(out@);
    assert(m1 =~= m0 + if req.tools@.len() > 0 {
        seq![("tools"@, JsonV::Array(tools_view(req.tools@).map_values(|t: ToolV| chat_tool(t))))]
    } else {
        Seq::<(Seq<char>, JsonV)>::empty()
    });
    match &req.temperature {
        Some(t) => push_member(&mut out, "temperature", t.duplicate()),
        None => {},
    }
    let ghost m2 = members_view(out@);
    assert(m2 =~= m1 + match req.temperature {
        Some(t) => seq![("temperature"@, jv(t))],
        None => Seq::<(Seq<char>, JsonV)>::empty(),
    });
    match req.max_output_tokens {
        Some(m) => push_member(&mut out, "max_tokens", Json::Int(m as i128)),
        None => {},
    }
    assert(members_view(out@) =~= m2 + match req.max_output_tokens {
        Some(m) => seq![("max_tokens"@, JsonV::Int(m as int))],
        None => Seq::<(Seq<char>, JsonV)>::empty(),
    });
    object(out)
}

} // verus!

verus! {

/// Stream state carried across the chunks of one response.
#[derive(Debug)]
pub struct ChunkState {
    pub response_id: Option<String>,
    /// The text streamed so far.
    pub text: String,
    /// Tool calls assembled by index (fragments of several calls may
    /// interleave).
    pub tool_calls: Vec<ToolCall>,
    pub finish_reason: Option<FinishReason>,
}

/// The value of the chat stream state.
pub struct ChatStateV {
    pub response_id: Option<Seq<char>>,
    pub text: Seq<char>,
    pub tool_calls: Seq<ToolCallV>,
    pub finish_reason: Option<FinishReasonV>,
}

impl View for ChunkState {
    type V = ChatStateV;

    open spec fn view(&self) -> ChatStateV {
        ChatStateV {
            response_id: opt_string_view(self.response_id),
            text: self.text@,
            tool_calls: tool_calls_view(self.tool_calls@),
            finish_reason: match self.finish_reason {
                Some(f) => Some(f@),
                None => None,
            },
        }
    }
}

/// The state at the start of a stream.
pub open spec fn fresh_chat_state() -> ChatStateV {
    ChatStateV { response_id: None, text: Seq::empty(), tool_calls: Seq::empty(), finish_reason: None }
}

impl Default for ChunkState {
    fn default() -> (r: Self)
        ensures
            r@ == fresh_chat_state(),
    {
        let r = ChunkState { response_id: None, text: String::new(), tool_calls: Vec::new(), finish_reason: None };
        assert(r@.tool_calls =~= Seq::<ToolCallV>::empty());
        r
    }
}

/// An empty tool-call accumulator.
pub open spec fn empty_call() -> ToolCallV {
    ToolCallV { id: Seq::empty(), name: Seq::empty(), arguments: Seq::empty() }
}

/// `calls` grown with empty accumulators to hold index `idx`.
pub open spec fn grow_calls(calls: Seq<ToolCallV>, idx: int) -> Seq<ToolCallV> {
    if calls.len() > idx {
        calls
    } else {
        calls + Seq::new((idx + 1 - calls.len()) as nat, |i: int| empty_call())
    }
}

/// A fragment of tool call `tc` folded into its accumulator: a non-empty
/// id or name replaces the one held, an arguments fragment is appended.
pub open spec fn fold_fragment(
    acc: ToolCallV,
    id: Option<Seq<char>>,
    name: Option<Seq<char>>,
    args: Option<Seq<char>>,
) -> ToolCallV {
    ToolCallV {
        id: match id {
            Some(i) => if i.len() > 0 { i } else { acc.id },
            None => acc.id,
        },
        name: match name {
            Some(n) => if n.len() > 0 { n } else { acc.name },
            None => acc.name,
        },
        arguments: match args {
            Some(a) => acc.arguments + a,
            None => acc.arguments,
        },
    }
}

/// One `tool_calls` entry of a delta: the event it yields and the
/// accumulators after it.
pub open spec fn tool_fragment_step(tc: JsonV, calls: Seq<ToolCallV>) -> (StreamEventV, Seq<ToolCallV>) {
    let idx = crate::anthropic::event_index(tc);
    let id = jget_str(tc, "id"@);
    let function = jget(tc, "function"@);
    let name = crate::json::jstr(crate::anthropic::jget_in(function, "name"@));
    let args = crate::json::jstr(crate::anthropic::jget_in(function, "arguments"@));
    let grown = grow_calls(calls, idx as int);
    (
        StreamEventV::ToolCallDelta { index: idx, id, name, arguments_delta: args },
        grown.update(idx as int, fold_fragment(grown[idx as int], id, name, args)),
    )
}

/// All the `tool_calls` entries of a delta, in order.
pub open spec fn tool_fragments(tcs: Seq<JsonV>, calls: Seq<ToolCallV>) -> (Seq<StreamEventV>, Seq<ToolCallV>)
    decreases tcs.len(),
{
    if tcs.len() == 0 {
        (Seq::empty(), calls)
    } else {
        let prev = tool_fragments(tcs.drop_last(), calls);
        let step = tool_fragment_step(tcs.last(), prev.1);
        (prev.0.push(step.0), step.1)
    }
}

/// One choice of a chunk: its finish reason is recorded, its non-empty
/// text content streamed, and its tool-call fragments folded in.
pub open spec fn choice_step(choice: JsonV, st: ChatStateV) -> (Seq<StreamEventV>, ChatStateV) {
    let st1 = match jget_str(choice, "finish_reason"@) {
        Some(fr) => ChatStateV { finish_reason: Some(finish_reason_of(fr)), ..st },
        None => st,
    };
    let delta = crate::anthropic::member_or_empty(choice, "delta"@);
    let (text_events, st2) = match jget_str(delta, "content"@) {
        Some(t) => if t.len() > 0 {
            (seq![StreamEventV::TextDelta { text: t }], ChatStateV { text: st1.text + t, ..st1 })
        } else {
            (Seq::empty(), st1)
        },
        None => (Seq::empty(), st1),
    };
    match jarr(jget(delta, "tool_calls"@)) {
        Some(tcs) => {
            let f = tool_fragments(tcs, st2.tool_calls);
            (text_events + f.0, ChatStateV { tool_calls: f.1, ..st2 })
        },
        None => (text_events, st2),
    }
}

/// All the choices of a chunk, in order.
pub open spec fn choices_step(cs: Seq<JsonV>, st: ChatStateV) -> (Seq<StreamEventV>, ChatStateV)
    decreases cs.len(),
{
    if cs.len() == 0 {
        (Seq::empty(), st)
    } else {
        let prev = choices_step(cs.drop_last(), st);
        let step = choice_step(cs.last(), prev.1);
        (prev.0 + step.0, step.1)
    }
}

/// A parsed chunk: its `id` becomes the response id when none is known
/// yet; then its choices.
pub open spec fn chat_chunk(v: JsonV, st: ChatStateV) -> (Seq<StreamEventV>, ChatStateV) {
    let st0 = if st.response_id is None && jget_str(v, "id"@) is Some {
        ChatStateV { response_id: jget_str(v, "id"@), ..st }
    } else {
        st
    };
    let cs = match jarr(jget(v, "choices"@)) {
        Some(a) => a,
        None => Seq::empty(),
    };
    choices_step(cs, st0)
}

/// The `[DONE]` marker completes the stream with everything assembled.
pub open spec fn chat_done(st: ChatStateV) -> (Seq<StreamEventV>, ChatStateV) {
    (
        seq![
            StreamEventV::Completed {
                text: st.text,
                tool_calls: st.tool_calls,
                finish_reason: crate::anthropic::fr_or_stop(st.finish_reason),
                response_id: st.response_id,
            },
        ],
        ChatStateV { text: Seq::empty(), tool_calls: Seq::empty(), finish_reason: None, ..st },
    )
}

/// Whether trimmed chunk data is the end-of-stream marker.
pub open spec fn is_done_marker(t: Seq<char>) -> bool {
    t == "[DONE]"@ || t == "DONE"@
}

} // verus!

verus! {

/// Why chunk data could not be read.
#[derive(Debug, Clone, PartialEq, Eq)]
pub enum ChunkError {
    /// The (trimmed) data is neither the end marker nor JSON.
    Malformed(String),
}

impl ChunkError {
    /// The human-readable message.
    pub fn message(&self) -> (r: String)
        ensures
            r@ == match *self {
                ChunkError::Malformed(d) => "malformed chat completion chunk: "@ + d@,
            },
    {
        match self {
            ChunkError::Malformed(d) => concat_str("malformed chat completion chunk: ", d.as_str()),
        }
    }
}

fn opt_member_string(v: Option<&Json>, key: &str) -> (r: Option<String>)
    ensures
        opt_string_view(r) == crate::json::jstr(crate::anthropic::jget_in(crate::json::opt_jv(v), key@)),
{
    match v {
        Some(o) => match crate::json::get_str(o, key) {
            Some(t) => Some(t.clone()),
            None => None,
        },
        None => None,
    }
}

fn member_string(v: &Json, key: &str) -> (r: Option<String>)
    ensures
        opt_string_view(r) == jget_str(jv(*v), key@),
{
    match crate::json::get_str(v, key) {
        Some(t) => Some(t.clone()),
        None => None,
    }
}

fn copy_opt(o: &Option<String>) -> (r: Option<String>)
    ensures
        opt_string_view(r) == opt_string_view(*o),
{
    match o {
        Some(t) => Some(t.clone()),
        None => None,
    }
}

fn tool_fragment_exec(tc: &Json, calls: &mut Vec<ToolCall>) -> (e: StreamEvent)
    ensures
        (e@, tool_calls_view(final(calls)@)) == tool_fragment_step(jv(*tc), tool_calls_view(old(calls)@)),
{
    let idx = {
        match tc.get("index") {
            Some(Json::Int(n)) => {
                if 0 <= *n && *n <= 0xffff_ffff_ffff_ffff {
                    (*n % 0x1_0000_0000) as u32
                } else {
                    0
                }
            },
            _ => 0,
        }
    };
    assert(idx == crate::anthropic::event_index(jv(*tc)));
    let id = member_string(tc, "id");
    let function = tc.get("function");
    let name = opt_member_string(function, "name");
    let args = opt_member_string(function, "arguments");
    let ghost start = tool_calls_view(calls@);
    while calls.len() <= idx as usize
        invariant
            start == tool_calls_view(old(calls)@),
            calls@.len() >= start.len(),
            calls@.len() <= idx + 1 || calls@.len() == start.len(),
            tool_calls_view(calls@) == start + Seq::new((calls@.len() - start.len()) as nat, |i: int| empty_call()),
        decreases idx + 1 - calls.len(),
    {
        let ghost before = tool_calls_view(calls@);
        calls.push(ToolCall { id: String::new(), name: String::new(), arguments: String::new() });
        assert(tool_calls_view(calls@) =~= before.push(empty_call()));
        assert(tool_calls_view(calls@) =~= start + Seq::new((calls@.len() - start.len()) as nat, |i: int| empty_call()));
    }
    let ghost grown = tool_calls_view(calls@);
    assert(grown =~= grow_calls(start, idx as int));
    let i = idx as usize;
    let acc = &calls[i];
    let new_id = match &id {
        Some(x) => if !x.as_str().is_empty() { x.clone() } else { acc.id.clone() },
        None => acc.id.clone(),
    };
    let new_name = match &name {
        Some(x) => if !x.as_str().is_empty() { x.clone() } else { acc.name.clone() },
        None => acc.name.clone(),
    };
    let new_args = match &args {
        Some(a) => concat_str(acc.arguments.as_str(), a.as_str()),
        None => acc.arguments.clone(),
    };
    let updated = ToolCall { id: new_id, name: new_name, arguments: new_args };
    assert(updated@ == fold_fragment(grown[i as int], opt_string_view(id), opt_string_view(name), opt_string_view(args)));
    let ghost uv = updated@;
    calls.set(i, updated);
    assert(tool_calls_view(calls@) =~= grown.update(i as int, uv));
    StreamEvent::ToolCallDelta { index: idx, id, name, arguments_delta: args }
}

fn choice_exec(choice: &Json, state: &mut ChunkState, events: &mut Vec<StreamEvent>)
    ensures
        events_view(final(events)@) == events_view(old(events)@) + choice_step(jv(*choice), old(state)@).0,
        final(state)@ == choice_step(jv(*choice), old(state)@).1,
{
    let ghost c = jv(*choice);
    let ghost before = events_view(events@);
    match crate::json::get_str(choice, "finish_reason") {
        Some(fr) => {
            state.finish_reason = Some(FinishReason::from_chat_str(fr.as_str()));
        },
        None => {},
    }
    let ghost st1 = state@;
    let delta = choice.get("delta");
    let content = opt_member_string(delta, "content");
    let ghost dv = crate::anthropic::member_or_empty(c, "delta"@);
    assert(opt_string_view(content) == jget_str(dv, "content"@));
    match content {
        Some(t) => {
            if !t.as_str().is_empty() {
                state.text = concat_str(state.text.as_str(), t.as_str());
                events.push(StreamEvent::TextDelta { text: t });
            }
        },
        None => {},
    }
    let ghost mid = events_view(events@);
    assert(mid =~= before + match jget_str(dv, "content"@) {
        Some(t) => if t.len() > 0 {
            seq![StreamEventV::TextDelta { text: t }]
        } else {
            Seq::<StreamEventV>::empty()
        },
        None => Seq::<StreamEventV>::empty(),
    });
    let tcs = match delta {
        Some(d) => match d.get("tool_calls") {
            Some(Json::Array(a)) => Some(a),
            _ => None,
        },
        None => None,
    };
    match tcs {
        Some(a) => {
            let ghost items = items_view(a@);
            assert(jarr(jget(dv, "tool_calls"@)) == Some(items)) by {
                match jget(dv, "tool_calls"@) {
                    Some(JsonV::Array(x)) => assert(x =~= items),
                    _ => {},
                }
            }
            let ghost calls0 = tool_calls_view(state.tool_calls@);
            let ghost ev0 = events_view(events@);
            let ghost st2 = state@;
            let mut k: usize = 0;
            while k < a.len()
                invariant
                    k <= a.len(),
                    items == items_view(a@),
                    tool_fragments(items.take(k as int), calls0).1 == tool_calls_view(state.tool_calls@),
                    events_view(events@) == ev0 + tool_fragments(items.take(k as int), calls0).0,
                    state@.text == st2.text,
                    state@.response_id == st2.response_id,
                    state@.finish_reason == st2.finish_reason,
                decreases a.len() - k,
            {
                let e = tool_fragment_exec(&a[k], &mut state.tool_calls);
                let ghost evb = events_view(events@);
                events.push(e);
                assert(events_view(events@) =~= evb.push(e@));
                assert(items.take(k + 1).drop_last() =~= items.take(k as int));
                assert(items.take(k + 1).last() == jv(a@[k as int]));
                k += 1;
            }
            assert(items.take(a.len() as int) =~= items);
        },
        None => {
            assert(jarr(jget(dv, "tool_calls"@)) is None) by {
                match jget(dv, "tool_calls"@) {
                    Some(JsonV::Array(x)) => {
                        assert(false);
                    },
                    _ => {},
                }
            }
        },
    }
    assert(events_view(events@) =~= before + choice_step(c, old(state)@).0);
}

} // verus!

verus! {

/// Parse one chat-completions SSE `data:` payload into zero or more
/// stream events, updating the stream state. The trimmed payload `[DONE]`
/// (or `DONE`) completes the stream with everything assembled (see
/// [`chat_done`]); other payloads are read as JSON chunks (see
/// [`chat_chunk`]); a payload that is neither is refused and leaves the
/// state as it was.
pub fn parse_chunk(data: &str, state: &mut ChunkState) -> (r: Result<Vec<StreamEvent>, ChunkError>)
    ensures
        is_done_marker(trim(data@)) ==> (r matches Ok(evs) && events_view(evs@) == chat_done(old(state)@).0
            && final(state)@ == chat_done(old(state)@).1),
        !is_done_marker(trim(data@)) ==> match json_parsed(trim(data@)) {
            None => (r matches Err(ChunkError::Malformed(p)) && p@ == trim(data@)) && final(state)@ == old(state)@,
            Some(v) => r matches Ok(evs) && events_view(evs@) == chat_chunk(v, old(state)@).0 && final(state)@
                == chat_chunk(v, old(state)@).1,
        },
{
    let tv = trim_chars(chars_of(data).as_slice());
    let trimmed = string_from_chars(tv.as_slice());
    let t = trimmed.as_str();
    if str_eq(t, "[DONE]") || str_eq(t, "DONE") {
        let text = state.text.clone();
        state.text = String::new();
        let ghost calls_v = tool_calls_view(state.tool_calls@);
        let mut tool_calls: Vec<ToolCall> = Vec::new();
        std::mem::swap(&mut tool_calls, &mut state.tool_calls);
        assert(tool_calls_view(state.tool_calls@) =~= Seq::<ToolCallV>::empty());
        let finish_reason = match state.finish_reason.take() {
            Some(f) => f,
            None => FinishReason::Stop,
        };
        let response_id = copy_opt(&state.response_id);
        let mut events: Vec<StreamEvent> = Vec::new();
        events.push(StreamEvent::Completed { text, tool_calls, finish_reason, response_id });
        assert(events_view(events@) =~= chat_done(old(state)@).0);
        return Ok(events);
    }
    let value = match parse_json(t) {
        Some(v) => v,
        None => {
            return Err(ChunkError::Malformed(trimmed));
        },
    };
    Ok(parse_value(&value, state))
}

/// Read one chat-completions chunk, already parsed as JSON, into stream
/// events, updating the stream state (see [`chat_chunk`]).
pub fn parse_value(value: &Json, state: &mut ChunkState) -> (events: Vec<StreamEvent>)
    ensures
        events_view(events@) == chat_chunk(jv(*value), old(state)@).0,
        final(state)@ == chat_chunk(jv(*value), old(state)@).1,
{
    let ghost v = jv(*value);
    if state.response_id.is_none() {
        match member_string(value, "id") {
            Some(id) => {
                state.response_id = Some(id);
            },
            None => {},
        }
    }
    let ghost st0 = state@;
    let mut events: Vec<StreamEvent> = Vec::new();
    match value.get("choices") {
        Some(Json::Array(cs)) => {
            let ghost items = items_view(cs@);
            assert(jarr(jget(v, "choices"@)) == Some(items)) by {
                match jget(v, "choices"@) {
                    Some(JsonV::Array(x)) => assert(x =~= items),
                    _ => {},
                }
            }
            let mut k: usize = 0;
            while k < cs.len()
                invariant
                    k <= cs.len(),
                    items == items_view(cs@),
                    choices_step(items.take(k as int), st0).1 == state@,
                    events_view(events@) == choices_step(items.take(k as int), st0).0,
                decreases cs.len() - k,
            {
                choice_exec(&cs[k], state, &mut events);
                assert(items.take(k + 1).drop_last() =~= items.take(k as int));
                assert(items.take(k + 1).last() == jv(cs@[k as int]));
                k += 1;
            }
            assert(items.take(cs.len() as int) =~= items);
        },
        _ => {
            assert(jarr(jget(v, "choices"@)) is None) by {
                match jget(v, "choices"@) {
                    Some(JsonV::Array(x)) => {
                        assert(false);
                    },
                    _ => {},
                }
            }
            assert(events_view(events@) =~= Seq::<StreamEventV>::empty());
        },
    }
    events
}

} // verus!
