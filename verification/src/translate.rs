//! A direct JSON-to-JSON translation between the Responses API and Chat
//! Completions: a request body one way, a streamed chunk the other. It
//! predates the typed adapters (`responses`, `chat`, `anthropic`) and is
//! kept for callers that want the untyped, text-only mapping.

use vstd::prelude::*;

use crate::json::{array, jget, jget_bool, jget_str, jv, items_view, members_view, object, pairs2, pairs3, push_item, push_member, str_json, Json, JsonV};
use crate::json_serde::{json_parsed, json_serialized, parse_json, serialize_json};
use crate::responses::{frame_bytes, sse_frame, FrameV};
use crate::text::{chars_of, concat_str, str_eq, string_from_chars, trim, trim_chars};

verus! {

/// Why a translation failed.
#[derive(Debug, Clone, PartialEq, Eq)]
pub enum TranslateError {
    /// The request has no string `model`.
    MissingModel,
    /// The request's `input` is absent or not an array.
    MissingInput,
    /// The chunk is neither the end marker nor JSON; it holds the chunk.
    MalformedChunk(String),
}

impl TranslateError {
    /// The human-readable message.
    pub fn message(&self) -> (r: String)
        ensures
            r@ == match *self {
                TranslateError::MissingModel => "Responses request missing required field 'model'"@,
                TranslateError::MissingInput => "Responses request missing or non-array 'input'"@,
                TranslateError::MalformedChunk(d) => "malformed chat completion chunk: "@ + d@,
            },
    {
        match self {
            TranslateError::MissingModel => "Responses request missing required field 'model'".to_string(),
            TranslateError::MissingInput => "Responses request missing or non-array 'input'".to_string(),
            TranslateError::MalformedChunk(d) => concat_str("malformed chat completion chunk: ", d.as_str()),
        }
    }
}

/// `s` when present, else `dflt`.
pub open spec fn str_or(o: Option<Seq<char>>, dflt: Seq<char>) -> Seq<char> {
    match o {
        Some(s) => s,
        None => dflt,
    }
}

/// The text of one content piece: the `text` of an `input_text`,
/// `output_text` or `text` piece; nothing for any other piece.
pub open spec fn piece_text(piece: JsonV) -> Seq<char> {
    let ty = str_or(jget_str(piece, "type"@), Seq::empty());
    if ty == "input_text"@ || ty == "output_text"@ || ty == "text"@ {
        str_or(jget_str(piece, "text"@), Seq::empty())
    } else {
        Seq::empty()
    }
}

/// The texts of content pieces, concatenated.
pub open spec fn pieces_text(pieces: Seq<JsonV>) -> Seq<char>
    decreases pieces.len(),
{
    if pieces.len() == 0 {
        Seq::empty()
    } else {
        pieces_text(pieces.drop_last()) + piece_text(pieces.last())
    }
}

/// The flat text of a message's content: a string as it is, the text
/// pieces of an array concatenated, nothing otherwise.
pub open spec fn content_text(content: Option<JsonV>) -> Seq<char> {
    match content {
        Some(JsonV::Str(s)) => s,
        Some(JsonV::Array(a)) => pieces_text(a),
        _ => Seq::empty(),
    }
}

/// A tool's output as text: a string as it is, any other value as
/// serde_json writes it (nothing if it refuses); nothing when absent.
pub open spec fn output_text(output: Option<JsonV>) -> Seq<char> {
    match output {
        None => Seq::empty(),
        Some(JsonV::Str(s)) => s,
        Some(v) => match json_serialized(v) {
            Some(t) => t,
            None => Seq::empty(),
        },
    }
}

/// The Chat message for one Responses input item: messages keep their
/// role (default `user`) with flat text content; function calls become an
/// assistant message with one tool call; function outputs become a tool
/// message; anything else (reasoning included) is dropped.
pub open spec fn chat_message_of(item: JsonV) -> Option<JsonV> {
    let ty = str_or(jget_str(item, "type"@), "message"@);
    if ty == "message"@ {
        Some(
            JsonV::Object(
                seq![
                    ("role"@, JsonV::Str(str_or(jget_str(item, "role"@), "user"@))),
                    ("content"@, JsonV::Str(content_text(jget(item, "content"@)))),
                ],
            ),
        )
    } else if ty == "function_call"@ {
        Some(
            JsonV::Object(
                seq![
                    ("role"@, JsonV::Str("assistant"@)),
                    ("content"@, JsonV::Null),
                    (
                        "tool_calls"@,
                        JsonV::Array(
                            seq![
                                JsonV::Object(
                                    seq![
                                        ("id"@, JsonV::Str(str_or(jget_str(item, "call_id"@), Seq::empty()))),
                                        ("type"@, JsonV::Str("function"@)),
                                        (
                                            "function"@,
                                            JsonV::Object(
                                                seq![
                                                    ("name"@, JsonV::Str(str_or(jget_str(item, "name"@), Seq::empty()))),
                                                    (
                                                        "arguments"@,
                                                        JsonV::Str(str_or(jget_str(item, "arguments"@), "{}"@)),
                                                    ),
                                                ],
                                            ),
                                        ),
                                    ],
                                ),
                            ],
                        ),
                    ),
                ],
            ),
        )
    } else if ty == "function_call_output"@ {
        Some(
            JsonV::Object(
                seq![
                    ("role"@, JsonV::Str("tool"@)),
                    ("tool_call_id"@, JsonV::Str(str_or(jget_str(item, "call_id"@), Seq::empty()))),
                    ("content"@, JsonV::Str(output_text(jget(item, "output"@)))),
                ],
            ),
        )
    } else {
        None
    }
}

/// The first tool call of a Chat message: its `tool_calls` array's first
/// entry, when the message has a non-empty one.
pub open spec fn first_tool_call(m: JsonV) -> Option<JsonV> {
    match jget(m, "tool_calls"@) {
        Some(JsonV::Array(calls)) => if calls.len() > 0 {
            Some(calls[0])
        } else {
            None
        },
        _ => None,
    }
}

/// A string member of the `function` object of a Chat tool call.
pub open spec fn call_function_str(call: JsonV, k: Seq<char>) -> Option<Seq<char>> {
    match jget(call, "function"@) {
        Some(f) => jget_str(f, k),
        None => None,
    }
}

/// Law: a Responses `function_call` item becomes an assistant Chat
/// message whose one tool call carries the item's call id, name and
/// arguments unchanged; only an item without arguments gets `{}`.
pub proof fn lemma_function_call_passes_through(item: JsonV)
    requires
        jget_str(item, "type"@) == Some("function_call"@),
    ensures
        chat_message_of(item) is Some,
        jget_str(chat_message_of(item)->0, "role"@) == Some("assistant"@),
        first_tool_call(chat_message_of(item)->0) is Some,
        forall|s: Seq<char>| jget_str(item, "arguments"@) == Some(s) ==> call_function_str(
            first_tool_call(chat_message_of(item)->0)->0,
            "arguments"@,
        ) == Some(s),
        jget(item, "arguments"@) is None ==> call_function_str(
            first_tool_call(chat_message_of(item)->0)->0,
            "arguments"@,
        ) == Some("{}"@),
        forall|s: Seq<char>| jget_str(item, "name"@) == Some(s) ==> call_function_str(
            first_tool_call(chat_message_of(item)->0)->0,
            "name"@,
        ) == Some(s),
        forall|s: Seq<char>| jget_str(item, "call_id"@) == Some(s) ==> jget_str(
            first_tool_call(chat_message_of(item)->0)->0,
            "id"@,
        ) == Some(s),
{
    reveal_with_fuel(crate::json::entries_get, 4);
    reveal_strlit("function_call");
    reveal_strlit("message");
    reveal_strlit("arguments");
    reveal_strlit("name");
    reveal_strlit("function");
    reveal_strlit("type");
    reveal_strlit("id");
    reveal_strlit("role");
    reveal_strlit("content");
    reveal_strlit("tool_calls");
    assert("function_call"@ != "message"@) by {
        assert("function_call"@.len() != "message"@.len());
    }
    assert("arguments"@ != "name"@) by {
        assert("arguments"@.len() != "name"@.len());
    }
    assert("id"@ != "type"@) by {
        assert("id"@.len() != "type"@.len());
    }
    assert("id"@ != "function"@) by {
        assert("id"@.len() != "function"@.len());
    }
    assert("role"@ != "tool_calls"@) by {
        assert("role"@.len() != "tool_calls"@.len());
    }
    assert("role"@ != "content"@) by {
        assert("role"@.len() != "content"@.len());
    }
}

proof fn lemma_empty_literal()
    ensures
        ""@ == Seq::<char>::empty(),
{
    reveal_strlit("");
    assert(""@ =~= Seq::<char>::empty());
}

fn str_or_exec(v: &Json, key: &str, dflt: &str) -> (r: String)
    ensures
        r@ == str_or(jget_str(jv(*v), key@), dflt@),
{
    match crate::json::get_str(v, key) {
        Some(s) => s.clone(),
        None => dflt.to_string(),
    }
}

fn content_text_exec(content: Option<&Json>) -> (r: String)
    ensures
        r@ == content_text(crate::json::opt_jv(content)),
{
    match content {
        Some(Json::Str(s)) => s.clone(),
        Some(Json::Array(a)) => {
            let ghost av = items_view(a@);
            proof {
                match jv(*content->0) {
                    JsonV::Array(x) => assert(x =~= av),
                    _ => {},
                }
            }
            let mut out: Vec<char> = Vec::new();
            let mut i: usize = 0;
            assert(av.take(0) =~= Seq::<JsonV>::empty());
            while i < a.len()
                invariant
                    i <= a.len(),
                    av == items_view(a@),
                    out@ == pieces_text(av.take(i as int)),
                decreases a.len() - i,
            {
                assert(av.take(i + 1).drop_last() =~= av.take(i as int));
                assert(av.take(i + 1).last() == jv(a@[i as int]));
                proof {
                    lemma_empty_literal();
                }
                let piece = &a[i];
                let ty = str_or_exec(piece, "type", "");
                if str_eq(ty.as_str(), "input_text") || str_eq(ty.as_str(), "output_text") || str_eq(ty.as_str(), "text") {
                    let t = str_or_exec(piece, "text", "");
                    let mut tv = chars_of(t.as_str());
                    out.append(&mut tv);
                } else {
                    assert(piece_text(jv(*piece)) =~= Seq::<char>::empty());
                    assert(out@ =~= out@ + Seq::<char>::empty());
                }
                i += 1;
            }
            assert(av.take(a.len() as int) =~= av);
            string_from_chars(out.as_slice())
        },
        _ => String::new(),
    }
}

fn output_text_exec(output: Option<&Json>) -> (r: String)
    ensures
        r@ == output_text(crate::json::opt_jv(output)),
{
    match output {
        None => String::new(),
        Some(Json::Str(s)) => s.clone(),
        Some(v) => match serialize_json(v) {
            Some(t) => t,
            None => String::new(),
        },
    }
}

/// Translate one Responses input item into a Chat message (or nothing).
pub fn translate_input_item(item: &Json) -> (r: Option<Json>)
    ensures
        match r {
            Some(m) => chat_message_of(jv(*item)) == Some(jv(m)),
            None => chat_message_of(jv(*item)) is None,
        },
{
    proof {
        lemma_empty_literal();
    }
    let ty = str_or_exec(item, "type", "message");
    if str_eq(ty.as_str(), "message") {
        let role = str_or_exec(item, "role", "user");
        let content = content_text_exec(item.get("content"));
        Some(pairs2("role", Json::Str(role), "content", Json::Str(content)))
    } else if str_eq(ty.as_str(), "function_call") {
        let call_id = str_or_exec(item, "call_id", "");
        let name = str_or_exec(item, "name", "");
        let arguments = str_or_exec(item, "arguments", "{}");
        let function = pairs2("name", Json::Str(name), "arguments", Json::Str(arguments));
        let call = pairs3("id", Json::Str(call_id), "type", str_json("function"), "function", function);
        let mut calls: Vec<Json> = Vec::new();
        push_item(&mut calls, call);
        let ghost cv = items_view(calls@);
        let calls_json = array(calls);
        let r = pairs3("role", str_json("assistant"), "content", Json::Null, "tool_calls", calls_json);
        assert(jv(r) == chat_message_of(jv(*item))->0) by {
            assert(cv =~= seq![cv[0]]);
        }
        Some(r)
    } else if str_eq(ty.as_str(), "function_call_output") {
        let call_id = str_or_exec(item, "call_id", "");
        let output = output_text_exec(item.get("output"));
        Some(pairs3("role", str_json("tool"), "tool_call_id", Json::Str(call_id), "content", Json::Str(output)))
    } else {
        None
    }
}

/// The Chat messages of the Responses input items, the dropped ones left
/// out.
pub open spec fn chat_messages_of(items: Seq<JsonV>) -> Seq<JsonV>
    decreases items.len(),
{
    if items.len() == 0 {
        Seq::empty()
    } else {
        let rest = chat_messages_of(items.drop_last());
        match chat_message_of(items.last()) {
            Some(m) => rest.push(m),
            None => rest,
        }
    }
}

/// `[(key, v)]` when `v` is present, else nothing.
pub open spec fn opt_pair(key: Seq<char>, v: Option<JsonV>) -> Seq<(Seq<char>, JsonV)> {
    match v {
        Some(x) => seq![(key, x)],
        None => Seq::empty(),
    }
}

/// The Chat request for a Responses request: its model; its non-empty
/// `instructions` as a leading system message, then its input items
/// translated; `stream` (default true); `tools`, `temperature` and
/// `max_output_tokens` (as `max_tokens`) passed through when present.
/// `None` without a string model or an array input.
pub open spec fn chat_request_of(req: JsonV) -> Result<JsonV, TranslateError> {
    match jget_str(req, "model"@) {
        None => Err(TranslateError::MissingModel),
        Some(model) => match jget(req, "input"@) {
            Some(JsonV::Array(items)) => {
                let system = match jget_str(req, "instructions"@) {
                    Some(ins) => if ins.len() > 0 {
                        seq![JsonV::Object(seq![("role"@, JsonV::Str("system"@)), ("content"@, JsonV::Str(ins))])]
                    } else {
                        Seq::empty()
                    },
                    None => Seq::empty(),
                };
                let stream = match jget_bool(req, "stream"@) {
                    Some(b) => b,
                    None => true,
                };
                Ok(
                    JsonV::Object(
                        seq![
                            ("model"@, JsonV::Str(model)),
                            ("messages"@, JsonV::Array(system + chat_messages_of(items))),
                            ("stream"@, JsonV::Bool(stream)),
                        ] + opt_pair("tools"@, jget(req, "tools"@)) + opt_pair("temperature"@, jget(req, "temperature"@))
                            + opt_pair("max_tokens"@, jget(req, "max_output_tokens"@)),
                    ),
                )
            },
            _ => Err(TranslateError::MissingInput),
        },
    }
}

fn push_opt_member(m: &mut Vec<(String, Json)>, key: &str, v: Option<&Json>)
    ensures
        members_view(final(m)@) == members_view(old(m)@) + opt_pair(key@, crate::json::opt_jv(v)),
{
    match v {
        Some(x) => push_member(m, key, x.duplicate()),
        None => {
            assert(members_view(m@) =~= members_view(m@) + Seq::<(Seq<char>, JsonV)>::empty());
        },
    }
}

/// Translate a Responses request body into a Chat Completions body.
pub fn responses_to_chat_request(req: &Json) -> (r: Result<Json, TranslateError>)
    ensures
        match r {
            Ok(j) => chat_request_of(jv(*req)) == Ok::<JsonV, TranslateError>(jv(j)),
            Err(e) => chat_request_of(jv(*req)) == Err::<JsonV, TranslateError>(e),
        },
{
    let model = match crate::json::get_str(req, "model") {
        Some(m) => m.clone(),
        None => {
            return Err(TranslateError::MissingModel);
        },
    };
    let items = match req.get("input") {
        Some(Json::Array(items)) => items,
        _ => {
            return Err(TranslateError::MissingInput);
        },
    };
    let ghost iv = items_view(items@);
    proof {
        match jget(jv(*req), "input"@) {
            Some(JsonV::Array(x)) => assert(x =~= iv),
            _ => {},
        }
    }
    let mut messages: Vec<Json> = Vec::new();
    let ghost system: Seq<JsonV> = match jget_str(jv(*req), "instructions"@) {
        Some(ins) => if ins.len() > 0 {
            seq![JsonV::Object(seq![("role"@, JsonV::Str("system"@)), ("content"@, JsonV::Str(ins))])]
        } else {
            Seq::empty()
        },
        None => Seq::empty(),
    };
    match crate::json::get_str(req, "instructions") {
        Some(ins) => {
            if !ins.as_str().is_empty() {
                push_item(&mut messages, pairs2("role", str_json("system"), "content", Json::Str(ins.clone())));
            }
        },
        None => {},
    }
    assert(items_view(messages@) =~= system);
    let mut i: usize = 0;
    assert(iv.take(0) =~= Seq::<JsonV>::empty());
    while i < items.len()
        invariant
            i <= items.len(),
            iv == items_view(items@),
            items_view(messages@) == system + chat_messages_of(iv.take(i as int)),
        decreases items.len() - i,
    {
        assert(iv.take(i + 1).drop_last() =~= iv.take(i as int));
        assert(iv.take(i + 1).last() == jv(items@[i as int]));
        match translate_input_item(&items[i]) {
            Some(m) => {
                let ghost mv = jv(m);
                push_item(&mut messages, m);
                assert(items_view(messages@) =~= system + chat_messages_of(iv.take(i + 1)));
            },
            None => {},
        }
        i += 1;
    }
    assert(iv.take(items.len() as int) =~= iv);
    let stream = match crate::json::get_bool(req, "stream") {
        Some(b) => b,
        None => true,
    };
    let ghost msgs = items_view(messages@);
    let ghost model_v = model@;
    let mut m: Vec<(String, Json)> = Vec::new();
    push_member(&mut m, "model", Json::Str(model));
    push_member(&mut m, "messages", array(messages));
    push_member(&mut m, "stream", Json::Bool(stream));
    push_opt_member(&mut m, "tools", req.get("tools"));
    push_opt_member(&mut m, "temperature", req.get("temperature"));
    push_opt_member(&mut m, "max_tokens", req.get("max_output_tokens"));
    assert(members_view(m@) =~= seq![
        ("model"@, JsonV::Str(model_v)),
        ("messages"@, JsonV::Array(msgs)),
        ("stream"@, JsonV::Bool(stream)),
    ] + opt_pair("tools"@, jget(jv(*req), "tools"@)) + opt_pair("temperature"@, jget(jv(*req), "temperature"@))
        + opt_pair("max_tokens"@, jget(jv(*req), "max_output_tokens"@)));
    let r = object(m);
    assert(jv(r) == chat_request_of(jv(*req))->Ok_0);
    Ok(r)
}

// ───────────────────────────── the stream ─────────────────────────────────

/// Per-request streaming state: the response id and the text so far, for
/// the final `response.completed` event.
#[derive(Debug)]
pub struct StreamState {
    pub response_id: String,
    pub accumulated_text: String,
}

impl Default for StreamState {
    fn default() -> (r: StreamState)
        ensures
            r.response_id@ == Seq::<char>::empty(),
            r.accumulated_text@ == Seq::<char>::empty(),
    {
        StreamState { response_id: String::new(), accumulated_text: String::new() }
    }
}

/// The completion payload for response `id` with text `text`.
pub open spec fn completed_value(id: Seq<char>, text: Seq<char>) -> JsonV {
    JsonV::Object(
        seq![
            ("type"@, JsonV::Str("response.completed"@)),
            (
                "response"@,
                JsonV::Object(
                    seq![
                        ("id"@, JsonV::Str(id)),
                        ("status"@, JsonV::Str("completed"@)),
                        (
                            "output"@,
                            JsonV::Array(
                                seq![
                                    JsonV::Object(
                                        seq![
                                            ("type"@, JsonV::Str("message"@)),
                                            ("role"@, JsonV::Str("assistant"@)),
                                            (
                                                "content"@,
                                                JsonV::Array(
                                                    seq![
                                                        JsonV::Object(
                                                            seq![
                                                                ("type"@, JsonV::Str("output_text"@)),
                                                                ("text"@, JsonV::Str(text)),
                                                            ],
                                                        ),
                                                    ],
                                                ),
                                            ),
                                        ],
                                    ),
                                ],
                            ),
                        ),
                    ],
                ),
            ),
        ],
    )
}

/// The frames one choice of a chunk gives, and the text after it: a
/// non-empty `content` delta is a text delta (and is accumulated); each
/// `tool_calls` entry is a function-call delta.
pub open spec fn choice_frames(choice: JsonV, text: Seq<char>) -> (Seq<FrameV>, Seq<char>) {
    let delta = match jget(choice, "delta"@) {
        Some(d) => d,
        None => JsonV::Object(Seq::empty()),
    };
    let (f1, t1) = match jget_str(delta, "content"@) {
        Some(c) => if c.len() > 0 {
            (
                seq![
                    FrameV {
                        name: "response.output_text.delta"@,
                        payload: JsonV::Object(seq![("type"@, JsonV::Str("response.output_text.delta"@)), ("delta"@, JsonV::Str(c))]),
                    },
                ],
                text + c,
            )
        } else {
            (Seq::empty(), text)
        },
        None => (Seq::empty(), text),
    };
    let f2 = match jget(delta, "tool_calls"@) {
        Some(JsonV::Array(tcs)) => tcs.map_values(
            |tc: JsonV|
                FrameV {
                    name: "response.function_call.delta"@,
                    payload: JsonV::Object(seq![("type"@, JsonV::Str("response.function_call.delta"@)), ("delta"@, tc)]),
                },
        ),
        _ => Seq::empty(),
    };
    (f1 + f2, t1)
}

/// The frames of a chunk's choices, and the text after them.
pub open spec fn choices_frames(choices: Seq<JsonV>, text: Seq<char>) -> (Seq<FrameV>, Seq<char>)
    decreases choices.len(),
{
    if choices.len() == 0 {
        (Seq::empty(), text)
    } else {
        let (fs, t) = choices_frames(choices.drop_last(), text);
        let (f2, t2) = choice_frames(choices.last(), t);
        (fs + f2, t2)
    }
}

/// Byte buffers concatenated.
pub open spec fn concat_bytes(bs: Seq<Seq<u8>>) -> Seq<u8>
    decreases bs.len(),
{
    if bs.len() == 0 {
        Seq::empty()
    } else {
        concat_bytes(bs.drop_last()) + bs.last()
    }
}

/// The bytes of frames, one after the other.
pub open spec fn frames_concat(fs: Seq<FrameV>) -> Seq<u8> {
    concat_bytes(fs.map_values(|f: FrameV| frame_bytes(f)))
}

proof fn lemma_concat_bytes_append(a: Seq<Seq<u8>>, b: Seq<Seq<u8>>)
    ensures
        concat_bytes(a + b) == concat_bytes(a) + concat_bytes(b),
    decreases b.len(),
{
    if b.len() == 0 {
        assert(a + b =~= a);
        assert(concat_bytes(a) + concat_bytes(b) =~= concat_bytes(a));
    } else {
        assert((a + b).drop_last() =~= a + b.drop_last());
        lemma_concat_bytes_append(a, b.drop_last());
        assert(concat_bytes(a) + concat_bytes(b.drop_last()) + b.last() =~= concat_bytes(a) + (concat_bytes(
            b.drop_last(),
        ) + b.last()));
    }
}

proof fn lemma_frames_concat_append(a: Seq<FrameV>, b: Seq<FrameV>)
    ensures
        frames_concat(a + b) == frames_concat(a) + frames_concat(b),
{
    let f = |f: FrameV| frame_bytes(f);
    assert((a + b).map_values(f) =~= a.map_values(f) + b.map_values(f));
    lemma_concat_bytes_append(a.map_values(f), b.map_values(f));
}

fn push_frame_bytes(out: &mut Vec<u8>, name: &str, payload: &Json)
    ensures
        final(out)@ == old(out)@ + frame_bytes(FrameV { name: name@, payload: jv(*payload) }),
{
    let mut b = sse_frame(name, payload);
    out.append(&mut b);
}

proof fn lemma_frames_concat_one(f: FrameV)
    ensures
        frames_concat(seq![f]) == frame_bytes(f),
{
    let s = seq![frame_bytes(f)];
    assert(seq![f].map_values(|f: FrameV| frame_bytes(f)) =~= s);
    assert(s.drop_last() =~= Seq::<Seq<u8>>::empty());
    assert(concat_bytes(s.drop_last()) == Seq::<u8>::empty());
    assert(concat_bytes(s) == concat_bytes(s.drop_last()) + s.last());
    assert(Seq::<u8>::empty() + frame_bytes(f) =~= frame_bytes(f));
}

fn relay_choice(choice: &Json, text: &mut String, out: &mut Vec<u8>)
    ensures
        final(out)@ == old(out)@ + frames_concat(choice_frames(jv(*choice), old(text)@).0),
        final(text)@ == choice_frames(jv(*choice), old(text)@).1,
{
    proof {
        lemma_empty_literal();
    }
    let empty_obj = Json::Object(Vec::new());
    proof {
        match jv(empty_obj) {
            JsonV::Object(m) => assert(m =~= Seq::<(Seq<char>, JsonV)>::empty()),
            _ => {},
        }
    }
    let delta: &Json = match choice.get("delta") {
        Some(d) => d,
        None => &empty_obj,
    };
    let ghost dv = jv(*delta);
    let ghost f1: Seq<FrameV> = Seq::empty();
    match crate::json::get_str(delta, "content") {
        Some(c) => {
            if !c.as_str().is_empty() {
                let payload = pairs2("type", str_json("response.output_text.delta"), "delta", Json::Str(c.clone()));
                push_frame_bytes(out, "response.output_text.delta", &payload);
                proof {
                    f1 = seq![FrameV { name: "response.output_text.delta"@, payload: jv(payload) }];
                    lemma_frames_concat_one(f1[0]);
                }
                let t = concat_str(text.as_str(), c.as_str());
                *text = t;
            }
        },
        None => {},
    }
    let ghost out1 = out@;
    assert(out1 == old(out)@ + frames_concat(f1)) by {
        if f1.len() == 0 {
            assert(frames_concat(f1) =~= Seq::<u8>::empty());
        }
    }
    match delta.get("tool_calls") {
        Some(Json::Array(tcs)) => {
            let ghost tv = items_view(tcs@);
            let ghost mk = |tc: JsonV|
                FrameV {
                    name: "response.function_call.delta"@,
                    payload: JsonV::Object(seq![("type"@, JsonV::Str("response.function_call.delta"@)), ("delta"@, tc)]),
                };
            proof {
                match jget(dv, "tool_calls"@) {
                    Some(JsonV::Array(x)) => assert(x =~= tv),
                    _ => {},
                }
            }
            let mut k: usize = 0;
            assert(tv.take(0).map_values(mk) =~= Seq::<FrameV>::empty());
            assert(frames_concat(Seq::<FrameV>::empty()) =~= Seq::<u8>::empty());
            while k < tcs.len()
                invariant
                    k <= tcs.len(),
                    tv == items_view(tcs@),
                    mk == (|tc: JsonV|
                        FrameV {
                            name: "response.function_call.delta"@,
                            payload: JsonV::Object(
                                seq![("type"@, JsonV::Str("response.function_call.delta"@)), ("delta"@, tc)],
                            ),
                        }),
                    out@ == out1 + frames_concat(tv.take(k as int).map_values(mk)),
                decreases tcs.len() - k,
            {
                let payload = pairs2("type", str_json("response.function_call.delta"), "delta", tcs[k].duplicate());
                let ghost before = out@;
                push_frame_bytes(out, "response.function_call.delta", &payload);
                proof {
                    let fr = FrameV { name: "response.function_call.delta"@, payload: jv(payload) };
                    assert(tv[k as int] == jv(tcs@[k as int]));
                    assert(fr == mk(tv[k as int]));
                    assert(tv.take(k + 1).map_values(mk) =~= tv.take(k as int).map_values(mk) + seq![fr]);
                    lemma_frames_concat_append(tv.take(k as int).map_values(mk), seq![fr]);
                    lemma_frames_concat_one(fr);
                }
                k += 1;
            }
            assert(tv.take(tcs.len() as int) =~= tv);
            proof {
                lemma_frames_concat_append(f1, tv.map_values(mk));
            }
        },
        _ => {
            proof {
                assert(f1 + Seq::<FrameV>::empty() =~= f1);
            }
        },
    }
}

/// The frames a chunk's payload gives and the state after it; `None` when
/// the payload is not JSON. The end marker (`[DONE]` or `DONE`, trimmed)
/// gives the completion; otherwise the first id seen is kept and each
/// choice gives its deltas.
pub open spec fn chunk_frames(data: Seq<char>, id: Seq<char>, text: Seq<char>) -> Option<(Seq<FrameV>, Seq<char>, Seq<char>)> {
    if trim(data) == "[DONE]"@ || trim(data) == "DONE"@ {
        Some((seq![FrameV { name: "response.completed"@, payload: completed_value(id, text) }], id, text))
    } else {
        match json_parsed(data) {
            None => None,
            Some(chunk) => {
                let id1 = if id.len() == 0 && jget_str(chunk, "id"@) is Some {
                    jget_str(chunk, "id"@)->0
                } else {
                    id
                };
                let choices = match jget(chunk, "choices"@) {
                    Some(JsonV::Array(a)) => a,
                    _ => Seq::empty(),
                };
                let (fs, t) = choices_frames(choices, text);
                Some((fs, id1, t))
            },
        }
    }
}

/// Translate one Chat Completions chunk payload into Responses SSE bytes.
pub fn chat_chunk_to_responses_sse(data: &str, state: &mut StreamState) -> (r: Result<Vec<u8>, TranslateError>)
    ensures
        match chunk_frames(data@, old(state).response_id@, old(state).accumulated_text@) {
            None => r matches Err(TranslateError::MalformedChunk(d)) && d@ == data@
                && final(state).response_id@ == old(state).response_id@
                && final(state).accumulated_text@ == old(state).accumulated_text@,
            Some((fs, id, t)) => r matches Ok(b) && b@ == frames_concat(fs) && final(state).response_id@ == id
                && final(state).accumulated_text@ == t,
        },
{
    let tv = trim_chars(chars_of(data).as_slice());
    let trimmed = string_from_chars(tv.as_slice());
    if str_eq(trimmed.as_str(), "[DONE]") || str_eq(trimmed.as_str(), "DONE") {
        let content = pairs2("type", str_json("output_text"), "text", Json::Str(state.accumulated_text.clone()));
        let mut contents: Vec<Json> = Vec::new();
        push_item(&mut contents, content);
        let ghost cv = items_view(contents@);
        let message = pairs3("type", str_json("message"), "role", str_json("assistant"), "content", array(contents));
        let mut outputs: Vec<Json> = Vec::new();
        push_item(&mut outputs, message);
        let ghost ov = items_view(outputs@);
        let response = pairs3(
            "id",
            Json::Str(state.response_id.clone()),
            "status",
            str_json("completed"),
            "output",
            array(outputs),
        );
        let payload = pairs2("type", str_json("response.completed"), "response", response);
        proof {
            assert(cv =~= seq![cv[0]]);
            assert(ov =~= seq![ov[0]]);
            assert(jv(payload) == completed_value(state.response_id@, state.accumulated_text@));
            lemma_frames_concat_one(FrameV { name: "response.completed"@, payload: jv(payload) });
        }
        return Ok(sse_frame("response.completed", &payload));
    }
    let chunk = match parse_json(data) {
        Some(c) => c,
        None => {
            return Err(TranslateError::MalformedChunk(data.to_string()));
        },
    };
    if state.response_id.as_str().is_empty() {
        match crate::json::get_str(&chunk, "id") {
            Some(id) => {
                state.response_id = id.clone();
            },
            None => {},
        }
    }
    let ghost id_after = state.response_id@;
    let mut out: Vec<u8> = Vec::new();
    match chunk.get("choices") {
        Some(Json::Array(choices)) => {
            let ghost cv = items_view(choices@);
            let ghost t0 = state.accumulated_text@;
            proof {
                match jget(jv(chunk), "choices"@) {
                    Some(JsonV::Array(x)) => assert(x =~= cv),
                    _ => {},
                }
            }
            let mut i: usize = 0;
            assert(cv.take(0) =~= Seq::<JsonV>::empty());
            assert(frames_concat(Seq::<FrameV>::empty()) =~= Seq::<u8>::empty());
            while i < choices.len()
                invariant
                    i <= choices.len(),
                    cv == items_view(choices@),
                    out@ == frames_concat(choices_frames(cv.take(i as int), t0).0),
                    state.accumulated_text@ == choices_frames(cv.take(i as int), t0).1,
                    state.response_id@ == id_after,
                decreases choices.len() - i,
            {
                assert(cv.take(i + 1).drop_last() =~= cv.take(i as int));
                assert(cv.take(i + 1).last() == jv(choices@[i as int]));
                let ghost prev = choices_frames(cv.take(i as int), t0);
                relay_choice(&choices[i], &mut state.accumulated_text, &mut out);
                proof {
                    lemma_frames_concat_append(prev.0, choice_frames(cv[i as int], prev.1).0);
                }
                i += 1;
            }
            assert(cv.take(choices.len() as int) =~= cv);
        },
        _ => {
            assert(frames_concat(Seq::<FrameV>::empty()) =~= Seq::<u8>::empty());
        },
    }
    Ok(out)
}

} // verus!
