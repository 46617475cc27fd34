//! Responses-API side of the translator: stream events re-encoded as
//! Responses-format server-sent events.
//!
//! The client's parser accepts an `output_text.delta` only while an
//! assistant-message item is open, so the encoder opens one
//! (`output_item.added`) before the first non-empty text delta of a stream
//! and closes it (`output_item.done`, carrying the full text) when the
//! stream completes. Each completed tool call gets its own added/done pair
//! before `response.completed`.

use vstd::prelude::*;

use vstd::string::StrSliceExecFns;
use vstd::utf8::encode_utf8;

use crate::cif::{
    finish_reason_text, opt_string_view, tool_calls_view, FinishReasonV, StreamEvent, StreamEventV, ToolCall,
    ToolCallV,
};
use crate::json::{array, entries_get, items_view, jget, jget_str, jstring, jv, members_view, object, push_item, push_member, Json, JsonV};
use crate::json_serde::{json_parsed, json_serialized, parse_json, serialize_json};
use crate::text::{concat3, concat_str, dec_string, dec_text};

verus! {

// ───────────────────────────── frames ─────────────────────────────

/// One server-sent event before it is written: its name and JSON payload.
pub struct FrameV {
    pub name: Seq<char>,
    pub payload: JsonV,
}

/// The `data:` text of a payload: serde_json's text for it, or `{}` if
/// serde_json refuses it.
pub open spec fn body_text(p: JsonV) -> Seq<char> {
    match json_serialized(p) {
        Some(t) => t,
        None => "{}"@,
    }
}

/// The text of a frame: `event: <name>\ndata: <json>\n\n`.
pub open spec fn frame_text(f: FrameV) -> Seq<char> {
    "event: "@ + f.name + "\ndata: "@ + body_text(f.payload) + "\n\n"@
}

/// The bytes of a frame (UTF-8).
pub open spec fn frame_bytes(f: FrameV) -> Seq<u8> {
    encode_utf8(frame_text(f))
}

/// The bytes of a list of frames.
pub open spec fn frames_bytes(fs: Seq<FrameV>) -> Seq<Seq<u8>> {
    fs.map_values(|f: FrameV| frame_bytes(f))
}

/// The contents of a list of byte buffers.
pub open spec fn buffers_view(v: Seq<Vec<u8>>) -> Seq<Seq<u8>> {
    v.map_values(|b: Vec<u8>| b@)
}

/// Write one frame.
pub fn sse_frame(event_name: &str, payload: &Json) -> (r: Vec<u8>)
    ensures
        r@ == frame_bytes(FrameV { name: event_name@, payload: jv(*payload) }),
{
    let body = match serialize_json(payload) {
        Some(t) => t,
        None => "{}".to_string(),
    };
    let head = concat3("event: ", event_name, "\ndata: ");
    let text = concat3(head.as_str(), body.as_str(), "\n\n");
    text.as_str().as_bytes_vec()
}

fn push_frame(frames: &mut Vec<Vec<u8>>, event_name: &str, payload: &Json)
    ensures
        buffers_view(final(frames)@) == buffers_view(old(frames)@).push(
            frame_bytes(FrameV { name: event_name@, payload: jv(*payload) }),
        ),
{
    let f = sse_frame(event_name, payload);
    frames.push(f);
    assert(buffers_view(frames@) =~= buffers_view(old(frames)@).push(
        frame_bytes(FrameV { name: event_name@, payload: jv(*payload) }),
    ));
}

// ──────────────────────────── payloads ────────────────────────────

/// A JSON string.
pub open spec fn s(t: Seq<char>) -> JsonV {
    JsonV::Str(t)
}

/// The id of the `n`-th assistant-message item of a stream: `msg-<n>`.
pub open spec fn msg_id(n: nat) -> Seq<char> {
    "msg-"@ + dec_text(n)
}

/// `output_item.added` for an assistant message with id `id`.
pub open spec fn message_added_payload(id: Seq<char>) -> JsonV {
    JsonV::Object(
        seq![
            ("type"@, s("response.output_item.added"@)),
            (
                "item"@,
                JsonV::Object(
                    seq![
                        ("type"@, s("message"@)),
                        ("role"@, s("assistant"@)),
                        ("id"@, s(id)),
                        ("content"@, JsonV::Array(Seq::empty())),
                    ],
                ),
            ),
        ],
    )
}

/// `output_text.delta` carrying `text`.
pub open spec fn text_delta_payload(text: Seq<char>) -> JsonV {
    JsonV::Object(seq![("type"@, s("response.output_text.delta"@)), ("delta"@, s(text))])
}

/// `[(key, s)]` when `o` holds `s`.
pub open spec fn opt_str_member(key: Seq<char>, o: Option<Seq<char>>) -> Seq<(Seq<char>, JsonV)> {
    match o {
        Some(t) => seq![(key, s(t))],
        None => Seq::empty(),
    }
}

/// `function_call.delta` for a tool-call fragment.
pub open spec fn tool_delta_payload(
    index: u32,
    id: Option<Seq<char>>,
    name: Option<Seq<char>>,
    arguments_delta: Option<Seq<char>>,
) -> JsonV {
    JsonV::Object(
        seq![("type"@, s("response.function_call.delta"@)), ("index"@, JsonV::Int(index as int))]
            + opt_str_member("id"@, id) + opt_str_member("name"@, name) + opt_str_member(
            "arguments_delta"@,
            arguments_delta,
        ),
    )
}

/// `reasoning.delta` carrying `text`.
pub open spec fn reasoning_delta_payload(text: Seq<char>) -> JsonV {
    JsonV::Object(seq![("type"@, s("response.reasoning.delta"@)), ("delta"@, s(text))])
}

/// An `output_text` content part.
pub open spec fn output_text_part(text: Seq<char>) -> JsonV {
    JsonV::Object(seq![("type"@, s("output_text"@)), ("text"@, s(text))])
}

/// `output_item.done` closing assistant message `id` with its full text.
pub open spec fn message_done_payload(id: Seq<char>, text: Seq<char>) -> JsonV {
    JsonV::Object(
        seq![
            ("type"@, s("response.output_item.done"@)),
            (
                "item"@,
                JsonV::Object(
                    seq![
                        ("type"@, s("message"@)),
                        ("role"@, s("assistant"@)),
                        ("id"@, s(id)),
                        ("content"@, JsonV::Array(seq![output_text_part(text)])),
                    ],
                ),
            ),
        ],
    )
}

/// A `function_call` item with the given arguments text.
pub open spec fn function_call_item(tc: ToolCallV, arguments: Seq<char>) -> JsonV {
    JsonV::Object(
        seq![
            ("type"@, s("function_call"@)),
            ("call_id"@, s(tc.id)),
            ("name"@, s(tc.name)),
            ("arguments"@, s(arguments)),
        ],
    )
}

/// An `output_item.<event>` envelope around `item`.
pub open spec fn item_payload(kind: Seq<char>, item: JsonV) -> JsonV {
    JsonV::Object(seq![("type"@, s(kind)), ("item"@, item)])
}

/// The added/done lifecycle of each tool call, in order.
pub open spec fn tool_frames(tcs: Seq<ToolCallV>) -> Seq<FrameV>
    decreases tcs.len(),
{
    if tcs.len() == 0 {
        Seq::empty()
    } else {
        let tc = tcs.last();
        tool_frames(tcs.drop_last()) + seq![
            FrameV {
                name: "response.output_item.added"@,
                payload: item_payload("response.output_item.added"@, function_call_item(tc, Seq::empty())),
            },
            FrameV {
                name: "response.output_item.done"@,
                payload: item_payload("response.output_item.done"@, function_call_item(tc, tc.arguments)),
            },
        ]
    }
}

/// The `output` array of `response.completed`: the assistant message, then
/// one `function_call` item per tool call.
pub open spec fn output_items(text: Seq<char>, tcs: Seq<ToolCallV>) -> Seq<JsonV> {
    seq![
        JsonV::Object(
            seq![
                ("type"@, s("message"@)),
                ("role"@, s("assistant"@)),
                ("content"@, JsonV::Array(seq![output_text_part(text)])),
            ],
        ),
    ] + tcs.map_values(|tc: ToolCallV| function_call_item(tc, tc.arguments))
}

/// The string held by `o`, or the empty string.
pub open spec fn or_empty(o: Option<Seq<char>>) -> Seq<char> {
    match o {
        Some(t) => t,
        None => Seq::empty(),
    }
}

/// `response.completed`.
pub open spec fn completed_payload(
    text: Seq<char>,
    tcs: Seq<ToolCallV>,
    finish_reason: FinishReasonV,
    response_id: Option<Seq<char>>,
) -> JsonV {
    JsonV::Object(
        seq![
            ("type"@, s("response.completed"@)),
            (
                "response"@,
                JsonV::Object(
                    seq![
                        ("id"@, s(or_empty(response_id))),
                        ("status"@, s("completed"@)),
                        ("finish_reason"@, s(finish_reason_text(finish_reason))),
                        ("output"@, JsonV::Array(output_items(text, tcs))),
                    ],
                ),
            ),
        ],
    )
}

/// `response.error`.
pub open spec fn error_payload(message: Seq<char>) -> JsonV {
    JsonV::Object(seq![("type"@, s("response.error"@)), ("message"@, s(message))])
}

// ───────────────────────────── state ──────────────────────────────

/// Per-stream encoder state.
pub struct EncoderState {
    /// The id of the open assistant-message item, if any.
    message_item_id: Option<String>,
    /// The text streamed so far, for the closing `output_item.done`.
    accumulated_text: String,
    /// How many message items this stream has opened.
    next_message_seq: u32,
}

/// The value of an encoder state.
pub struct EncoderStateV {
    pub item: Option<Seq<char>>,
    pub text: Seq<char>,
    pub seq: nat,
}

impl View for EncoderState {
    type V = EncoderStateV;

    closed spec fn view(&self) -> EncoderStateV {
        EncoderStateV {
            item: match self.message_item_id {
                Some(id) => Some(id@),
                None => None,
            },
            text: self.accumulated_text@,
            seq: self.next_message_seq as nat,
        }
    }
}

/// The state of a fresh stream.
pub open spec fn fresh_state() -> EncoderStateV {
    EncoderStateV { item: None, text: Seq::empty(), seq: 0 }
}

impl Default for EncoderState {
    fn default() -> (r: Self)
        ensures
            r@ == fresh_state(),
    {
        EncoderState { message_item_id: None, accumulated_text: String::new(), next_message_seq: 0 }
    }
}

impl EncoderState {
    /// The id of the assistant-message item currently open, if any.
    pub fn open_item_id(&self) -> (r: Option<&String>)
        ensures
            match r {
                Some(id) => self@.item == Some(id@),
                None => self@.item is None,
            },
    {
        self.message_item_id.as_ref()
    }

    /// How many message items this stream has opened.
    pub fn message_seq(&self) -> (n: u32)
        ensures
            n == self@.seq,
    {
        self.next_message_seq
    }
}

// ─────────────────────────── the encoder ──────────────────────────

/// Whether encoding `e` from `st` opens a new message item: a non-empty
/// text delta while no item is open. Only then is a new item number
/// taken.
pub open spec fn opens_item(e: StreamEventV, st: EncoderStateV) -> bool {
    &&& e is TextDelta
    &&& e->TextDelta_text.len() > 0
    &&& st.item is None
}

/// The frames one event produces from state `st`, and the state after it.
pub open spec fn encode_spec(e: StreamEventV, st: EncoderStateV) -> (Seq<FrameV>, EncoderStateV) {
    match e {
        StreamEventV::TextDelta { text } => {
            if text.len() == 0 {
                (Seq::empty(), st)
            } else {
                let delta = FrameV { name: "response.output_text.delta"@, payload: text_delta_payload(text) };
                match st.item {
                    None => {
                        let id = msg_id(st.seq + 1);
                        (
                            seq![
                                FrameV { name: "response.output_item.added"@, payload: message_added_payload(id) },
                                delta,
                            ],
                            EncoderStateV { item: Some(id), text: st.text + text, seq: st.seq + 1 },
                        )
                    },
                    Some(id) => (seq![delta], EncoderStateV { item: Some(id), text: st.text + text, seq: st.seq }),
                }
            }
        },
        StreamEventV::ToolCallDelta { index, id, name, arguments_delta } => (
            seq![
                FrameV {
                    name: "response.function_call.delta"@,
                    payload: tool_delta_payload(index, id, name, arguments_delta),
                },
            ],
            st,
        ),
        StreamEventV::ReasoningDelta { text } => (
            seq![FrameV { name: "response.reasoning.delta"@, payload: reasoning_delta_payload(text) }],
            st,
        ),
        StreamEventV::Completed { text, tool_calls, finish_reason, response_id } => {
            let completed = FrameV {
                name: "response.completed"@,
                payload: completed_payload(text, tool_calls, finish_reason, response_id),
            };
            match st.item {
                Some(id) => {
                    let final_text = if text.len() > 0 { text } else { st.text };
                    (
                        seq![FrameV { name: "response.output_item.done"@, payload: message_done_payload(id, final_text) }]
                            + tool_frames(tool_calls) + seq![completed],
                        EncoderStateV { item: None, text: Seq::empty(), seq: st.seq },
                    )
                },
                None => (tool_frames(tool_calls) + seq![completed], st),
            }
        },
        StreamEventV::Error { message } => (
            seq![FrameV { name: "response.error"@, payload: error_payload(message) }],
            st,
        ),
    }
}

} // verus!

verus! {

fn message_added(id: &str) -> (j: Json)
    ensures
        jv(j) == message_added_payload(id@),
{
    let mut item: Vec<(String, Json)> = Vec::new();
    push_member(&mut item, "type", jstring("message"));
    push_member(&mut item, "role", jstring("assistant"));
    push_member(&mut item, "id", jstring(id));
    push_member(&mut item, "content", array(Vec::new()));
    let ghost iv = members_view(item@);
    let mut top: Vec<(String, Json)> = Vec::new();
    push_member(&mut top, "type", jstring("response.output_item.added"));
    push_member(&mut top, "item", object(item));
    proof {
        assert(items_view(Seq::<Json>::empty()) =~= Seq::<JsonV>::empty());
        assert(iv =~= seq![
            ("type"@, s("message"@)),
            ("role"@, s("assistant"@)),
            ("id"@, s(id@)),
            ("content"@, JsonV::Array(Seq::empty())),
        ]);
        assert(members_view(top@) =~= seq![
            ("type"@, s("response.output_item.added"@)),
            ("item"@, JsonV::Object(iv)),
        ]);
    }
    object(top)
}

fn two_strings(k1: &str, v1: &str, k2: &str, v2: &str) -> (j: Json)
    ensures
        jv(j) == JsonV::Object(seq![(k1@, s(v1@)), (k2@, s(v2@))]),
{
    let mut m: Vec<(String, Json)> = Vec::new();
    push_member(&mut m, k1, jstring(v1));
    push_member(&mut m, k2, jstring(v2));
    assert(members_view(m@) =~= seq![(k1@, s(v1@)), (k2@, s(v2@))]);
    object(m)
}

fn push_opt_string(m: &mut Vec<(String, Json)>, key: &str, o: &Option<String>)
    ensures
        members_view(final(m)@) == members_view(old(m)@) + opt_str_member(key@, opt_string_view(*o)),
{
    match o {
        Some(t) => push_member(m, key, jstring(t.as_str())),
        None => {
            assert(members_view(m@) =~= members_view(m@) + Seq::<(Seq<char>, JsonV)>::empty());
        },
    }
}

fn tool_delta(index: u32, id: &Option<String>, name: &Option<String>, args: &Option<String>) -> (j: Json)
    ensures
        jv(j) == tool_delta_payload(index, opt_string_view(*id), opt_string_view(*name), opt_string_view(*args)),
{
    let mut m: Vec<(String, Json)> = Vec::new();
    push_member(&mut m, "type", jstring("response.function_call.delta"));
    push_member(&mut m, "index", Json::Int(index as i128));
    let ghost head = members_view(m@);
    assert(head =~= seq![("type"@, s("response.function_call.delta"@)), ("index"@, JsonV::Int(index as int))]);
    push_opt_string(&mut m, "id", id);
    push_opt_string(&mut m, "name", name);
    push_opt_string(&mut m, "arguments_delta", args);
    object(m)
}

fn output_text(text: &str) -> (j: Json)
    ensures
        jv(j) == output_text_part(text@),
{
    two_strings("type", "output_text", "text", text)
}

fn message_done(id: &str, text: &str) -> (j: Json)
    ensures
        jv(j) == message_done_payload(id@, text@),
{
    let mut content: Vec<Json> = Vec::new();
    push_item(&mut content, output_text(text));
    let ghost cv = items_view(content@);
    let mut item: Vec<(String, Json)> = Vec::new();
    push_member(&mut item, "type", jstring("message"));
    push_member(&mut item, "role", jstring("assistant"));
    push_member(&mut item, "id", jstring(id));
    push_member(&mut item, "content", array(content));
    let ghost iv = members_view(item@);
    let mut top: Vec<(String, Json)> = Vec::new();
    push_member(&mut top, "type", jstring("response.output_item.done"));
    push_member(&mut top, "item", object(item));
    proof {
        assert(cv =~= seq![output_text_part(text@)]);
        assert(iv =~= seq![
            ("type"@, s("message"@)),
            ("role"@, s("assistant"@)),
            ("id"@, s(id@)),
            ("content"@, JsonV::Array(seq![output_text_part(text@)])),
        ]);
        assert(members_view(top@) =~= seq![
            ("type"@, s("response.output_item.done"@)),
            ("item"@, JsonV::Object(iv)),
        ]);
    }
    object(top)
}

fn function_call(tc: &ToolCall, arguments: &str) -> (j: Json)
    ensures
        jv(j) == function_call_item(tc@, arguments@),
{
    let mut m: Vec<(String, Json)> = Vec::new();
    push_member(&mut m, "type", jstring("function_call"));
    push_member(&mut m, "call_id", jstring(tc.id.as_str()));
    push_member(&mut m, "name", jstring(tc.name.as_str()));
    push_member(&mut m, "arguments", jstring(arguments));
    assert(members_view(m@) =~= seq![
        ("type"@, s("function_call"@)),
        ("call_id"@, s(tc.id@)),
        ("name"@, s(tc.name@)),
        ("arguments"@, s(arguments@)),
    ]);
    object(m)
}

fn item_envelope(kind: &str, item: Json) -> (j: Json)
    ensures
        jv(j) == item_payload(kind@, jv(item)),
{
    let ghost item_v = jv(item);
    let mut m: Vec<(String, Json)> = Vec::new();
    push_member(&mut m, "type", jstring(kind));
    push_member(&mut m, "item", item);
    assert(members_view(m@) =~= seq![("type"@, s(kind@)), ("item"@, item_v)]);
    object(m)
}

fn completed(
    text: &str,
    tool_calls: &Vec<ToolCall>,
    finish_reason: &crate::cif::FinishReason,
    response_id: &Option<String>,
) -> (j: Json)
    ensures
        jv(j) == completed_payload(text@, tool_calls_view(tool_calls@), finish_reason@, opt_string_view(*response_id)),
{
    let tcs = Ghost(tool_calls_view(tool_calls@));
    let mut msg: Vec<(String, Json)> = Vec::new();
    push_member(&mut msg, "type", jstring("message"));
    push_member(&mut msg, "role", jstring("assistant"));
    let mut content: Vec<Json> = Vec::new();
    push_item(&mut content, output_text(text));
    let ghost cv = items_view(content@);
    push_member(&mut msg, "content", array(content));
    let ghost mv = members_view(msg@);
    let mut output: Vec<Json> = Vec::new();
    push_item(&mut output, object(msg));
    let ghost first = items_view(output@);
    proof {
        assert(cv =~= seq![output_text_part(text@)]);
        assert(mv =~= seq![
            ("type"@, s("message"@)),
            ("role"@, s("assistant"@)),
            ("content"@, JsonV::Array(seq![output_text_part(text@)])),
        ]);
    }
    let mut i: usize = 0;
    while i < tool_calls.len()
        invariant
            i <= tool_calls.len(),
            tcs@ == tool_calls_view(tool_calls@),
            items_view(output@) == first + tcs@.take(i as int).map_values(
                |tc: ToolCallV| function_call_item(tc, tc.arguments),
            ),
        decreases tool_calls.len() - i,
    {
        let tc = &tool_calls[i];
        push_item(&mut output, function_call(tc, tc.arguments.as_str()));
        assert(tcs@.take(i + 1).map_values(|tc: ToolCallV| function_call_item(tc, tc.arguments)) =~= tcs@.take(
            i as int,
        ).map_values(|tc: ToolCallV| function_call_item(tc, tc.arguments)).push(
            function_call_item(tcs@[i as int], tcs@[i as int].arguments),
        ));
        i += 1;
    }
    assert(tcs@.take(tool_calls.len() as int) =~= tcs@);
    let ghost ov = items_view(output@);
    assert(ov =~= output_items(text@, tcs@));
    let rid = match response_id {
        Some(r) => r.clone(),
        None => String::new(),
    };
    let fr = finish_reason.as_text();
    assert(rid@ == or_empty(opt_string_view(*response_id)));
    let mut resp: Vec<(String, Json)> = Vec::new();
    push_member(&mut resp, "id", jstring(rid.as_str()));
    push_member(&mut resp, "status", jstring("completed"));
    push_member(&mut resp, "finish_reason", jstring(fr.as_str()));
    push_member(&mut resp, "output", array(output));
    let ghost rv = members_view(resp@);
    let mut top: Vec<(String, Json)> = Vec::new();
    push_member(&mut top, "type", jstring("response.completed"));
    push_member(&mut top, "response", object(resp));
    proof {
        assert(rv =~= seq![
            ("id"@, s(or_empty(opt_string_view(*response_id)))),
            ("status"@, s("completed"@)),
            ("finish_reason"@, s(finish_reason_text(finish_reason@))),
            ("output"@, JsonV::Array(output_items(text@, tcs@))),
        ]);
        assert(members_view(top@) =~= seq![
            ("type"@, s("response.completed"@)),
            ("response"@, JsonV::Object(rv)),
        ]);
    }
    object(top)
}

} // verus!

verus! {

proof fn lemma_frames_bytes_push(fs: Seq<FrameV>, f: FrameV)
    ensures
        frames_bytes(fs.push(f)) == frames_bytes(fs).push(frame_bytes(f)),
{
    assert(frames_bytes(fs.push(f)) =~= frames_bytes(fs).push(frame_bytes(f)));
}

proof fn lemma_tool_frames_step(tcs: Seq<ToolCallV>, i: int)
    requires
        0 <= i < tcs.len(),
    ensures
        tool_frames(tcs.take(i + 1)) == tool_frames(tcs.take(i)) + seq![
            FrameV {
                name: "response.output_item.added"@,
                payload: item_payload("response.output_item.added"@, function_call_item(tcs[i], Seq::empty())),
            },
            FrameV {
                name: "response.output_item.done"@,
                payload: item_payload("response.output_item.done"@, function_call_item(tcs[i], tcs[i].arguments)),
            },
        ],
{
    assert(tcs.take(i + 1).drop_last() =~= tcs.take(i));
}

/// Encode one stream event as Responses-format frames, in order, updating
/// the per-stream state: the first non-empty text delta of a stream opens
/// an assistant-message item, `Completed` closes it (with the completed
/// text, or the streamed text when the completed text is empty), and each
/// tool call of `Completed` gets an added/done pair before
/// `response.completed`. An empty text delta produces no frame.
pub fn encode_events(event: &StreamEvent, state: &mut EncoderState) -> (frames: Vec<Vec<u8>>)
    requires
        opens_item(event@, old(state)@) ==> old(state)@.seq < u32::MAX,
    ensures
        buffers_view(frames@) == frames_bytes(encode_spec(event@, old(state)@).0),
        final(state)@ == encode_spec(event@, old(state)@).1,
{
    let mut frames: Vec<Vec<u8>> = Vec::new();
    let ghost mut fs: Seq<FrameV> = Seq::empty();
    assert(buffers_view(frames@) =~= frames_bytes(fs));
    match event {
        StreamEvent::TextDelta { text } => {
            if !text.as_str().is_empty() {
                if state.message_item_id.is_none() {
                    state.next_message_seq = state.next_message_seq + 1;
                    let n = dec_string(state.next_message_seq as u64);
                    let id = concat_str("msg-", n.as_str());
                    let payload = message_added(id.as_str());
                    push_frame(&mut frames, "response.output_item.added", &payload);
                    proof {
                        let f = FrameV { name: "response.output_item.added"@, payload: jv(payload) };
                        lemma_frames_bytes_push(fs, f);
                        fs = fs.push(f);
                    }
                    state.message_item_id = Some(id);
                }
                state.accumulated_text = concat_str(state.accumulated_text.as_str(), text.as_str());
                let payload = two_strings("type", "response.output_text.delta", "delta", text.as_str());
                push_frame(&mut frames, "response.output_text.delta", &payload);
                proof {
                    let f = FrameV { name: "response.output_text.delta"@, payload: jv(payload) };
                    lemma_frames_bytes_push(fs, f);
                    fs = fs.push(f);
                }
            }
        },
        StreamEvent::ToolCallDelta { index, id, name, arguments_delta } => {
            let payload = tool_delta(*index, id, name, arguments_delta);
            push_frame(&mut frames, "response.function_call.delta", &payload);
            proof {
                let f = FrameV { name: "response.function_call.delta"@, payload: jv(payload) };
                lemma_frames_bytes_push(fs, f);
                fs = fs.push(f);
            }
        },
        StreamEvent::ReasoningDelta { text } => {
            let payload = two_strings("type", "response.reasoning.delta", "delta", text.as_str());
            push_frame(&mut frames, "response.reasoning.delta", &payload);
            proof {
                let f = FrameV { name: "response.reasoning.delta"@, payload: jv(payload) };
                lemma_frames_bytes_push(fs, f);
                fs = fs.push(f);
            }
        },
        StreamEvent::Completed { text, tool_calls, finish_reason, response_id } => {
            let opened = state.message_item_id.take();
            match opened {
                Some(id) => {
                    let streamed = state.accumulated_text.clone();
                    state.accumulated_text = String::new();
                    let final_text = if !text.as_str().is_empty() {
                        text.clone()
                    } else {
                        streamed
                    };
                    let payload = message_done(id.as_str(), final_text.as_str());
                    push_frame(&mut frames, "response.output_item.done", &payload);
                    proof {
                        let f = FrameV { name: "response.output_item.done"@, payload: jv(payload) };
                        lemma_frames_bytes_push(fs, f);
                        fs = fs.push(f);
                    }
                },
                None => {},
            }
            let ghost head = fs;
            let ghost tcs = tool_calls_view(tool_calls@);
            let mut i: usize = 0;
            while i < tool_calls.len()
                invariant
                    i <= tool_calls.len(),
                    tcs == tool_calls_view(tool_calls@),
                    fs == head + tool_frames(tcs.take(i as int)),
                    buffers_view(frames@) == frames_bytes(fs),
                decreases tool_calls.len() - i,
            {
                let tc = &tool_calls[i];
                let added = item_envelope("response.output_item.added", function_call(tc, ""));
                push_frame(&mut frames, "response.output_item.added", &added);
                let done = item_envelope("response.output_item.done", function_call(tc, tc.arguments.as_str()));
                push_frame(&mut frames, "response.output_item.done", &done);
                proof {
                    reveal_strlit("");
                    assert(tcs[i as int] == tool_calls@[i as int]@);
                    assert(""@ =~= Seq::<char>::empty());
                    let fa = FrameV { name: "response.output_item.added"@, payload: jv(added) };
                    let fd = FrameV { name: "response.output_item.done"@, payload: jv(done) };
                    lemma_frames_bytes_push(fs, fa);
                    lemma_frames_bytes_push(fs.push(fa), fd);
                    lemma_tool_frames_step(tcs, i as int);
                    assert(head + tool_frames(tcs.take(i + 1)) =~= fs.push(fa).push(fd));
                    fs = fs.push(fa).push(fd);
                }
                i += 1;
            }
            proof {
                assert(tcs.take(tool_calls.len() as int) =~= tcs);
            }
            let payload = completed(text.as_str(), tool_calls, finish_reason, response_id);
            push_frame(&mut frames, "response.completed", &payload);
            proof {
                let f = FrameV { name: "response.completed"@, payload: jv(payload) };
                lemma_frames_bytes_push(fs, f);
                fs = fs.push(f);
            }
        },
        StreamEvent::Error { message } => {
            let payload = two_strings("type", "response.error", "message", message.as_str());
            push_frame(&mut frames, "response.error", &payload);
            proof {
                let f = FrameV { name: "response.error"@, payload: jv(payload) };
                lemma_frames_bytes_push(fs, f);
                fs = fs.push(f);
            }
        },
    }
    assert(fs =~= encode_spec(event@, old(state)@).0);
    frames
}

} // verus!

verus! {

/// The last frame of `encode_spec` on a fresh stream, if any.
pub open spec fn last_fresh_frame(e: StreamEventV) -> Option<FrameV> {
    let fs = encode_spec(e, fresh_state()).0;
    if fs.len() == 0 {
        None
    } else {
        Some(fs.last())
    }
}

/// Encode one event on a fresh stream and return the last frame it
/// produces (for a first text delta, the delta itself rather than the item
/// that opens it), or `None` for an event that produces none.
pub fn encode_event(event: &StreamEvent) -> (r: Option<Vec<u8>>)
    ensures
        match last_fresh_frame(event@) {
            Some(f) => r matches Some(b) && b@ == frame_bytes(f),
            None => r is None,
        },
{
    let mut state = EncoderState::default();
    let mut frames = encode_events(event, &mut state);
    let ghost fs = encode_spec(event@, fresh_state()).0;
    assert(buffers_view(frames@).len() == fs.len());
    if frames.len() > 0 {
        assert(buffers_view(frames@)[frames@.len() - 1] == frames@[frames@.len() - 1]@);
    }
    frames.pop()
}

// ───────────────────────────── laws ───────────────────────────────

/// The `type` of the `item` member of a payload.
pub open spec fn item_type(p: JsonV) -> Option<Seq<char>> {
    match jget(p, "item"@) {
        Some(i) => jget_str(i, "type"@),
        None => None,
    }
}

/// The frame opens an assistant-message item.
pub open spec fn opens_message(f: FrameV) -> bool {
    f.name == "response.output_item.added"@ && item_type(f.payload) == Some("message"@)
}

/// The frame closes an assistant-message item.
pub open spec fn closes_message(f: FrameV) -> bool {
    f.name == "response.output_item.done"@ && item_type(f.payload) == Some("message"@)
}

/// The frame is an assistant text delta.
pub open spec fn is_text_delta(f: FrameV) -> bool {
    f.name == "response.output_text.delta"@
}

/// Whether a message item is open after frame `f`, given whether one was
/// open before it.
pub open spec fn open_after_frame(f: FrameV, open: bool) -> bool {
    if opens_message(f) {
        true
    } else if closes_message(f) {
        false
    } else {
        open
    }
}

/// Whether a message item is open after the frames `fs`.
pub open spec fn open_after(fs: Seq<FrameV>, open: bool) -> bool
    decreases fs.len(),
{
    if fs.len() == 0 {
        open
    } else {
        open_after(fs.drop_first(), open_after_frame(fs[0], open))
    }
}

/// The envelope discipline the client's parser needs, frame by frame: a
/// message item is opened only when none is open, closed only when one is
/// open, and every text delta arrives while one is open.
pub open spec fn well_enveloped(fs: Seq<FrameV>, open: bool) -> bool
    decreases fs.len(),
{
    if fs.len() == 0 {
        true
    } else {
        let f = fs[0];
        &&& (opens_message(f) ==> !open)
        &&& (closes_message(f) ==> open)
        &&& (is_text_delta(f) ==> open_after_frame(f, open))
        &&& well_enveloped(fs.drop_first(), open_after_frame(f, open))
    }
}

proof fn lemma_envelope_concat(a: Seq<FrameV>, b: Seq<FrameV>, open: bool)
    ensures
        well_enveloped(a + b, open) == (well_enveloped(a, open) && well_enveloped(b, open_after(a, open))),
        open_after(a + b, open) == open_after(b, open_after(a, open)),
    decreases a.len(),
{
    if a.len() > 0 {
        assert((a + b).drop_first() =~= a.drop_first() + b);
        lemma_envelope_concat(a.drop_first(), b, open_after_frame(a[0], open));
    } else {
        assert(a + b =~= b);
    }
}

proof fn lemma_single_frame(f: FrameV, open: bool)
    ensures
        well_enveloped(seq![f], open) == ((opens_message(f) ==> !open) && (closes_message(f) ==> open) && (
        is_text_delta(f) ==> open_after_frame(f, open))),
        open_after(seq![f], open) == open_after_frame(f, open),
{
    let rest = seq![f].drop_first();
    assert(rest =~= Seq::<FrameV>::empty());
    assert(well_enveloped(rest, open_after_frame(f, open)));
    assert(open_after(rest, open_after_frame(f, open)) == open_after_frame(f, open));
}

/// A frame that neither opens nor closes a message item nor is a text
/// delta leaves the discipline and the open flag alone.
proof fn lemma_neutral_frame(f: FrameV, open: bool)
    requires
        !opens_message(f),
        !closes_message(f),
        !is_text_delta(f),
    ensures
        well_enveloped(seq![f], open),
        open_after(seq![f], open) == open,
{
    let rest = seq![f].drop_first();
    assert(rest =~= Seq::<FrameV>::empty());
    assert(well_enveloped(rest, open));
    assert(open_after(rest, open) == open);
}

proof fn lemma_tool_frames_neutral(tcs: Seq<ToolCallV>, open: bool)
    ensures
        well_enveloped(tool_frames(tcs), open),
        open_after(tool_frames(tcs), open) == open,
    decreases tcs.len(),
{
    if tcs.len() > 0 {
        let tc = tcs.last();
        let fa = FrameV {
            name: "response.output_item.added"@,
            payload: item_payload("response.output_item.added"@, function_call_item(tc, Seq::empty())),
        };
        let fd = FrameV {
            name: "response.output_item.done"@,
            payload: item_payload("response.output_item.done"@, function_call_item(tc, tc.arguments)),
        };
        lemma_tool_frames_neutral(tcs.drop_last(), open);
        lemma_names_distinct();
        lemma_function_call_item_type(tc, Seq::empty());
        lemma_function_call_item_type(tc, tc.arguments);
        lemma_item_payload_type("response.output_item.added"@, function_call_item(tc, Seq::empty()));
        lemma_item_payload_type("response.output_item.done"@, function_call_item(tc, tc.arguments));
        lemma_neutral_frame(fa, open);
        lemma_neutral_frame(fd, open);
        lemma_envelope_concat(seq![fa], seq![fd], open);
        assert(seq![fa] + seq![fd] =~= seq![fa, fd]);
        lemma_envelope_concat(tool_frames(tcs.drop_last()), seq![fa, fd], open);
    }
}

proof fn lemma_names_distinct()
    ensures
        "response.output_item.added"@ != "response.output_item.done"@,
        "response.output_item.added"@ != "response.output_text.delta"@,
        "response.output_item.done"@ != "response.output_text.delta"@,
        "response.function_call.delta"@ != "response.output_item.added"@,
        "response.function_call.delta"@ != "response.output_item.done"@,
        "response.function_call.delta"@ != "response.output_text.delta"@,
        "response.reasoning.delta"@ != "response.output_item.added"@,
        "response.reasoning.delta"@ != "response.output_item.done"@,
        "response.reasoning.delta"@ != "response.output_text.delta"@,
        "response.completed"@ != "response.output_item.added"@,
        "response.completed"@ != "response.output_item.done"@,
        "response.completed"@ != "response.output_text.delta"@,
        "response.error"@ != "response.output_item.added"@,
        "response.error"@ != "response.output_item.done"@,
        "response.error"@ != "response.output_text.delta"@,
        "function_call"@ != "message"@,
        "type"@ != "item"@,
        "type"@ != "role"@,
        "type"@ != "id"@,
        "type"@ != "content"@,
        "type"@ != "call_id"@,
        "type"@ != "name"@,
        "type"@ != "arguments"@,
{
    reveal_strlit("response.output_item.added");
    reveal_strlit("response.output_item.done");
    reveal_strlit("response.output_text.delta");
    reveal_strlit("response.function_call.delta");
    reveal_strlit("response.reasoning.delta");
    reveal_strlit("response.completed");
    reveal_strlit("response.error");
    reveal_strlit("function_call");
    reveal_strlit("message");
    reveal_strlit("type");
    reveal_strlit("item");
    reveal_strlit("role");
    reveal_strlit("id");
    reveal_strlit("content");
    reveal_strlit("call_id");
    reveal_strlit("name");
    reveal_strlit("arguments");
    assert("response.output_item.added"@[21] != "response.output_item.done"@[21]);
    assert("response.output_item.added"@[16] != "response.output_text.delta"@[16]);
    assert("response.output_item.done"@[16] != "response.output_text.delta"@[16]);
    assert("response.function_call.delta"@[9] != "response.output_item.added"@[9]);
    assert("response.function_call.delta"@[9] != "response.output_item.done"@[9]);
    assert("response.function_call.delta"@[9] != "response.output_text.delta"@[9]);
    assert("response.reasoning.delta"@[9] != "response.output_item.added"@[9]);
    assert("response.reasoning.delta"@[9] != "response.output_item.done"@[9]);
    assert("response.reasoning.delta"@[9] != "response.output_text.delta"@[9]);
    assert("function_call"@[0] != "message"@[0]);
    assert("type"@[0] != "item"@[0]);
    assert("type"@[0] != "role"@[0]);
    assert("type"@[0] != "id"@[0]);
    assert("type"@[0] != "content"@[0]);
    assert("type"@[0] != "call_id"@[0]);
    assert("type"@[0] != "name"@[0]);
    assert("type"@[0] != "arguments"@[0]);
}

proof fn lemma_function_call_item_type(tc: ToolCallV, args: Seq<char>)
    ensures
        jget_str(function_call_item(tc, args), "type"@) == Some("function_call"@),
{
    lemma_names_distinct();
    let e1 = seq![("type"@, s("function_call"@))];
    let e2 = e1.push(("call_id"@, s(tc.id)));
    let e3 = e2.push(("name"@, s(tc.name)));
    let e4 = e3.push(("arguments"@, s(args)));
    assert(e1.drop_last() =~= Seq::<(Seq<char>, JsonV)>::empty());
    assert(entries_get(e1, "type"@) == Some(s("function_call"@)));
    assert(e2.drop_last() =~= e1);
    assert(entries_get(e2, "type"@) == Some(s("function_call"@)));
    assert(e3.drop_last() =~= e2);
    assert(entries_get(e3, "type"@) == Some(s("function_call"@)));
    assert(e4.drop_last() =~= e3);
    assert(entries_get(e4, "type"@) == Some(s("function_call"@)));
    assert(e4 =~= seq![
        ("type"@, s("function_call"@)),
        ("call_id"@, s(tc.id)),
        ("name"@, s(tc.name)),
        ("arguments"@, s(args)),
    ]);
}

proof fn lemma_message_item_type(id: Seq<char>, content: JsonV)
    ensures
        jget_str(
            JsonV::Object(seq![("type"@, s("message"@)), ("role"@, s("assistant"@)), ("id"@, s(id)), ("content"@, content)]),
            "type"@,
        ) == Some("message"@),
{
    lemma_names_distinct();
    let e1 = seq![("type"@, s("message"@))];
    let e2 = e1.push(("role"@, s("assistant"@)));
    let e3 = e2.push(("id"@, s(id)));
    let e4 = e3.push(("content"@, content));
    assert(e1.drop_last() =~= Seq::<(Seq<char>, JsonV)>::empty());
    assert(entries_get(e1, "type"@) == Some(s("message"@)));
    assert(e2.drop_last() =~= e1);
    assert(entries_get(e2, "type"@) == Some(s("message"@)));
    assert(e3.drop_last() =~= e2);
    assert(entries_get(e3, "type"@) == Some(s("message"@)));
    assert(e4.drop_last() =~= e3);
    assert(entries_get(e4, "type"@) == Some(s("message"@)));
    assert(e4 =~= seq![("type"@, s("message"@)), ("role"@, s("assistant"@)), ("id"@, s(id)), ("content"@, content)]);
}

proof fn lemma_item_payload_type(kind: Seq<char>, item: JsonV)
    ensures
        item_type(item_payload(kind, item)) == jget_str(item, "type"@),
{
}

/// The frames of one event keep the envelope discipline, and a message
/// item is open afterwards exactly when the new state holds one.
pub proof fn lemma_event_enveloped(e: StreamEventV, st: EncoderStateV)
    ensures
        well_enveloped(encode_spec(e, st).0, st.item is Some),
        open_after(encode_spec(e, st).0, st.item is Some) == (encode_spec(e, st).1.item is Some),
{
    lemma_names_distinct();
    let open = st.item is Some;
    match e {
        StreamEventV::TextDelta { text } => {
            if text.len() == 0 {
                assert(well_enveloped(Seq::<FrameV>::empty(), open));
                assert(open_after(Seq::<FrameV>::empty(), open) == open);
                assert(encode_spec(e, st).0 == Seq::<FrameV>::empty());
                assert(encode_spec(e, st).1 == st);
            } else {
                let delta = FrameV { name: "response.output_text.delta"@, payload: text_delta_payload(text) };
                assert(is_text_delta(delta) && !opens_message(delta) && !closes_message(delta));
                match st.item {
                    None => {
                        let id = msg_id(st.seq + 1);
                        let fo = FrameV { name: "response.output_item.added"@, payload: message_added_payload(id) };
                        lemma_message_item_type(id, JsonV::Array(Seq::empty()));
                        assert(opens_message(fo));
                        lemma_single_frame(fo, open);
                        lemma_single_frame(delta, true);
                        lemma_envelope_concat(seq![fo], seq![delta], open);
                        assert(seq![fo] + seq![delta] =~= seq![fo, delta]);
                        assert(encode_spec(e, st).0 == seq![fo, delta]);
                        assert(well_enveloped(seq![fo, delta], open));
                    },
                    Some(id) => {
                        lemma_single_frame(delta, open);
                        assert(encode_spec(e, st).0 == seq![delta]);
                        assert(encode_spec(e, st).1.item == Some(id));
                    },
                }
            }
        },
        StreamEventV::ToolCallDelta { index, id, name, arguments_delta } => {
            let f = FrameV {
                name: "response.function_call.delta"@,
                payload: tool_delta_payload(index, id, name, arguments_delta),
            };
            lemma_neutral_frame(f, open);
        },
        StreamEventV::ReasoningDelta { text } => {
            let f = FrameV { name: "response.reasoning.delta"@, payload: reasoning_delta_payload(text) };
            lemma_neutral_frame(f, open);
        },
        StreamEventV::Completed { text, tool_calls, finish_reason, response_id } => {
            let completed = FrameV {
                name: "response.completed"@,
                payload: completed_payload(text, tool_calls, finish_reason, response_id),
            };
            lemma_tool_frames_neutral(tool_calls, open);
            lemma_tool_frames_neutral(tool_calls, false);
            lemma_neutral_frame(completed, open);
            lemma_neutral_frame(completed, false);
            match st.item {
                Some(id) => {
                    let final_text = if text.len() > 0 { text } else { st.text };
                    let fd = FrameV { name: "response.output_item.done"@, payload: message_done_payload(id, final_text) };
                    lemma_message_item_type(id, JsonV::Array(seq![output_text_part(final_text)]));
                    assert(closes_message(fd));
                    lemma_single_frame(fd, open);
                    lemma_envelope_concat(seq![fd], tool_frames(tool_calls), open);
                    lemma_envelope_concat(seq![fd] + tool_frames(tool_calls), seq![completed], open);
                },
                None => {
                    lemma_envelope_concat(tool_frames(tool_calls), seq![completed], open);
                },
            }
        },
        StreamEventV::Error { message } => {
            let f = FrameV { name: "response.error"@, payload: error_payload(message) };
            lemma_neutral_frame(f, open);
        },
    }
}

/// Law: the text the encoder keeps is the text of the open message item
/// only. When no item is open nothing is kept, and every event keeps it
/// so; so the `output_item.done` that closes an item carries that item's
/// own streamed text (or the completion's text when it has one).
pub proof fn lemma_item_text_is_its_own(e: StreamEventV, st: EncoderStateV)
    requires
        st.item is None ==> st.text.len() == 0,
    ensures
        encode_spec(e, st).1.item is None ==> encode_spec(e, st).1.text.len() == 0,
        (e is TextDelta && st.item is None && e->TextDelta_text.len() > 0) ==> encode_spec(e, st).1.text
            == e->TextDelta_text,
{
    if e is TextDelta && st.item is None {
        assert(st.text + e->TextDelta_text =~= e->TextDelta_text);
    }
}

/// The frames and final state of a whole stream of events.
pub open spec fn encode_stream(es: Seq<StreamEventV>, st: EncoderStateV) -> (Seq<FrameV>, EncoderStateV)
    decreases es.len(),
{
    if es.len() == 0 {
        (Seq::empty(), st)
    } else {
        let prev = encode_stream(es.drop_last(), st);
        let step = encode_spec(es.last(), prev.1);
        (prev.0 + step.0, step.1)
    }
}

/// Law: whatever events a stream carries, its frames keep the envelope
/// discipline the client needs (no text delta outside an open message
/// item, no item opened twice, none closed that was not open), and after
/// a `Completed` event no message item is left open.
pub proof fn lemma_stream_enveloped(es: Seq<StreamEventV>)
    ensures
        well_enveloped(encode_stream(es, fresh_state()).0, false),
        open_after(encode_stream(es, fresh_state()).0, false) == (encode_stream(es, fresh_state()).1.item is Some),
        es.len() > 0 && es.last() is Completed ==> encode_stream(es, fresh_state()).1.item is None,
    decreases es.len(),
{
    if es.len() > 0 {
        let prev = encode_stream(es.drop_last(), fresh_state());
        lemma_stream_enveloped(es.drop_last());
        lemma_event_enveloped(es.last(), prev.1);
        lemma_envelope_concat(prev.0, encode_spec(es.last(), prev.1).0, false);
    }
}

} // verus!

verus! {

// ─────────────────────────── request parsing ──────────────────────────

/// Why a Responses request body was refused.
#[derive(Debug, Clone, PartialEq, Eq)]
pub enum RequestError {
    /// No string `model`.
    MissingModel,
    /// No array `input`.
    MissingInput,
}

impl RequestError {
    /// The human-readable message.
    pub fn message(&self) -> (r: String)
        ensures
            r@ == match *self {
                RequestError::MissingModel => "Responses request missing required field 'model'"@,
                RequestError::MissingInput => "Responses request missing or non-array 'input'"@,
            },
    {
        match self {
            RequestError::MissingModel => "Responses request missing required field 'model'".to_string(),
            RequestError::MissingInput => "Responses request missing or non-array 'input'".to_string(),
        }
    }
}

/// The string member `k` of `v`, or `d`.
pub open spec fn str_member(v: JsonV, k: Seq<char>, d: Seq<char>) -> Seq<char> {
    crate::anthropic::str_or(jget_str(v, k), d)
}

/// The URL of an image piece: `image_url.url` when present, else `url`;
/// only a string counts.
pub open spec fn image_url_of(piece: JsonV) -> Option<Seq<char>> {
    crate::json::jstr(
        match crate::anthropic::jget_in(jget(piece, "image_url"@), "url"@) {
            Some(x) => Some(x),
            None => jget(piece, "url"@),
        },
    )
}

/// The content piece a part stands for, if any: text parts
/// (`input_text`, `output_text`, `text`) with a string `text`; image parts
/// (`input_image`, `image`, `image_url`) with a URL.
pub open spec fn content_piece(piece: JsonV) -> Option<crate::cif::ContentV> {
    let ptype = str_member(piece, "type"@, Seq::empty());
    if ptype == "input_text"@ || ptype == "output_text"@ || ptype == "text"@ {
        match jget_str(piece, "text"@) {
            Some(t) => Some(crate::cif::ContentV::Text { text: t }),
            None => None,
        }
    } else if ptype == "input_image"@ || ptype == "image"@ || ptype == "image_url"@ {
        match image_url_of(piece) {
            Some(u) => Some(crate::cif::ContentV::Image { url: u, mime: jget_str(piece, "mime_type"@) }),
            None => None,
        }
    } else {
        None
    }
}

/// The content pieces of an array of parts, in order.
pub open spec fn content_pieces(ps: Seq<JsonV>) -> Seq<crate::cif::ContentV>
    decreases ps.len(),
{
    if ps.len() == 0 {
        Seq::empty()
    } else {
        content_pieces(ps.drop_last()) + match content_piece(ps.last()) {
            Some(c) => seq![c],
            None => Seq::empty(),
        }
    }
}

/// Message content: a string is one text piece, an array its pieces,
/// anything else (or nothing) no content.
pub open spec fn parsed_content(v: Option<JsonV>) -> Seq<crate::cif::ContentV> {
    match v {
        Some(JsonV::Str(s)) => seq![crate::cif::ContentV::Text { text: s }],
        Some(JsonV::Array(a)) => content_pieces(a),
        _ => Seq::empty(),
    }
}

/// A tool output as text: a string as it is, anything else as serde_json
/// writes it (empty should serde_json refuse it).
pub open spec fn output_text_of(v: JsonV) -> Seq<char> {
    match v {
        JsonV::Str(s) => s,
        _ => match json_serialized(v) {
            Some(t) => t,
            None => Seq::empty(),
        },
    }
}

/// The message an input item stands for, if any.
pub open spec fn input_message(item: JsonV) -> Option<crate::cif::MessageV> {
    let ty = str_member(item, "type"@, "message"@);
    if ty == "message"@ {
        let role = str_member(item, "role"@, "user"@);
        let content = parsed_content(jget(item, "content"@));
        if role == "assistant"@ {
            Some(crate::cif::MessageV::Assistant { content, tool_calls: Seq::empty() })
        } else {
            Some(crate::cif::MessageV::User { content })
        }
    } else if ty == "function_call"@ {
        Some(
            crate::cif::MessageV::Assistant {
                content: Seq::empty(),
                tool_calls: seq![
                    ToolCallV {
                        id: str_member(item, "call_id"@, Seq::empty()),
                        name: str_member(item, "name"@, Seq::empty()),
                        arguments: str_member(item, "arguments"@, "{}"@),
                    },
                ],
            },
        )
    } else if ty == "function_call_output"@ {
        Some(
            crate::cif::MessageV::Tool {
                tool_call_id: str_member(item, "call_id"@, Seq::empty()),
                content: match jget(item, "output"@) {
                    Some(o) => output_text_of(o),
                    None => Seq::empty(),
                },
            },
        )
    } else if ty == "reasoning"@ {
        Some(
            crate::cif::MessageV::Reasoning {
                content: str_member(item, "content"@, Seq::empty()),
                summary: jget_str(item, "summary"@),
            },
        )
    } else {
        None
    }
}

/// Law: a `message` input item (or an item without a type) becomes a
/// message carrying its content: an `assistant` message when its role is
/// `assistant`, and a user message for any other role or none.
pub proof fn lemma_message_item_role(item: JsonV)
    requires
        jget_str(item, "type"@) is None || jget_str(item, "type"@) == Some("message"@),
    ensures
        jget_str(item, "role"@) == Some("assistant"@) ==> input_message(item) == Some(
            crate::cif::MessageV::Assistant { content: parsed_content(jget(item, "content"@)), tool_calls: Seq::empty() },
        ),
        jget_str(item, "role"@) != Some("assistant"@) ==> input_message(item) == Some(
            crate::cif::MessageV::User { content: parsed_content(jget(item, "content"@)) },
        ),
{
    reveal_strlit("user");
    reveal_strlit("assistant");
    assert("user"@ != "assistant"@) by {
        assert("user"@.len() != "assistant"@.len());
    }
}

/// The messages of the input items, in order.
pub open spec fn input_messages(items: Seq<JsonV>) -> Seq<crate::cif::MessageV>
    decreases items.len(),
{
    if items.len() == 0 {
        Seq::empty()
    } else {
        input_messages(items.drop_last()) + match input_message(items.last()) {
            Some(m) => seq![m],
            None => Seq::empty(),
        }
    }
}

/// The tool definition a Responses tool stands for, if it has a string
/// name; parameters default to `{}`.
pub open spec fn request_tool(t: JsonV) -> Option<crate::cif::ToolV> {
    match jget_str(t, "name"@) {
        Some(n) => Some(
            crate::cif::ToolV {
                name: n,
                description: jget_str(t, "description"@),
                parameters: match jget(t, "parameters"@) {
                    Some(p) => p,
                    None => JsonV::Object(Seq::empty()),
                },
            },
        ),
        None => None,
    }
}

/// The tool definitions of the `tools` array, in order.
pub open spec fn request_tools(ts: Seq<JsonV>) -> Seq<crate::cif::ToolV>
    decreases ts.len(),
{
    if ts.len() == 0 {
        Seq::empty()
    } else {
        request_tools(ts.drop_last()) + match request_tool(ts.last()) {
            Some(t) => seq![t],
            None => Seq::empty(),
        }
    }
}

/// `max_output_tokens` read as a `u64` and cut to 32 bits.
pub open spec fn max_tokens_of(v: JsonV) -> Option<u32> {
    match crate::json::jint(jget(v, "max_output_tokens"@)) {
        Some(n) => if 0 <= n <= u64::MAX {
            Some((n % 0x1_0000_0000) as u32)
        } else {
            None
        },
        None => None,
    }
}

/// A JSON number, if `o` holds one.
pub open spec fn number_of(o: Option<JsonV>) -> Option<JsonV> {
    match o {
        Some(JsonV::Int(n)) => Some(JsonV::Int(n)),
        Some(JsonV::Decimal(d)) => Some(JsonV::Decimal(d)),
        _ => None,
    }
}

/// The view of an optional JSON value.
pub open spec fn opt_json_view(o: Option<Json>) -> Option<JsonV> {
    match o {
        Some(j) => Some(jv(j)),
        None => None,
    }
}

} // verus!

verus! {

fn member_string_or(v: &Json, key: &str, d: &str) -> (r: String)
    ensures
        r@ == str_member(jv(*v), key@, d@),
{
    match crate::json::get_str(v, key) {
        Some(t) => t.clone(),
        None => d.to_string(),
    }
}

fn member_string_opt(v: &Json, key: &str) -> (r: Option<String>)
    ensures
        opt_string_view(r) == jget_str(jv(*v), key@),
{
    match crate::json::get_str(v, key) {
        Some(t) => Some(t.clone()),
        None => None,
    }
}

fn content_piece_exec(piece: &Json) -> (r: Option<crate::cif::Content>)
    ensures
        match content_piece(jv(*piece)) {
            Some(c) => r matches Some(x) && x@ == c,
            None => r is None,
        },
{
    proof {
        reveal_strlit("input_text");
        reveal_strlit("output_text");
        reveal_strlit("text");
        reveal_strlit("input_image");
        reveal_strlit("image");
        reveal_strlit("image_url");
    }
    let ptype = member_string_or(piece, "type", "");
    proof {
        reveal_strlit("");
        assert(""@ =~= Seq::<char>::empty());
    }
    let p = ptype.as_str();
    if crate::text::str_eq(p, "input_text") || crate::text::str_eq(p, "output_text") || crate::text::str_eq(p, "text") {
        match member_string_opt(piece, "text") {
            Some(t) => Some(crate::cif::Content::Text { text: t }),
            None => None,
        }
    } else if crate::text::str_eq(p, "input_image") || crate::text::str_eq(p, "image") || crate::text::str_eq(p, "image_url") {
        let nested = match piece.get("image_url") {
            Some(iu) => iu.get("url"),
            None => None,
        };
        let u = match nested {
            Some(x) => Some(x),
            None => piece.get("url"),
        };
        let url = match u {
            Some(Json::Str(s)) => Some(s.clone()),
            _ => None,
        };
        assert(opt_string_view(url) == image_url_of(jv(*piece)));
        match url {
            Some(url) => Some(crate::cif::Content::Image { url, mime: member_string_opt(piece, "mime_type") }),
            None => None,
        }
    } else {
        None
    }
}

fn parse_content_exec(value: Option<&Json>) -> (r: Vec<crate::cif::Content>)
    ensures
        crate::cif::contents_view(r@) == parsed_content(crate::json::opt_jv(value)),
{
    let mut out: Vec<crate::cif::Content> = Vec::new();
    match value {
        Some(Json::Str(s)) => {
            out.push(crate::cif::Content::Text { text: s.clone() });
            assert(crate::cif::contents_view(out@) =~= seq![crate::cif::ContentV::Text { text: s@ }]);
        },
        Some(Json::Array(a)) => {
            let ghost items = items_view(a@);
            proof {
                match crate::json::opt_jv(value) {
                    Some(JsonV::Array(x)) => assert(x =~= items),
                    _ => {},
                }
            }
            let mut i: usize = 0;
            while i < a.len()
                invariant
                    i <= a.len(),
                    items == items_view(a@),
                    crate::cif::contents_view(out@) == content_pieces(items.take(i as int)),
                decreases a.len() - i,
            {
                let ghost before = crate::cif::contents_view(out@);
                match content_piece_exec(&a[i]) {
                    Some(c) => {
                        let ghost cv = c@;
                        out.push(c);
                        assert(crate::cif::contents_view(out@) =~= before + seq![cv]);
                    },
                    None => {
                        assert(before + Seq::<crate::cif::ContentV>::empty() =~= before);
                    },
                }
                assert(items.take(i + 1).drop_last() =~= items.take(i as int));
                assert(items.take(i + 1).last() == jv(a@[i as int]));
                i += 1;
            }
            assert(items.take(a.len() as int) =~= items);
        },
        _ => {
            assert(crate::cif::contents_view(out@) =~= Seq::<crate::cif::ContentV>::empty());
        },
    }
    out
}

fn output_text_exec(v: &Json) -> (t: String)
    ensures
        t@ == output_text_of(jv(*v)),
{
    match v {
        Json::Str(s) => s.clone(),
        _ => match serialize_json(v) {
            Some(t) => t,
            None => String::new(),
        },
    }
}

fn input_item_exec(item: &Json) -> (r: Option<crate::cif::Message>)
    ensures
        match input_message(jv(*item)) {
            Some(m) => r matches Some(x) && x@ == m,
            None => r is None,
        },
{
    proof {
        reveal_strlit("message");
        reveal_strlit("function_call");
        reveal_strlit("function_call_output");
        reveal_strlit("reasoning");
        reveal_strlit("assistant");
        reveal_strlit("user");
        reveal_strlit("");
        reveal_strlit("{}");
        assert(""@ =~= Seq::<char>::empty());
    }
    let ty = member_string_or(item, "type", "message");
    let t = ty.as_str();
    if crate::text::str_eq(t, "message") {
        let role = member_string_or(item, "role", "user");
        let content = parse_content_exec(item.get("content"));
        if crate::text::str_eq(role.as_str(), "assistant") {
            let r = crate::cif::Message::Assistant { content, tool_calls: Vec::new() };
            assert(r@ matches crate::cif::MessageV::Assistant { tool_calls, .. } && tool_calls =~= Seq::<ToolCallV>::empty());
            Some(r)
        } else {
            Some(crate::cif::Message::User { content })
        }
    } else if crate::text::str_eq(t, "function_call") {
        let tc = ToolCall {
            id: member_string_or(item, "call_id", ""),
            name: member_string_or(item, "name", ""),
            arguments: member_string_or(item, "arguments", "{}"),
        };
        let ghost tv = tc@;
        let mut calls: Vec<ToolCall> = Vec::new();
        calls.push(tc);
        let r = crate::cif::Message::Assistant { content: Vec::new(), tool_calls: calls };
        assert(tool_calls_view(calls@) =~= seq![tv]);
        assert(crate::cif::contents_view(Seq::<crate::cif::Content>::empty()) =~= Seq::<crate::cif::ContentV>::empty());
        Some(r)
    } else if crate::text::str_eq(t, "function_call_output") {
        let id = member_string_or(item, "call_id", "");
        let content = match item.get("output") {
            Some(o) => output_text_exec(o),
            None => String::new(),
        };
        Some(crate::cif::Message::Tool { tool_call_id: id, content })
    } else if crate::text::str_eq(t, "reasoning") {
        Some(crate::cif::Message::Reasoning {
            content: member_string_or(item, "content", ""),
            summary: member_string_opt(item, "summary"),
        })
    } else {
        None
    }
}

fn request_tool_exec(t: &Json) -> (r: Option<crate::cif::Tool>)
    ensures
        match request_tool(jv(*t)) {
            Some(tv) => r matches Some(x) && x.name@ == tv.name && opt_string_view(x.description) == tv.description
                && jv(x.parameters) == tv.parameters,
            None => r is None,
        },
{
    match crate::json::get_str(t, "name") {
        Some(n) => {
            let parameters = match t.get("parameters") {
                Some(p) => p.duplicate(),
                None => {
                    let e = object(Vec::new());
                    assert(members_view(Seq::<(String, Json)>::empty()) =~= Seq::<(Seq<char>, JsonV)>::empty());
                    e
                },
            };
            Some(crate::cif::Tool { name: n.clone(), description: member_string_opt(t, "description"), parameters })
        },
        None => None,
    }
}

} // verus!

verus! {

/// The system text of a request: its `instructions`, when a non-empty
/// string.
pub open spec fn instructions_of(v: JsonV) -> Option<Seq<char>> {
    match jget_str(v, "instructions"@) {
        Some(s) => if s.len() > 0 {
            Some(s)
        } else {
            None
        },
        None => None,
    }
}

/// The `tools` array of a request, or none.
pub open spec fn tools_array(v: JsonV) -> Seq<JsonV> {
    match crate::json::jarr(jget(v, "tools"@)) {
        Some(a) => a,
        None => Seq::empty(),
    }
}

/// Parse a Responses-API request body: the `model` (required, a string),
/// the `instructions` as system text when non-empty, the `input` items
/// (required, an array) as messages, the named `tools`, the
/// `temperature` when a number, `max_output_tokens`, and `stream`
/// (default true).
pub fn parse_request(body: &Json) -> (r: Result<crate::cif::Request, RequestError>)
    ensures
        ({
            let v = jv(*body);
            match jget_str(v, "model"@) {
                None => r == Err::<crate::cif::Request, RequestError>(RequestError::MissingModel),
                Some(model) => match crate::json::jarr(jget(v, "input"@)) {
                    None => r == Err::<crate::cif::Request, RequestError>(RequestError::MissingInput),
                    Some(items) => r matches Ok(req) && req.model@ == model && opt_string_view(req.system)
                        == instructions_of(v) && crate::cif::messages_view(req.messages@) == input_messages(items)
                        && crate::cif::tools_view(req.tools@) == request_tools(tools_array(v)) && opt_json_view(
                        req.temperature,
                    ) == number_of(jget(v, "temperature"@)) && req.max_output_tokens == max_tokens_of(v)
                        && req.stream == match crate::json::jget_bool(v, "stream"@) {
                        Some(b) => b,
                        None => true,
                    },
                },
            }
        }),
{
    let ghost v = jv(*body);
    let model = match crate::json::get_str(body, "model") {
        Some(m) => m.clone(),
        None => {
            return Err(RequestError::MissingModel);
        },
    };
    let input = match body.get("input") {
        Some(Json::Array(a)) => a,
        _ => {
            assert(crate::json::jarr(jget(v, "input"@)) is None) by {
                match jget(v, "input"@) {
                    Some(JsonV::Array(x)) => {
                        assert(false);
                    },
                    _ => {},
                }
            }
            return Err(RequestError::MissingInput);
        },
    };
    let ghost items = items_view(input@);
    assert(crate::json::jarr(jget(v, "input"@)) == Some(items)) by {
        match jget(v, "input"@) {
            Some(JsonV::Array(x)) => assert(x =~= items),
            _ => {},
        }
    }
    let system = match crate::json::get_str(body, "instructions") {
        Some(s) => if !s.as_str().is_empty() { Some(s.clone()) } else { None },
        None => None,
    };
    let mut messages: Vec<crate::cif::Message> = Vec::new();
    let mut i: usize = 0;
    while i < input.len()
        invariant
            i <= input.len(),
            items == items_view(input@),
            crate::cif::messages_view(messages@) == input_messages(items.take(i as int)),
        decreases input.len() - i,
    {
        let ghost before = crate::cif::messages_view(messages@);
        match input_item_exec(&input[i]) {
            Some(m) => {
                let ghost mv = m@;
                messages.push(m);
                assert(crate::cif::messages_view(messages@) =~= before + seq![mv]);
            },
            None => {
                assert(before + Seq::<crate::cif::MessageV>::empty() =~= before);
            },
        }
        assert(items.take(i + 1).drop_last() =~= items.take(i as int));
        assert(items.take(i + 1).last() == jv(input@[i as int]));
        i += 1;
    }
    assert(items.take(input.len() as int) =~= items);
    let mut tools: Vec<crate::cif::Tool> = Vec::new();
    match body.get("tools") {
        Some(Json::Array(ts)) => {
            let ghost tsv = items_view(ts@);
            assert(tools_array(v) == tsv) by {
                match jget(v, "tools"@) {
                    Some(JsonV::Array(x)) => assert(x =~= tsv),
                    _ => {},
                }
            }
            let mut k: usize = 0;
            while k < ts.len()
                invariant
                    k <= ts.len(),
                    tsv == items_view(ts@),
                    crate::cif::tools_view(tools@) == request_tools(tsv.take(k as int)),
                decreases ts.len() - k,
            {
                let ghost before = crate::cif::tools_view(tools@);
                match request_tool_exec(&ts[k]) {
                    Some(t) => {
                        tools.push(t);
                        assert(crate::cif::tools_view(tools@) =~= before + seq![request_tool(jv(ts@[k as int])).unwrap()]);
                    },
                    None => {
                        assert(before + Seq::<crate::cif::ToolV>::empty() =~= before);
                    },
                }
                assert(tsv.take(k + 1).drop_last() =~= tsv.take(k as int));
                assert(tsv.take(k + 1).last() == jv(ts@[k as int]));
                k += 1;
            }
            assert(tsv.take(ts.len() as int) =~= tsv);
        },
        _ => {
            assert(tools_array(v) =~= Seq::<JsonV>::empty()) by {
                match jget(v, "tools"@) {
                    Some(JsonV::Array(x)) => {
                        assert(false);
                    },
                    _ => {},
                }
            }
            assert(crate::cif::tools_view(tools@) =~= Seq::<crate::cif::ToolV>::empty());
        },
    }
    let temperature = match body.get("temperature") {
        Some(Json::Int(n)) => Some(Json::Int(*n)),
        Some(Json::Decimal(d)) => Some(Json::Decimal(d.clone())),
        _ => None,
    };
    let max_output_tokens = match body.get("max_output_tokens") {
        Some(Json::Int(n)) => {
            if 0 <= *n && *n <= 0xffff_ffff_ffff_ffff {
                Some((*n % 0x1_0000_0000) as u32)
            } else {
                None
            }
        },
        _ => None,
    };
    let stream = match crate::json::get_bool(body, "stream") {
        Some(b) => b,
        None => true,
    };
    Ok(crate::cif::Request { model, system, messages, tools, temperature, max_output_tokens, stream })
}

} // verus!
