//! Anthropic Messages API side of the translator: the request body, and
//! the stream of server-sent events read back into stream events.
//!
//! The Messages API accepts only strictly alternating user and assistant
//! turns, so turns of the same role that follow each other (one per
//! parallel tool call, one per tool result) are merged into one.

use vstd::prelude::*;

use crate::cif::{
    contents_view, messages_view, opt_string_view, tool_calls_view, tools_view, Content, ContentV, Message,
    MessageV, Request, Tool, ToolCall, ToolCallV, ToolV,
};
use crate::json::{array, items_view, jv, members_view, object, pairs2, pairs3, pairs4, push_item, push_member, str_json, Json, JsonV};
use crate::json_serde::{json_parsed, parse_json};

verus! {

/// A JSON string.
pub open spec fn js(t: Seq<char>) -> JsonV {
    JsonV::Str(t)
}

/// A `text` block.
pub open spec fn text_block(text: Seq<char>) -> JsonV {
    JsonV::Object(seq![("type"@, js("text"@)), ("text"@, js(text))])
}

/// The block of a user content piece: text as a `text` block, an image as
/// an `image` block with a `url` source (media type `image/jpeg` when none
/// is given).
pub open spec fn user_block(c: ContentV) -> JsonV {
    match c {
        ContentV::Text { text } => text_block(text),
        ContentV::Image { url, mime } => JsonV::Object(
            seq![
                ("type"@, js("image"@)),
                (
                    "source"@,
                    JsonV::Object(
                        seq![
                            ("type"@, js("url"@)),
                            ("media_type"@, js(mime_or_jpeg(mime))),
                            ("url"@, js(url)),
                        ],
                    ),
                ),
            ],
        ),
    }
}

/// The media type given, or `image/jpeg`.
pub open spec fn mime_or_jpeg(m: Option<Seq<char>>) -> Seq<char> {
    match m {
        Some(t) => t,
        None => "image/jpeg"@,
    }
}

/// The blocks of assistant content: non-empty text only.
pub open spec fn assistant_blocks(cs: Seq<ContentV>) -> Seq<JsonV>
    decreases cs.len(),
{
    if cs.len() == 0 {
        Seq::empty()
    } else {
        assistant_blocks(cs.drop_last()) + match cs.last() {
            ContentV::Text { text } => if text.len() > 0 {
                seq![text_block(text)]
            } else {
                Seq::empty()
            },
            ContentV::Image { .. } => Seq::empty(),
        }
    }
}

/// The `input` of a tool call: its arguments read as JSON, or `{}` when
/// they are not JSON.
pub open spec fn tool_input(arguments: Seq<char>) -> JsonV {
    match json_parsed(arguments) {
        Some(v) => v,
        None => JsonV::Object(Seq::empty()),
    }
}

/// A `tool_use` block.
pub open spec fn tool_use_block(tc: ToolCallV) -> JsonV {
    JsonV::Object(
        seq![
            ("type"@, js("tool_use"@)),
            ("id"@, js(tc.id)),
            ("name"@, js(tc.name)),
            ("input"@, tool_input(tc.arguments)),
        ],
    )
}

/// The role and blocks one message stages: user content as a user turn;
/// assistant text and tool calls as an assistant turn; a tool result as a
/// user turn with a `tool_result` block; reasoning as an assistant turn
/// with a `thinking` block.
pub open spec fn staged_turn(m: MessageV) -> (Seq<char>, Seq<JsonV>) {
    match m {
        MessageV::User { content } => ("user"@, content.map_values(|c: ContentV| user_block(c))),
        MessageV::Assistant { content, tool_calls } => (
            "assistant"@,
            assistant_blocks(content) + tool_calls.map_values(|tc: ToolCallV| tool_use_block(tc)),
        ),
        MessageV::Tool { tool_call_id, content } => (
            "user"@,
            seq![
                JsonV::Object(
                    seq![
                        ("type"@, js("tool_result"@)),
                        ("tool_use_id"@, js(tool_call_id)),
                        ("content"@, js(content)),
                    ],
                ),
            ],
        ),
        MessageV::Reasoning { content, .. } => (
            "assistant"@,
            seq![JsonV::Object(seq![("type"@, js("thinking"@)), ("thinking"@, js(content))])],
        ),
    }
}

/// Merge staged turns: a turn without blocks is dropped; a turn of the
/// same role as the turn before it is appended to that turn.
pub open spec fn merge_turns(s: Seq<(Seq<char>, Seq<JsonV>)>) -> Seq<(Seq<char>, Seq<JsonV>)>
    decreases s.len(),
{
    if s.len() == 0 {
        Seq::empty()
    } else {
        let m = merge_turns(s.drop_last());
        let t = s.last();
        if t.1.len() == 0 {
            m
        } else if m.len() > 0 && m.last().0 == t.0 {
            m.update(m.len() - 1, (t.0, m.last().1 + t.1))
        } else {
            m.push(t)
        }
    }
}

/// All the blocks of a list of turns, in order.
pub open spec fn all_blocks(s: Seq<(Seq<char>, Seq<JsonV>)>) -> Seq<JsonV>
    decreases s.len(),
{
    if s.len() == 0 {
        Seq::empty()
    } else {
        all_blocks(s.drop_last()) + s.last().1
    }
}

/// Law: merging keeps every block, in order; leaves no turn without
/// blocks; and leaves no two turns of the same role next to each other.
pub proof fn lemma_merge_alternates_and_keeps_blocks(s: Seq<(Seq<char>, Seq<JsonV>)>)
    ensures
        all_blocks(merge_turns(s)) == all_blocks(s),
        forall|i: int| 0 <= i < merge_turns(s).len() ==> (#[trigger] merge_turns(s)[i]).1.len() > 0,
        forall|i: int| 0 <= i < merge_turns(s).len() - 1 ==> (#[trigger] merge_turns(s)[i]).0 != merge_turns(s)[i + 1].0,
    decreases s.len(),
{
    if s.len() > 0 {
        let init = s.drop_last();
        lemma_merge_alternates_and_keeps_blocks(init);
        let m = merge_turns(init);
        let t = s.last();
        if t.1.len() == 0 {
            assert(all_blocks(s) =~= all_blocks(init));
        } else if m.len() > 0 && m.last().0 == t.0 {
            let n = m.update(m.len() - 1, (t.0, m.last().1 + t.1));
            assert(n.drop_last() =~= m.drop_last());
            assert(m.drop_last().push(m.last()) =~= m);
            assert(all_blocks(m) == all_blocks(m.drop_last()) + m.last().1);
            assert(all_blocks(n) =~= all_blocks(m) + t.1);
            assert forall|i: int| 0 <= i < n.len() - 1 implies (#[trigger] n[i]).0 != n[i + 1].0 by {
                assert(n[i] == m[i]);
                if i + 1 < n.len() - 1 {
                    assert(n[i + 1] == m[i + 1]);
                }
            }
        } else {
            let n = m.push(t);
            assert(n.drop_last() =~= m);
            assert forall|i: int| 0 <= i < n.len() - 1 implies (#[trigger] n[i]).0 != n[i + 1].0 by {
                assert(n[i] == m[i]);
                if i + 1 < n.len() - 1 {
                    assert(n[i + 1] == m[i + 1]);
                }
            }
        }
    }
}

/// A merged turn as a message.
pub open spec fn turn_json(t: (Seq<char>, Seq<JsonV>)) -> JsonV {
    JsonV::Object(seq![("role"@, js(t.0)), ("content"@, JsonV::Array(t.1))])
}

/// A description as JSON: the string, or `null`.
pub open spec fn desc_json(o: Option<Seq<char>>) -> JsonV {
    match o {
        Some(d) => js(d),
        None => JsonV::Null,
    }
}

/// The `max_tokens` of a request: the one given, or 4096.
pub open spec fn max_tokens_of(o: Option<u32>) -> int {
    match o {
        Some(n) => n as int,
        None => 4096,
    }
}

/// A tool definition with its `input_schema` (not `parameters`).
pub open spec fn anthropic_tool(t: ToolV) -> JsonV {
    JsonV::Object(
        seq![
            ("name"@, js(t.name)),
            ("description"@, desc_json(t.description)),
            ("input_schema"@, t.parameters),
        ],
    )
}

/// The Messages API request body for `req`: `model`, the merged `messages`,
/// `max_tokens` (4096 when none is given; the API requires one), `stream`,
/// then `system` when given, `tools` when any, and `temperature` when given.
pub open spec fn anthropic_body(req: Request) -> JsonV {
    JsonV::Object(
        seq![
            ("model"@, js(req.model@)),
            (
                "messages"@,
                JsonV::Array(
                    merge_turns(messages_view(req.messages@).map_values(|m: MessageV| staged_turn(m))).map_values(
                        |t: (Seq<char>, Seq<JsonV>)| turn_json(t),
                    ),
                ),
            ),
            ("max_tokens"@, JsonV::Int(max_tokens_of(req.max_output_tokens))),
            ("stream"@, JsonV::Bool(req.stream)),
        ] + match req.system {
            Some(s) => seq![("system"@, js(s@))],
            None => Seq::empty(),
        } + if req.tools@.len() > 0 {
            seq![("tools"@, JsonV::Array(tools_view(req.tools@).map_values(|t: ToolV| anthropic_tool(t))))]
        } else {
            Seq::empty()
        } + match req.temperature {
            Some(t) => seq![("temperature"@, jv(t))],
            None => Seq::empty(),
        },
    )
}

} // verus!

verus! {

fn user_block_exec(c: &Content) -> (j: Json)
    ensures
        jv(j) == user_block(c@),
{
    match c {
        Content::Text { text } => pairs2("type", str_json("text"), "text", str_json(text.as_str())),
        Content::Image { url, mime } => {
            let media = match mime {
                Some(m) => m.clone(),
                None => "image/jpeg".to_string(),
            };
            let source = pairs3("type", str_json("url"), "media_type", str_json(media.as_str()), "url", str_json(url.as_str()));
            pairs2("type", str_json("image"), "source", source)
        },
    }
}

fn tool_use_exec(tc: &ToolCall) -> (j: Json)
    ensures
        jv(j) == tool_use_block(tc@),
{
    let input = match parse_json(tc.arguments.as_str()) {
        Some(v) => v,
        None => {
            let e = object(Vec::new());
            assert(members_view(Seq::<(String, Json)>::empty()) =~= Seq::<(Seq<char>, JsonV)>::empty());
            e
        },
    };
    pairs4(
        "type",
        str_json("tool_use"),
        "id",
        str_json(tc.id.as_str()),
        "name",
        str_json(tc.name.as_str()),
        "input",
        input,
    )
}

/// The staged turn of one message.
fn staged_exec(m: &Message) -> (r: (&'static str, Vec<Json>))
    ensures
        (r.0@, items_view(r.1@)) == staged_turn(m@),
{
    match m {
        Message::User { content } => {
            let mut blocks: Vec<Json> = Vec::new();
            let mut i: usize = 0;
            while i < content.len()
                invariant
                    i <= content.len(),
                    items_view(blocks@) == contents_view(content@).take(i as int).map_values(
                        |c: ContentV| user_block(c),
                    ),
                decreases content.len() - i,
            {
                push_item(&mut blocks, user_block_exec(&content[i]));
                assert(contents_view(content@).take(i + 1) =~= contents_view(content@).take(i as int).push(
                    content@[i as int]@,
                ));
                assert(items_view(blocks@) =~= contents_view(content@).take(i + 1).map_values(
                    |c: ContentV| user_block(c),
                ));
                i += 1;
            }
            assert(contents_view(content@).take(content.len() as int) =~= contents_view(content@));
            ("user", blocks)
        },
        Message::Assistant { content, tool_calls } => {
            let mut blocks: Vec<Json> = Vec::new();
            let ghost cv = contents_view(content@);
            let mut i: usize = 0;
            while i < content.len()
                invariant
                    i <= content.len(),
                    cv == contents_view(content@),
                    items_view(blocks@) == assistant_blocks(cv.take(i as int)),
                decreases content.len() - i,
            {
                assert(cv.take(i + 1).drop_last() =~= cv.take(i as int));
                assert(cv.take(i + 1).last() == content@[i as int]@);
                match &content[i] {
                    Content::Text { text } => {
                        if !text.as_str().is_empty() {
                            let ghost before = items_view(blocks@);
                            push_item(&mut blocks, pairs2("type", str_json("text"), "text", str_json(text.as_str())));
                            assert(items_view(blocks@) =~= before + seq![text_block(text@)]);
                        } else {
                            assert(items_view(blocks@) =~= items_view(blocks@) + Seq::<JsonV>::empty());
                        }
                    },
                    Content::Image { .. } => {
                        assert(items_view(blocks@) =~= items_view(blocks@) + Seq::<JsonV>::empty());
                    },
                }
                i += 1;
            }
            assert(cv.take(content.len() as int) =~= cv);
            let ghost head = items_view(blocks@);
            let ghost tcs = tool_calls_view(tool_calls@);
            let mut k: usize = 0;
            while k < tool_calls.len()
                invariant
                    k <= tool_calls.len(),
                    tcs == tool_calls_view(tool_calls@),
                    items_view(blocks@) == head + tcs.take(k as int).map_values(|tc: ToolCallV| tool_use_block(tc)),
                decreases tool_calls.len() - k,
            {
                push_item(&mut blocks, tool_use_exec(&tool_calls[k]));
                assert(tcs.take(k + 1) =~= tcs.take(k as int).push(tool_calls@[k as int]@));
                assert(items_view(blocks@) =~= head + tcs.take(k + 1).map_values(|tc: ToolCallV| tool_use_block(tc)));
                k += 1;
            }
            assert(tcs.take(tool_calls.len() as int) =~= tcs);
            ("assistant", blocks)
        },
        Message::Tool { tool_call_id, content } => {
            let b = pairs3(
                "type",
                str_json("tool_result"),
                "tool_use_id",
                str_json(tool_call_id.as_str()),
                "content",
                str_json(content.as_str()),
            );
            let mut blocks: Vec<Json> = Vec::new();
            push_item(&mut blocks, b);
            ("user", blocks)
        },
        Message::Reasoning { content, .. } => {
            let b = pairs2("type", str_json("thinking"), "thinking", str_json(content.as_str()));
            let mut blocks: Vec<Json> = Vec::new();
            push_item(&mut blocks, b);
            ("assistant", blocks)
        },
    }
}

/// The views of a list of staged turns.
pub open spec fn turns_view(v: Seq<(&str, Vec<Json>)>) -> Seq<(Seq<char>, Seq<JsonV>)> {
    v.map_values(|t: (&str, Vec<Json>)| (t.0@, items_view(t.1@)))
}

} // verus!

verus! {

fn append_items(a: &mut Vec<Json>, b: Vec<Json>)
    ensures
        items_view(final(a)@) == items_view(old(a)@) + items_view(b@),
{
    let mut b = b;
    let ghost bv = items_view(b@);
    a.append(&mut b);
    assert(items_view(a@) =~= items_view(old(a)@) + bv);
}

fn turn_exec(role: &str, blocks: Vec<Json>) -> (j: Json)
    ensures
        jv(j) == turn_json((role@, items_view(blocks@))),
{
    pairs2("role", str_json(role), "content", array(blocks))
}

fn tool_exec(t: &Tool) -> (j: Json)
    ensures
        jv(j) == anthropic_tool(ToolV { name: t.name@, description: opt_string_view(t.description), parameters: jv(t.parameters) }),
{
    let d = match &t.description {
        Some(d) => str_json(d.as_str()),
        None => Json::Null,
    };
    pairs3("name", str_json(t.name.as_str()), "description", d, "input_schema", t.parameters.duplicate())
}

/// Encode `req` as a Messages API request body (see [`anthropic_body`]).
pub fn encode_request(req: &Request) -> (j: Json)
    ensures
        jv(j) == anthropic_body(*req),
{
    // One staged turn per message, merged as they come.
    let ghost staged = messages_view(req.messages@).map_values(|m: MessageV| staged_turn(m));
    let mut merged: Vec<(&'static str, Vec<Json>)> = Vec::new();
    let mut i: usize = 0;
    while i < req.messages.len()
        invariant
            i <= req.messages.len(),
            staged == messages_view(req.messages@).map_values(|m: MessageV| staged_turn(m)),
            turns_view(merged@) == merge_turns(staged.take(i as int)),
        decreases req.messages.len() - i,
    {
        let (role, blocks) = staged_exec(&req.messages[i]);
        let ghost t = (role@, items_view(blocks@));
        let ghost m = turns_view(merged@);
        proof {
            assert(staged.take(i + 1).drop_last() =~= staged.take(i as int));
            assert(staged.take(i + 1).last() == t);
        }
        if blocks.len() == 0 {
        } else if merged.len() > 0 && crate::text::str_eq(merged[merged.len() - 1].0, role) {
            let last = merged.pop().unwrap();
            let (r, mut b) = last;
            append_items(&mut b, blocks);
            merged.push((r, b));
            assert(turns_view(merged@) =~= m.update(m.len() - 1, (t.0, m.last().1 + t.1)));
        } else {
            merged.push((role, blocks));
            assert(turns_view(merged@) =~= m.push(t));
        }
        i += 1;
    }
    assert(staged.take(req.messages.len() as int) =~= staged);
    let ghost mv = turns_view(merged@);
    // Reverse the turns so that popping yields them front to back.
    let mut rev: Vec<(&'static str, Vec<Json>)> = Vec::new();
    while merged.len() > 0
        invariant
            turns_view(merged@) + turns_view(rev@).reverse() == mv,
        decreases merged.len(),
    {
        let ghost before_m = turns_view(merged@);
        let ghost before_r = turns_view(rev@);
        let t = merged.pop().unwrap();
        let ghost tv = (t.0@, items_view(t.1@));
        rev.push(t);
        assert(turns_view(rev@) =~= before_r.push(tv));
        assert(turns_view(merged@) =~= before_m.drop_last());
        assert(before_r.push(tv).reverse() =~= seq![tv] + before_r.reverse());
        assert(turns_view(merged@) + turns_view(rev@).reverse() =~= before_m + before_r.reverse());
    }
    assert(turns_view(merged@) =~= Seq::<(Seq<char>, Seq<JsonV>)>::empty());
    let mut msgs: Vec<Json> = Vec::new();
    let ghost total = mv.len();
    while rev.len() > 0
        invariant
            turns_view(rev@).reverse() == mv.subrange(total - rev@.len(), total as int),
            total == mv.len(),
            rev@.len() <= total,
            items_view(msgs@) == mv.take(total - rev@.len()).map_values(|t: (Seq<char>, Seq<JsonV>)| turn_json(t)),
        decreases rev.len(),
    {
        let ghost before_r = turns_view(rev@);
        let ghost done = total - rev@.len();
        let t = rev.pop().unwrap();
        let ghost tv = (t.0@, items_view(t.1@));
        assert(before_r =~= turns_view(rev@).push(tv));
        assert(before_r.reverse() =~= seq![tv] + turns_view(rev@).reverse());
        assert(mv.subrange(done, total as int)[0] == mv[done]);
        assert(mv[done] == tv);
        let (r, b) = t;
        push_item(&mut msgs, turn_exec(r, b));
        assert(mv.take(done + 1) =~= mv.take(done).push(tv));
        assert(items_view(msgs@) =~= mv.take(done + 1).map_values(|t: (Seq<char>, Seq<JsonV>)| turn_json(t)));
        assert(mv.subrange(done + 1, total as int) =~= mv.subrange(done, total as int).drop_first());
        assert(turns_view(rev@).reverse() =~= mv.subrange(done + 1, total as int));
    }
    assert(mv.take(total as int) =~= mv);
    let ghost msgs_v = items_view(msgs@);
    let mut out: Vec<(String, Json)> = Vec::new();
    push_member(&mut out, "model", str_json(req.model.as_str()));
    push_member(&mut out, "messages", array(msgs));
    let max = match req.max_output_tokens {
        Some(n) => n,
        None => 4096,
    };
    push_member(&mut out, "max_tokens", Json::Int(max as i128));
    push_member(&mut out, "stream", Json::Bool(req.stream));
    let ghost head = members_view(out@);
    match &req.system {
        Some(s) => push_member(&mut out, "system", str_json(s.as_str())),
        None => {},
    }
    let ghost with_system = members_view(out@);
    assert(with_system =~= head + match req.system {
        Some(s) => seq![("system"@, js(s@))],
        None => Seq::<(Seq<char>, JsonV)>::empty(),
    });
    if req.tools.len() > 0 {
        let ghost tv = tools_view(req.tools@);
        let mut tools: Vec<Json> = Vec::new();
        let mut q: usize = 0;
        while q < req.tools.len()
            invariant
                q <= req.tools.len(),
                tv == tools_view(req.tools@),
                items_view(tools@) == tv.take(q as int).map_values(|t: ToolV| anthropic_tool(t)),
            decreases req.tools.len() - q,
        {
            push_item(&mut tools, tool_exec(&req.tools[q]));
            assert(tv.take(q + 1) =~= tv.take(q as int).push(tv[q as int]));
            assert(items_view(tools@) =~= tv.take(q + 1).map_values(|t: ToolV| anthropic_tool(t)));
            q += 1;
        }
        assert(tv.take(req.tools.len() as int) =~= tv);
        push_member(&mut out, "tools", array(tools));
    }
    let ghost with_tools = members_view(out@);
    assert(with_tools =~= with_system + if req.tools@.len() > 0 {
        seq![("tools"@, JsonV::Array(tools_view(req.tools@).map_values(|t: ToolV| anthropic_tool(t))))]
    } else {
        Seq::<(Seq<char>, JsonV)>::empty()
    });
    match &req.temperature {
        Some(t) => push_member(&mut out, "temperature", t.duplicate()),
        None => {},
    }
    assert(members_view(out@) =~= with_tools + match req.temperature {
        Some(t) => seq![("temperature"@, jv(t))],
        None => Seq::<(Seq<char>, JsonV)>::empty(),
    });
    assert(head =~= seq![
        ("model"@, js(req.model@)),
        ("messages"@, JsonV::Array(msgs_v)),
        ("max_tokens"@, JsonV::Int(max_tokens_of(req.max_output_tokens))),
        ("stream"@, JsonV::Bool(req.stream)),
    ]);
    object(out)
}

} // verus!

verus! {

// ───────────────────────────── parse path ─────────────────────────────

/// Per-content-block accumulator: the stream tells each block's kind only
/// when the block starts.
#[derive(Debug, Clone, Default)]
pub struct BlockState {
    /// `text`, `tool_use` or `thinking`.
    pub kind: String,
    pub text: String,
    pub tool_id: String,
    pub tool_name: String,
    pub tool_args: String,
}

/// The value of a block accumulator.
pub struct BlockStateV {
    pub kind: Seq<char>,
    pub text: Seq<char>,
    pub tool_id: Seq<char>,
    pub tool_name: Seq<char>,
    pub tool_args: Seq<char>,
}

impl View for BlockState {
    type V = BlockStateV;

    open spec fn view(&self) -> BlockStateV {
        BlockStateV {
            kind: self.kind@,
            text: self.text@,
            tool_id: self.tool_id@,
            tool_name: self.tool_name@,
            tool_args: self.tool_args@,
        }
    }
}

/// An empty block accumulator.
pub open spec fn empty_block() -> BlockStateV {
    BlockStateV {
        kind: Seq::empty(),
        text: Seq::empty(),
        tool_id: Seq::empty(),
        tool_name: Seq::empty(),
        tool_args: Seq::empty(),
    }
}

/// Stream state carried across the events of one response.
#[derive(Debug)]
pub struct ChunkState {
    pub response_id: Option<String>,
    pub text: String,
    pub blocks: Vec<BlockState>,
    pub finish_reason: Option<crate::cif::FinishReason>,
}

/// The value of the stream state.
pub struct ChunkStateV {
    pub response_id: Option<Seq<char>>,
    pub text: Seq<char>,
    pub blocks: Seq<BlockStateV>,
    pub finish_reason: Option<crate::cif::FinishReasonV>,
}

impl View for ChunkState {
    type V = ChunkStateV;

    open spec fn view(&self) -> ChunkStateV {
        ChunkStateV {
            response_id: opt_string_view(self.response_id),
            text: self.text@,
            blocks: self.blocks@.map_values(|b: BlockState| b@),
            finish_reason: match self.finish_reason {
                Some(f) => Some(f@),
                None => None,
            },
        }
    }
}

/// The state at the start of a stream.
pub open spec fn fresh_chunk_state() -> ChunkStateV {
    ChunkStateV { response_id: None, text: Seq::empty(), blocks: Seq::empty(), finish_reason: None }
}

impl Default for ChunkState {
    fn default() -> (r: Self)
        ensures
            r@ == fresh_chunk_state(),
    {
        let r = ChunkState { response_id: None, text: String::new(), blocks: Vec::new(), finish_reason: None };
        assert(r@.blocks =~= Seq::<BlockStateV>::empty());
        r
    }
}

/// Why an event payload could not be read.
#[derive(Debug, Clone, PartialEq, Eq)]
pub enum ChunkError {
    /// The payload is not JSON.
    Malformed(String),
    /// The payload has no string `type`.
    MissingType,
}

impl ChunkError {
    /// The human-readable message.
    pub fn message(&self) -> (r: String)
        ensures
            r@ == match *self {
                ChunkError::Malformed(p) => "malformed anthropic SSE payload: "@ + p@,
                ChunkError::MissingType => "anthropic SSE event missing 'type'"@,
            },
    {
        match self {
            ChunkError::Malformed(p) => crate::text::concat_str("malformed anthropic SSE payload: ", p.as_str()),
            ChunkError::MissingType => "anthropic SSE event missing 'type'".to_string(),
        }
    }
}

/// The finish reason of an Anthropic `stop_reason`.
pub open spec fn anthropic_stop_reason(s: Seq<char>) -> crate::cif::FinishReasonV {
    if s == "end_turn"@ || s == "stop_sequence"@ {
        crate::cif::FinishReasonV::Stop
    } else if s == "max_tokens"@ {
        crate::cif::FinishReasonV::Length
    } else if s == "tool_use"@ {
        crate::cif::FinishReasonV::ToolCalls
    } else {
        crate::cif::FinishReasonV::Other(s)
    }
}

/// Map an Anthropic `stop_reason`.
pub fn map_anthropic_stop_reason(s: &str) -> (r: crate::cif::FinishReason)
    ensures
        r@ == anthropic_stop_reason(s@),
{
    proof {
        reveal_strlit("end_turn");
        reveal_strlit("stop_sequence");
        reveal_strlit("max_tokens");
        reveal_strlit("tool_use");
    }
    if crate::text::str_eq(s, "end_turn") || crate::text::str_eq(s, "stop_sequence") {
        crate::cif::FinishReason::Stop
    } else if crate::text::str_eq(s, "max_tokens") {
        crate::cif::FinishReason::Length
    } else if crate::text::str_eq(s, "tool_use") {
        crate::cif::FinishReason::ToolCalls
    } else {
        crate::cif::FinishReason::Other(s.to_string())
    }
}

} // verus!

verus! {

/// Member `k` of the value `o` holds, if any.
pub open spec fn jget_in(o: Option<JsonV>, k: Seq<char>) -> Option<JsonV> {
    match o {
        Some(x) => crate::json::jget(x, k),
        None => None,
    }
}

/// Member `k` of `v`, or `{}`.
pub open spec fn member_or_empty(v: JsonV, k: Seq<char>) -> JsonV {
    match crate::json::jget(v, k) {
        Some(x) => x,
        None => JsonV::Object(Seq::empty()),
    }
}

/// The string `o` holds, or `d`.
pub open spec fn str_or(o: Option<Seq<char>>, d: Seq<char>) -> Seq<char> {
    match o {
        Some(t) => t,
        None => d,
    }
}

/// The block index of an event: its `index` read as a `u64` and cut to 32
/// bits, or 0.
pub open spec fn event_index(v: JsonV) -> u32 {
    match crate::json::jint(crate::json::jget(v, "index"@)) {
        Some(n) => if 0 <= n <= u64::MAX {
            (n % 0x1_0000_0000) as u32
        } else {
            0
        },
        None => 0,
    }
}

/// `blocks` grown with empty accumulators to hold index `idx`.
pub open spec fn grow_blocks(blocks: Seq<BlockStateV>, idx: int) -> Seq<BlockStateV> {
    if blocks.len() > idx {
        blocks
    } else {
        blocks + Seq::new((idx + 1 - blocks.len()) as nat, |i: int| empty_block())
    }
}

/// The tool calls of the `tool_use` blocks, in block order (arguments `{}`
/// when none streamed).
pub open spec fn block_tool_calls(blocks: Seq<BlockStateV>) -> Seq<ToolCallV>
    decreases blocks.len(),
{
    if blocks.len() == 0 {
        Seq::empty()
    } else {
        let b = blocks.last();
        block_tool_calls(blocks.drop_last()) + if b.kind == "tool_use"@ {
            seq![
                ToolCallV {
                    id: b.tool_id,
                    name: b.tool_name,
                    arguments: if b.tool_args.len() == 0 {
                        "{}"@
                    } else {
                        b.tool_args
                    },
                },
            ]
        } else {
            Seq::empty()
        }
    }
}

/// The finish reason recorded, or `Stop`.
pub open spec fn fr_or_stop(o: Option<crate::cif::FinishReasonV>) -> crate::cif::FinishReasonV {
    match o {
        Some(f) => f,
        None => crate::cif::FinishReasonV::Stop,
    }
}

/// `st` with `f` applied to block `i` when it exists.
pub open spec fn update_block(st: ChunkStateV, i: int, b: BlockStateV) -> ChunkStateV {
    ChunkStateV { blocks: st.blocks.update(i, b), ..st }
}

/// What one event of type `ty` does: the stream events it yields and the
/// state after it.
pub open spec fn anthropic_event(v: JsonV, ty: Seq<char>, st: ChunkStateV) -> (
    Seq<crate::cif::StreamEventV>,
    ChunkStateV,
) {
    if ty == "message_start"@ {
        match crate::json::jstr(jget_in(crate::json::jget(v, "message"@), "id"@)) {
            Some(id) => (Seq::empty(), ChunkStateV { response_id: Some(id), ..st }),
            None => (Seq::empty(), st),
        }
    } else if ty == "content_block_start"@ {
        let idx = event_index(v);
        let block = member_or_empty(v, "content_block"@);
        let kind = str_or(crate::json::jget_str(block, "type"@), "text"@);
        let grown = grow_blocks(st.blocks, idx as int);
        let old_b = grown[idx as int];
        if kind == "tool_use"@ {
            let id = str_or(crate::json::jget_str(block, "id"@), Seq::empty());
            let name = str_or(crate::json::jget_str(block, "name"@), Seq::empty());
            (
                seq![
                    crate::cif::StreamEventV::ToolCallDelta {
                        index: idx,
                        id: Some(id),
                        name: Some(name),
                        arguments_delta: None,
                    },
                ],
                ChunkStateV {
                    blocks: grown.update(idx as int, BlockStateV { kind, tool_id: id, tool_name: name, ..old_b }),
                    ..st
                },
            )
        } else {
            (Seq::empty(), ChunkStateV { blocks: grown.update(idx as int, BlockStateV { kind, ..old_b }), ..st })
        }
    } else if ty == "content_block_delta"@ {
        let idx = event_index(v) as int;
        let delta = member_or_empty(v, "delta"@);
        let dty = str_or(crate::json::jget_str(delta, "type"@), Seq::empty());
        if dty == "text_delta"@ {
            match crate::json::jget_str(delta, "text"@) {
                Some(t) => if t.len() > 0 {
                    let st1 = if idx < st.blocks.len() {
                        update_block(st, idx, BlockStateV { text: st.blocks[idx].text + t, ..st.blocks[idx] })
                    } else {
                        st
                    };
                    (seq![crate::cif::StreamEventV::TextDelta { text: t }], ChunkStateV { text: st.text + t, ..st1 })
                } else {
                    (Seq::empty(), st)
                },
                None => (Seq::empty(), st),
            }
        } else if dty == "input_json_delta"@ {
            match crate::json::jget_str(delta, "partial_json"@) {
                Some(p) => (
                    seq![
                        crate::cif::StreamEventV::ToolCallDelta {
                            index: idx as u32,
                            id: None,
                            name: None,
                            arguments_delta: Some(p),
                        },
                    ],
                    if idx < st.blocks.len() {
                        update_block(st, idx, BlockStateV { tool_args: st.blocks[idx].tool_args + p, ..st.blocks[idx] })
                    } else {
                        st
                    },
                ),
                None => (Seq::empty(), st),
            }
        } else if dty == "thinking_delta"@ {
            match crate::json::jget_str(delta, "thinking"@) {
                Some(t) => if t.len() > 0 {
                    (seq![crate::cif::StreamEventV::ReasoningDelta { text: t }], st)
                } else {
                    (Seq::empty(), st)
                },
                None => (Seq::empty(), st),
            }
        } else {
            (Seq::empty(), st)
        }
    } else if ty == "message_delta"@ {
        match crate::json::jstr(jget_in(crate::json::jget(v, "delta"@), "stop_reason"@)) {
            Some(r) => (Seq::empty(), ChunkStateV { finish_reason: Some(anthropic_stop_reason(r)), ..st }),
            None => (Seq::empty(), st),
        }
    } else if ty == "message_stop"@ {
        (
            seq![
                crate::cif::StreamEventV::Completed {
                    text: st.text,
                    tool_calls: block_tool_calls(st.blocks),
                    finish_reason: fr_or_stop(st.finish_reason),
                    response_id: st.response_id,
                },
            ],
            ChunkStateV { text: Seq::empty(), finish_reason: None, ..st },
        )
    } else if ty == "error"@ {
        (
            seq![
                crate::cif::StreamEventV::Error {
                    message: str_or(
                        crate::json::jstr(jget_in(crate::json::jget(v, "error"@), "message"@)),
                        "anthropic stream error"@,
                    ),
                },
            ],
            st,
        )
    } else {
        (Seq::empty(), st)
    }
}

} // verus!

verus! {

/// The views of a list of stream events.
pub open spec fn events_view(v: Seq<crate::cif::StreamEvent>) -> Seq<crate::cif::StreamEventV> {
    v.map_values(|e: crate::cif::StreamEvent| e@)
}

fn empty_block_exec() -> (b: BlockState)
    ensures
        b@ == empty_block(),
{
    BlockState {
        kind: String::new(),
        text: String::new(),
        tool_id: String::new(),
        tool_name: String::new(),
        tool_args: String::new(),
    }
}

fn index_of(v: &Json) -> (i: u32)
    ensures
        i == event_index(jv(*v)),
{
    match v.get("index") {
        Some(Json::Int(n)) => {
            if 0 <= *n && *n <= 0xffff_ffff_ffff_ffff {
                (*n % 0x1_0000_0000) as u32
            } else {
                0
            }
        },
        _ => 0,
    }
}

fn member_string(v: &Json, key: &str) -> (r: Option<String>)
    ensures
        opt_string_view(r) == crate::json::jget_str(jv(*v), key@),
{
    match crate::json::get_str(v, key) {
        Some(t) => Some(t.clone()),
        None => None,
    }
}

fn str_member_or(v: &Json, key: &str, d: &str) -> (r: String)
    ensures
        r@ == str_or(crate::json::jget_str(jv(*v), key@), d@),
{
    match crate::json::get_str(v, key) {
        Some(t) => t.clone(),
        None => d.to_string(),
    }
}

fn nested_str(v: &Json, outer: &str, inner: &str) -> (r: Option<String>)
    ensures
        opt_string_view(r) == crate::json::jstr(jget_in(crate::json::jget(jv(*v), outer@), inner@)),
{
    match v.get(outer) {
        Some(o) => match crate::json::get_str(o, inner) {
            Some(t) => Some(t.clone()),
            None => None,
        },
        None => None,
    }
}

fn grow_blocks_exec(blocks: &mut Vec<BlockState>, idx: u32)
    ensures
        final(blocks)@.map_values(|b: BlockState| b@) == grow_blocks(old(blocks)@.map_values(|b: BlockState| b@), idx as int),
        final(blocks)@.len() > idx,
{
    let ghost start = old(blocks)@.map_values(|b: BlockState| b@);
    while blocks.len() <= idx as usize
        invariant
            start == old(blocks)@.map_values(|b: BlockState| b@),
            blocks@.len() >= start.len(),
            blocks@.len() <= idx + 1 || blocks@.len() == start.len(),
            blocks@.map_values(|b: BlockState| b@) == start + Seq::new(
                (blocks@.len() - start.len()) as nat,
                |i: int| empty_block(),
            ),
        decreases idx + 1 - blocks.len(),
    {
        let ghost before = blocks@.map_values(|b: BlockState| b@);
        blocks.push(empty_block_exec());
        assert(blocks@.map_values(|b: BlockState| b@) =~= before.push(empty_block()));
        assert(blocks@.map_values(|b: BlockState| b@) =~= start + Seq::new(
            (blocks@.len() - start.len()) as nat,
            |i: int| empty_block(),
        ));
    }
    assert(blocks@.map_values(|b: BlockState| b@) =~= grow_blocks(start, idx as int));
}

fn copy_block(b: &BlockState) -> (r: BlockState)
    ensures
        r@ == b@,
{
    BlockState {
        kind: b.kind.clone(),
        text: b.text.clone(),
        tool_id: b.tool_id.clone(),
        tool_name: b.tool_name.clone(),
        tool_args: b.tool_args.clone(),
    }
}

fn set_block(blocks: &mut Vec<BlockState>, i: usize, b: BlockState)
    requires
        i < old(blocks)@.len(),
    ensures
        final(blocks)@.map_values(|x: BlockState| x@) == old(blocks)@.map_values(|x: BlockState| x@).update(i as int, b@),
{
    let ghost bv = b@;
    blocks.set(i, b);
    assert(blocks@.map_values(|x: BlockState| x@) =~= old(blocks)@.map_values(|x: BlockState| x@).update(i as int, bv));
}

fn tool_calls_of_blocks(blocks: &Vec<BlockState>) -> (r: Vec<ToolCall>)
    ensures
        tool_calls_view(r@) == block_tool_calls(blocks@.map_values(|b: BlockState| b@)),
{
    let ghost bv = blocks@.map_values(|b: BlockState| b@);
    let mut calls: Vec<ToolCall> = Vec::new();
    let mut i: usize = 0;
    while i < blocks.len()
        invariant
            i <= blocks.len(),
            bv == blocks@.map_values(|b: BlockState| b@),
            tool_calls_view(calls@) == block_tool_calls(bv.take(i as int)),
        decreases blocks.len() - i,
    {
        let b = &blocks[i];
        assert(bv.take(i + 1).drop_last() =~= bv.take(i as int));
        assert(bv.take(i + 1).last() == b@);
        proof {
            reveal_strlit("tool_use");
            reveal_strlit("{}");
        }
        if crate::text::str_eq(b.kind.as_str(), "tool_use") {
            let args = if b.tool_args.as_str().is_empty() { "{}".to_string() } else { b.tool_args.clone() };
            let ghost before = tool_calls_view(calls@);
            let tc = ToolCall { id: b.tool_id.clone(), name: b.tool_name.clone(), arguments: args };
            calls.push(tc);
            assert(tool_calls_view(calls@) =~= before.push(tc@));
        } else {
            assert(block_tool_calls(bv.take(i + 1)) =~= block_tool_calls(bv.take(i as int)));
        }
        i += 1;
    }
    assert(bv.take(blocks.len() as int) =~= bv);
    calls
}

} // verus!

verus! {

/// Parse one Anthropic SSE event payload into zero or more stream events,
/// updating the stream state (see [`anthropic_event`]). A payload that is
/// not JSON, or has no string `type`, is refused and leaves the state as
/// it was.
pub fn parse_chunk(payload: &str, state: &mut ChunkState) -> (r: Result<Vec<crate::cif::StreamEvent>, ChunkError>)
    ensures
        match json_parsed(payload@) {
            None => (r matches Err(ChunkError::Malformed(p)) && p@ == payload@) && final(state)@ == old(state)@,
            Some(v) => match crate::json::jget_str(v, "type"@) {
                None => r == Err::<Vec<crate::cif::StreamEvent>, ChunkError>(ChunkError::MissingType) && final(state)@
                    == old(state)@,
                Some(ty) => r matches Ok(evs) && events_view(evs@) == anthropic_event(v, ty, old(state)@).0
                    && final(state)@ == anthropic_event(v, ty, old(state)@).1,
            },
        },
{
    let value = match parse_json(payload) {
        Some(v) => v,
        None => {
            return Err(ChunkError::Malformed(payload.to_string()));
        },
    };
    parse_event(&value, state)
}

/// Parse one event of the Messages API stream, already read as JSON, and
/// advance the accumulation state.
pub fn parse_event(value: &Json, state: &mut ChunkState) -> (r: Result<Vec<crate::cif::StreamEvent>, ChunkError>)
    ensures
        match crate::json::jget_str(jv(*value), "type"@) {
            None => r == Err::<Vec<crate::cif::StreamEvent>, ChunkError>(ChunkError::MissingType) && final(state)@
                == old(state)@,
            Some(ty) => r matches Ok(evs) && events_view(evs@) == anthropic_event(jv(*value), ty, old(state)@).0
                && final(state)@ == anthropic_event(jv(*value), ty, old(state)@).1,
        },
{
    let ty = match crate::json::get_str(value, "type") {
        Some(t) => t.clone(),
        None => {
            return Err(ChunkError::MissingType);
        },
    };
    let ghost v = jv(*value);
    let ghost st = state@;
    let ghost spec = anthropic_event(v, ty@, st);
    proof {
        reveal_strlit("message_start");
        reveal_strlit("content_block_start");
        reveal_strlit("content_block_delta");
        reveal_strlit("message_delta");
        reveal_strlit("message_stop");
        reveal_strlit("error");
        reveal_strlit("tool_use");
        reveal_strlit("text_delta");
        reveal_strlit("input_json_delta");
        reveal_strlit("thinking_delta");
        reveal_strlit("text");
        reveal_strlit("");
    }
    let mut events: Vec<crate::cif::StreamEvent> = Vec::new();
    let t = ty.as_str();
    if crate::text::str_eq(t, "message_start") {
        match nested_str(value, "message", "id") {
            Some(id) => {
                state.response_id = Some(id);
            },
            None => {},
        }
        assert(events_view(events@) =~= spec.0);
        assert(state@.blocks =~= spec.1.blocks);
    } else if crate::text::str_eq(t, "content_block_start") {
        let idx = index_of(value);
        let kind;
        let mut tool: Option<(String, String)> = None;
        match value.get("content_block") {
            Some(block) => {
                kind = str_member_or(block, "type", "text");
                if crate::text::str_eq(kind.as_str(), "tool_use") {
                    tool = Some((str_member_or(block, "id", ""), str_member_or(block, "name", "")));
                }
            },
            None => {
                kind = "text".to_string();
                assert(crate::json::jget_str(member_or_empty(v, "content_block"@), "type"@) is None);
            },
        }
        let ghost block_v = member_or_empty(v, "content_block"@);
        assert(kind@ == str_or(crate::json::jget_str(block_v, "type"@), "text"@));
        assert(tool is Some <==> kind@ == "tool_use"@);
        assert(tool matches Some(p) ==> p.0@ == str_or(crate::json::jget_str(block_v, "id"@), Seq::empty()) && p.1@ == str_or(crate::json::jget_str(block_v, "name"@), Seq::empty()));
        grow_blocks_exec(&mut state.blocks, idx);
        let i = idx as usize;
        let ghost grown = state@.blocks;
        let old_b = copy_block(&state.blocks[i]);
        assert(old_b@ == grown[i as int]);
        match tool {
            Some((id, name)) => {
                let nb = BlockState {
                    kind,
                    text: old_b.text,
                    tool_id: id.clone(),
                    tool_name: name.clone(),
                    tool_args: old_b.tool_args,
                };
                set_block(&mut state.blocks, i, nb);
                events.push(crate::cif::StreamEvent::ToolCallDelta {
                    index: idx,
                    id: Some(id),
                    name: Some(name),
                    arguments_delta: None,
                });
            },
            None => {
                let nb = BlockState {
                    kind,
                    text: old_b.text,
                    tool_id: old_b.tool_id,
                    tool_name: old_b.tool_name,
                    tool_args: old_b.tool_args,
                };
                set_block(&mut state.blocks, i, nb);
            },
        }
        assert(events_view(events@) =~= spec.0);
        assert(state@.blocks =~= spec.1.blocks);
    } else if crate::text::str_eq(t, "content_block_delta") {
        let idx = index_of(value);
        let i = idx as usize;
        let (dty, text, partial, thinking) = match value.get("delta") {
            Some(d) => (
                str_member_or(d, "type", ""),
                member_string(d, "text"),
                member_string(d, "partial_json"),
                member_string(d, "thinking"),
            ),
            None => (String::new(), None, None, None),
        };
        assert(dty@ == str_or(crate::json::jget_str(member_or_empty(v, "delta"@), "type"@), Seq::empty()));
        if crate::text::str_eq(dty.as_str(), "text_delta") {
            match text {
                Some(tx) => {
                    if !tx.as_str().is_empty() {
                        if i < state.blocks.len() {
                            let b = copy_block(&state.blocks[i]);
                            let nb = BlockState {
                                kind: b.kind,
                                text: crate::text::concat_str(b.text.as_str(), tx.as_str()),
                                tool_id: b.tool_id,
                                tool_name: b.tool_name,
                                tool_args: b.tool_args,
                            };
                            set_block(&mut state.blocks, i, nb);
                        }
                        state.text = crate::text::concat_str(state.text.as_str(), tx.as_str());
                        events.push(crate::cif::StreamEvent::TextDelta { text: tx });
                    }
                },
                None => {},
            }
        } else if crate::text::str_eq(dty.as_str(), "input_json_delta") {
            match partial {
                Some(p) => {
                    if i < state.blocks.len() {
                        let b = copy_block(&state.blocks[i]);
                        let nb = BlockState {
                            kind: b.kind,
                            text: b.text,
                            tool_id: b.tool_id,
                            tool_name: b.tool_name,
                            tool_args: crate::text::concat_str(b.tool_args.as_str(), p.as_str()),
                        };
                        set_block(&mut state.blocks, i, nb);
                    }
                    events.push(crate::cif::StreamEvent::ToolCallDelta {
                        index: idx,
                        id: None,
                        name: None,
                        arguments_delta: Some(p),
                    });
                },
                None => {},
            }
        } else if crate::text::str_eq(dty.as_str(), "thinking_delta") {
            match thinking {
                Some(th) => {
                    if !th.as_str().is_empty() {
                        events.push(crate::cif::StreamEvent::ReasoningDelta { text: th });
                    }
                },
                None => {},
            }
        }
        assert(events_view(events@) =~= spec.0);
        assert(state@.blocks =~= spec.1.blocks);
    } else if crate::text::str_eq(t, "message_delta") {
        match nested_str(value, "delta", "stop_reason") {
            Some(r) => {
                state.finish_reason = Some(map_anthropic_stop_reason(r.as_str()));
            },
            None => {},
        }
        assert(events_view(events@) =~= spec.0);
        assert(state@.blocks =~= spec.1.blocks);
    } else if crate::text::str_eq(t, "message_stop") {
        let tool_calls = tool_calls_of_blocks(&state.blocks);
        let text = state.text.clone();
        state.text = String::new();
        let finish_reason = match state.finish_reason.take() {
            Some(f) => f,
            None => crate::cif::FinishReason::Stop,
        };
        let response_id = state.response_id.clone();
        events.push(crate::cif::StreamEvent::Completed { text, tool_calls, finish_reason, response_id });
        assert(events_view(events@) =~= spec.0);
        assert(state@.blocks =~= spec.1.blocks);
    } else if crate::text::str_eq(t, "error") {
        let message = match nested_str(value, "error", "message") {
            Some(m) => m,
            None => "anthropic stream error".to_string(),
        };
        events.push(crate::cif::StreamEvent::Error { message });
        assert(events_view(events@) =~= spec.0);
        assert(state@.blocks =~= spec.1.blocks);
    }
    assert(events_view(events@) =~= spec.0);
    assert(state@.blocks =~= spec.1.blocks);
    Ok(events)
}

} // verus!

verus! {

/// The texts of the text deltas among `es`, concatenated.
pub open spec fn streamed_text(es: Seq<crate::cif::StreamEventV>) -> Seq<char>
    decreases es.len(),
{
    if es.len() == 0 {
        Seq::empty()
    } else {
        streamed_text(es.drop_last()) + match es.last() {
            crate::cif::StreamEventV::TextDelta { text } => text,
            _ => Seq::empty(),
        }
    }
}

/// The events and final state of a run of parsed events `(value, type)`.
pub open spec fn anthropic_run(steps: Seq<(JsonV, Seq<char>)>, st: ChunkStateV) -> (
    Seq<crate::cif::StreamEventV>,
    ChunkStateV,
)
    decreases steps.len(),
{
    if steps.len() == 0 {
        (Seq::empty(), st)
    } else {
        let prev = anthropic_run(steps.drop_last(), st);
        let step = anthropic_event(steps.last().0, steps.last().1, prev.1);
        (prev.0 + step.0, step.1)
    }
}

proof fn lemma_streamed_text_concat(a: Seq<crate::cif::StreamEventV>, b: Seq<crate::cif::StreamEventV>)
    ensures
        streamed_text(a + b) == streamed_text(a) + streamed_text(b),
    decreases b.len(),
{
    if b.len() == 0 {
        assert(a + b =~= a);
    } else {
        lemma_streamed_text_concat(a, b.drop_last());
        assert((a + b).drop_last() =~= a + b.drop_last());
    }
}

/// The turns of the Messages API request for `req`.
pub open spec fn request_turns(req: Request) -> Seq<(Seq<char>, Seq<JsonV>)> {
    merge_turns(messages_view(req.messages@).map_values(|m: MessageV| staged_turn(m)))
}

/// Law: the `messages` of an encoded request alternate between user and
/// assistant turns, none of them empty, and together carry every block
/// the request's messages stage, in order.
pub proof fn lemma_request_messages_alternate(req: Request)
    ensures
        anthropic_body(req)->Object_0[1] == (
            "messages"@,
            JsonV::Array(request_turns(req).map_values(|t: (Seq<char>, Seq<JsonV>)| turn_json(t))),
        ),
        forall|i: int| 0 <= i < request_turns(req).len() ==> (#[trigger] request_turns(req)[i]).1.len() > 0,
        forall|i: int|
            0 <= i < request_turns(req).len() - 1 ==> (#[trigger] request_turns(req)[i]).0 != request_turns(req)[i
                + 1].0,
        all_blocks(request_turns(req)) == all_blocks(
            messages_view(req.messages@).map_values(|m: MessageV| staged_turn(m)),
        ),
{
    lemma_merge_alternates_and_keeps_blocks(messages_view(req.messages@).map_values(|m: MessageV| staged_turn(m)));
}

/// A string member of the `source` object of a block.
pub open spec fn source_str(block: JsonV, k: Seq<char>) -> Option<Seq<char>> {
    match crate::json::jget(block, "source"@) {
        Some(src) => crate::json::jget_str(src, k),
        None => None,
    }
}

/// Law: a user message stages one block per content piece, in order: a
/// text piece becomes a `text` block carrying its text; an image piece
/// becomes an `image` block whose source is of type `url` and carries the
/// piece's URL and media type (`image/jpeg` when the piece names none).
pub proof fn lemma_user_pieces_become_blocks(content: Seq<ContentV>, i: int)
    requires
        0 <= i < content.len(),
    ensures
        staged_turn(MessageV::User { content }).0 == "user"@,
        staged_turn(MessageV::User { content }).1.len() == content.len(),
        match content[i] {
            ContentV::Text { text } => {
                &&& crate::json::jget_str(staged_turn(MessageV::User { content }).1[i], "type"@) == Some("text"@)
                &&& crate::json::jget_str(staged_turn(MessageV::User { content }).1[i], "text"@) == Some(text)
            },
            ContentV::Image { url, mime } => {
                &&& crate::json::jget_str(staged_turn(MessageV::User { content }).1[i], "type"@) == Some("image"@)
                &&& source_str(staged_turn(MessageV::User { content }).1[i], "type"@) == Some("url"@)
                &&& source_str(staged_turn(MessageV::User { content }).1[i], "url"@) == Some(url)
                &&& source_str(staged_turn(MessageV::User { content }).1[i], "media_type"@) == Some(
                    match mime {
                        Some(m) => m,
                        None => "image/jpeg"@,
                    },
                )
            },
        },
{
    reveal_with_fuel(crate::json::entries_get, 4);
    reveal_strlit("type");
    reveal_strlit("text");
    reveal_strlit("source");
    reveal_strlit("url");
    reveal_strlit("media_type");
    assert("type"@ != "text"@) by {
        assert("type"@[1] != "text"@[1]);
    }
    assert("type"@ != "source"@) by {
        assert("type"@.len() != "source"@.len());
    }
    assert("type"@ != "url"@) by {
        assert("type"@.len() != "url"@.len());
    }
    assert("type"@ != "media_type"@) by {
        assert("type"@.len() != "media_type"@.len());
    }
    assert("url"@ != "media_type"@) by {
        assert("url"@.len() != "media_type"@.len());
    }
}

/// Law: a `message_stop` event completes the stream from whatever state
/// it finds: the accumulated text, the tool calls of the `tool_use`
/// blocks in index order (empty arguments read as `{}`), the recorded stop
/// reason (`Stop` when none), and the response id; afterwards the text and
/// the stop reason are cleared and the rest of the state is kept.
pub proof fn lemma_message_stop_completes(v: JsonV, st: ChunkStateV)
    ensures
        anthropic_event(v, "message_stop"@, st) == (
            seq![
                crate::cif::StreamEventV::Completed {
                    text: st.text,
                    tool_calls: block_tool_calls(st.blocks),
                    finish_reason: fr_or_stop(st.finish_reason),
                    response_id: st.response_id,
                },
            ],
            ChunkStateV { text: Seq::empty(), finish_reason: None, ..st },
        ),
{
    lemma_event_names_distinct();
}

proof fn lemma_event_names_distinct()
    ensures
        "message_start"@ != "content_block_start"@,
        "message_start"@ != "content_block_delta"@,
        "message_start"@ != "message_delta"@,
        "message_start"@ != "message_stop"@,
        "message_start"@ != "error"@,
        "content_block_start"@ != "content_block_delta"@,
        "content_block_start"@ != "message_delta"@,
        "content_block_start"@ != "message_stop"@,
        "content_block_start"@ != "error"@,
        "content_block_delta"@ != "message_delta"@,
        "content_block_delta"@ != "message_stop"@,
        "content_block_delta"@ != "error"@,
        "message_delta"@ != "message_stop"@,
        "message_delta"@ != "error"@,
        "message_stop"@ != "error"@,
{
    reveal_strlit("message_start");
    reveal_strlit("content_block_start");
    reveal_strlit("content_block_delta");
    reveal_strlit("message_delta");
    reveal_strlit("message_stop");
    reveal_strlit("error");
    assert("message_start"@.len() == 13);
    assert("content_block_start"@.len() == 19);
    assert("content_block_delta"@.len() == 19);
    assert("message_delta"@.len() == 13);
    assert("message_stop"@.len() == 12);
    assert("error"@.len() == 5);
    assert("message_start"@[8] != "message_delta"@[8]);
    assert("content_block_start"@[14] != "content_block_delta"@[14]);
}

/// Every event but `message_stop` adds to the accumulated text exactly the
/// text of the deltas it yields.
pub proof fn lemma_event_accumulates_text(v: JsonV, ty: Seq<char>, st: ChunkStateV)
    requires
        ty != "message_stop"@,
    ensures
        anthropic_event(v, ty, st).1.text == st.text + streamed_text(anthropic_event(v, ty, st).0),
{
    lemma_event_names_distinct();
    let r = anthropic_event(v, ty, st);
    let es = r.0;
    assert(st.text + Seq::<char>::empty() =~= st.text);
    assert(streamed_text(Seq::<crate::cif::StreamEventV>::empty()) == Seq::<char>::empty());
    if es.len() == 1 {
        assert(es.drop_last() =~= Seq::<crate::cif::StreamEventV>::empty());
        assert(streamed_text(es) == streamed_text(es.drop_last()) + match es.last() {
            crate::cif::StreamEventV::TextDelta { text } => text,
            _ => Seq::empty(),
        });
    }
    if ty == "content_block_delta"@ {
        let idx = event_index(v) as int;
        let delta = member_or_empty(v, "delta"@);
        let dty = str_or(crate::json::jget_str(delta, "type"@), Seq::empty());
        if dty == "text_delta"@ {
            match crate::json::jget_str(delta, "text"@) {
                Some(t) => if t.len() > 0 {
                    assert(es == seq![crate::cif::StreamEventV::TextDelta { text: t }]);
                    assert(Seq::<char>::empty() + t =~= t);
                    assert(r.1.text == st.text + t);
                },
                None => {},
            }
        }
    }
}

/// Law: the text a response completes with is the text its deltas
/// streamed. Over a run of events with no `message_stop`, the accumulated
/// text grows by exactly the streamed deltas; so a `message_stop` after a
/// run from a fresh stream completes with the concatenation of all the
/// text deltas of the run, and leaves the accumulated text empty.
pub proof fn lemma_completed_text_is_streamed_text(steps: Seq<(JsonV, Seq<char>)>, stop: JsonV)
    requires
        forall|i: int| 0 <= i < steps.len() ==> (#[trigger] steps[i]).1 != "message_stop"@,
    ensures
        anthropic_run(steps, fresh_chunk_state()).1.text == streamed_text(anthropic_run(steps, fresh_chunk_state()).0),
        ({
            let r = anthropic_run(steps, fresh_chunk_state());
            let fin = anthropic_event(stop, "message_stop"@, r.1);
            &&& fin.0.len() == 1
            &&& fin.0[0] matches crate::cif::StreamEventV::Completed { text, .. } && text == streamed_text(r.0)
            &&& fin.1.text.len() == 0
        }),
    decreases steps.len(),
{
    lemma_event_names_distinct();
    if steps.len() > 0 {
        let init = steps.drop_last();
        assert forall|i: int| 0 <= i < init.len() implies (#[trigger] init[i]).1 != "message_stop"@ by {
            assert(init[i] == steps[i]);
        }
        lemma_completed_text_is_streamed_text(init, stop);
        let prev = anthropic_run(init, fresh_chunk_state());
        assert(steps[steps.len() - 1].1 != "message_stop"@);
        lemma_event_accumulates_text(steps.last().0, steps.last().1, prev.1);
        lemma_streamed_text_concat(prev.0, anthropic_event(steps.last().0, steps.last().1, prev.1).0);
    } else {
        assert(fresh_chunk_state().text =~= streamed_text(Seq::empty()));
    }
}

} // verus!
