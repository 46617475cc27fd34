//! Translation of Empirica (CC-shaped) hook output into the shape
//! codex's hook engine accepts.
//!
//! | event            | output members                                                                       |
//! |------------------|--------------------------------------------------------------------------------------|
//! | SessionStart     | `continue`, `hookSpecificOutput{hookEventName, additionalContext?}`                  |
//! | UserPromptSubmit | `continue`, `hookSpecificOutput{hookEventName, additionalContext?}`, `decision?`, `reason?` |
//! | PreToolUse       | `continue`, `hookSpecificOutput{hookEventName, permissionDecision?, permissionDecisionReason?, additionalContext?}` |
//! | PostToolUse      | as UserPromptSubmit                                                                  |
//! | Stop             | `continue`, `decision?`, `reason?`, `stopReason?`, `systemMessage?`, `suppressOutput?` |
//!
//! Every other member of the script's output is dropped. On PreToolUse the
//! only decision that reaches codex is a deny with a non-blank reason: an
//! `ask` becomes a deny, an `allow` is omitted.

use vstd::prelude::*;

use crate::json::{members_view, object, opt_member, push_member, push_opt_str, entries_get, get_bool, get_str, jget, jget_bool, jget_str, jstr, jstring, jv, opt_str_view, Json, JsonV};
use crate::json_serde::{json_parsed, json_serialized, parse_json, serialize_json};
use crate::text::{chars_of, is_blank, str_eq, str_is_blank, string_from_chars, trim, trim_chars};

verus! {

/// The hook events the translator knows how to shape.
#[derive(Debug, Clone, Copy, PartialEq, Eq)]
pub enum HookEvent {
    SessionStart,
    UserPromptSubmit,
    PreToolUse,
    PostToolUse,
    Stop,
    Unknown,
}

/// Which event an event name (CamelCase or kebab-case) denotes.
pub open spec fn event_of(name: Seq<char>) -> HookEvent {
    if name == "session-start"@ || name == "SessionStart"@ {
        HookEvent::SessionStart
    } else if name == "user-prompt-submit"@ || name == "UserPromptSubmit"@ {
        HookEvent::UserPromptSubmit
    } else if name == "pre-tool-use"@ || name == "PreToolUse"@ {
        HookEvent::PreToolUse
    } else if name == "post-tool-use"@ || name == "PostToolUse"@ {
        HookEvent::PostToolUse
    } else if name == "stop"@ || name == "Stop"@ {
        HookEvent::Stop
    } else {
        HookEvent::Unknown
    }
}

/// Classify an event name.
pub fn classify_event(name: &str) -> (e: HookEvent)
    ensures
        e == event_of(name@),
{
    if str_eq(name, "session-start") || str_eq(name, "SessionStart") {
        HookEvent::SessionStart
    } else if str_eq(name, "user-prompt-submit") || str_eq(name, "UserPromptSubmit") {
        HookEvent::UserPromptSubmit
    } else if str_eq(name, "pre-tool-use") || str_eq(name, "PreToolUse") {
        HookEvent::PreToolUse
    } else if str_eq(name, "post-tool-use") || str_eq(name, "PostToolUse") {
        HookEvent::PostToolUse
    } else if str_eq(name, "stop") || str_eq(name, "Stop") {
        HookEvent::Stop
    } else {
        HookEvent::Unknown
    }
}

// ───────────────────────────── what is read ─────────────────────────────

/// Member `b` of member `a` of `j`.
pub open spec fn jget2(j: JsonV, a: Seq<char>, b: Seq<char>) -> Option<JsonV> {
    match jget(j, a) {
        Some(inner) => jget(inner, b),
        None => None,
    }
}

/// `continue` when it is a boolean, else `true`.
pub open spec fn cc_continue(cc: JsonV) -> bool {
    match jget_bool(cc, "continue"@) {
        Some(b) => b,
        None => true,
    }
}

/// `o` unless it is the empty string.
pub open spec fn nonempty(o: Option<Seq<char>>) -> Option<Seq<char>> {
    match o {
        Some(s) => if s.len() > 0 { Some(s) } else { None },
        None => None,
    }
}

/// The flat `context` member, when it is a non-empty string.
pub open spec fn cc_context(cc: JsonV) -> Option<Seq<char>> {
    nonempty(jget_str(cc, "context"@))
}

/// The flat `context`, else the nested `hookSpecificOutput.additionalContext`.
pub open spec fn cc_context_or_additional(cc: JsonV) -> Option<Seq<char>> {
    match cc_context(cc) {
        Some(c) => Some(c),
        None => nonempty(jstr(jget2(cc, "hookSpecificOutput"@, "additionalContext"@))),
    }
}

/// The permission decision the sentinel expressed: the nested codex-native
/// `permissionDecision` when it is `allow`, `deny` or `ask`; else the
/// legacy top-level `decision`, mapped onto that vocabulary.
pub open spec fn raw_decision(cc: JsonV) -> Option<Seq<char>> {
    let nested = jstr(jget2(cc, "hookSpecificOutput"@, "permissionDecision"@));
    if nested == Some("allow"@) || nested == Some("deny"@) || nested == Some("ask"@) {
        nested
    } else {
        let legacy = jget_str(cc, "decision"@);
        if legacy == Some("allow"@) || legacy == Some("approve"@) {
            Some("allow"@)
        } else if legacy == Some("deny"@) || legacy == Some("block"@) {
            Some("deny"@)
        } else if legacy == Some("ask"@) {
            Some("ask"@)
        } else {
            None
        }
    }
}

/// The sentinel asked for the tool call to be refused (a deny, or an ask,
/// which has no path in codex and is refused too).
pub open spec fn gate_refuses(cc: JsonV) -> bool {
    raw_decision(cc) == Some("deny"@) || raw_decision(cc) == Some("ask"@)
}

/// The reason the sentinel gave: the first present of the nested
/// `permissionDecisionReason`, `stopReason`, `reason`.
pub open spec fn gate_reason(cc: JsonV) -> Option<Seq<char>> {
    match jstr(jget2(cc, "hookSpecificOutput"@, "permissionDecisionReason"@)) {
        Some(r) => Some(r),
        None => match jget_str(cc, "stopReason"@) {
            Some(r) => Some(r),
            None => jget_str(cc, "reason"@),
        },
    }
}

/// Reason given when an `ask` is refused without a reason of its own.
pub open spec fn ask_fallback_reason() -> Seq<char> {
    "ecodex: sentinel returned ASK (advisory); fail-closed to DENY \u{2014} no human-adjudication path in this harness. Run CHECK with proceed before praxic actions."@
}

/// Reason given when a deny carries no reason of its own.
pub open spec fn deny_fallback_reason() -> Seq<char> {
    "ecodex firewall: action denied by gate."@
}

/// The reason a refusal carries: the sentinel's own when it is not blank,
/// else a fallback that names the case.
pub open spec fn refusal_reason(cc: JsonV) -> Seq<char> {
    match gate_reason(cc) {
        Some(r) if !is_blank(r) => r,
        _ => if raw_decision(cc) == Some("ask"@) {
            ask_fallback_reason()
        } else {
            deny_fallback_reason()
        },
    }
}

// ───────────────────────────── what is written ────────────────────────────

/// Top-level `decision: "block"` (and `reason` when it is a string) when
/// the script blocked.
pub open spec fn block_members(cc: JsonV) -> Seq<(Seq<char>, JsonV)> {
    if jget_str(cc, "decision"@) == Some("block"@) {
        seq![("decision"@, JsonV::Str("block"@))] + opt_member("reason"@, jget_str(cc, "reason"@))
    } else {
        Seq::empty()
    }
}

/// `{continue, hookSpecificOutput: {hookEventName, additionalContext?}}` followed by `tail`.
pub open spec fn with_context_out(
    cc: JsonV,
    event: Seq<char>,
    context: Option<Seq<char>>,
    tail: Seq<(Seq<char>, JsonV)>,
) -> JsonV {
    JsonV::Object(
        seq![
            ("continue"@, JsonV::Bool(cc_continue(cc))),
            (
                "hookSpecificOutput"@,
                JsonV::Object(
                    seq![("hookEventName"@, JsonV::Str(event))] + opt_member("additionalContext"@, context),
                ),
            ),
        ] + tail,
    )
}

/// The `hookSpecificOutput` of a translated PreToolUse output.
pub open spec fn pre_tool_use_hso(cc: JsonV) -> Seq<(Seq<char>, JsonV)> {
    seq![("hookEventName"@, JsonV::Str("PreToolUse"@))] + (if gate_refuses(cc) {
        seq![
            ("permissionDecision"@, JsonV::Str("deny"@)),
            ("permissionDecisionReason"@, JsonV::Str(refusal_reason(cc))),
        ]
    } else {
        Seq::empty()
    }) + opt_member("additionalContext"@, cc_context(cc))
}

/// The members of a translated Stop output.
pub open spec fn stop_members(cc: JsonV) -> Seq<(Seq<char>, JsonV)> {
    seq![("continue"@, JsonV::Bool(cc_continue(cc)))] + (if jget_str(cc, "decision"@) == Some(
        "block"@,
    ) {
        seq![("decision"@, JsonV::Str("block"@))]
    } else {
        Seq::empty()
    }) + opt_member("reason"@, jget_str(cc, "reason"@)) + opt_member(
        "stopReason"@,
        jget_str(cc, "stopReason"@),
    ) + opt_member("systemMessage"@, jget_str(cc, "systemMessage"@)) + (if jget_bool(
        cc,
        "suppressOutput"@,
    ) == Some(true) {
        seq![("suppressOutput"@, JsonV::Bool(true))]
    } else {
        Seq::empty()
    })
}

/// The codex-shaped output for the script output `cc` of event `event`.
pub open spec fn translated(event: HookEvent, cc: JsonV) -> JsonV {
    match event {
        HookEvent::SessionStart => with_context_out(
            cc,
            "SessionStart"@,
            cc_context_or_additional(cc),
            Seq::empty(),
        ),
        HookEvent::UserPromptSubmit => with_context_out(
            cc,
            "UserPromptSubmit"@,
            cc_context(cc),
            block_members(cc),
        ),
        HookEvent::PreToolUse => JsonV::Object(
            seq![
                ("continue"@, JsonV::Bool(cc_continue(cc))),
                ("hookSpecificOutput"@, JsonV::Object(pre_tool_use_hso(cc))),
            ],
        ),
        HookEvent::PostToolUse => with_context_out(
            cc,
            "PostToolUse"@,
            cc_context(cc),
            block_members(cc),
        ),
        HookEvent::Stop => JsonV::Object(stop_members(cc)),
        HookEvent::Unknown => JsonV::Object(seq![("continue"@, JsonV::Bool(true))]),
    }
}

// ───────────────────────────── executable ───────────────────────────────

/// `continue` of the script output.
pub fn pluck_continue(cc: &Json) -> (b: bool)
    ensures
        b == cc_continue(jv(*cc)),
{
    match get_bool(cc, "continue") {
        Some(b) => b,
        None => true,
    }
}

/// `s` unless it is the empty string.
pub fn filter_nonempty(s: Option<&String>) -> (r: Option<&String>)
    ensures
        opt_str_view(r) == nonempty(opt_str_view(s)),
{
    match s {
        Some(x) => if x.as_str().is_empty() { None } else { Some(x) },
        None => None,
    }
}

/// The flat `context` member, when non-empty.
pub fn pluck_context(cc: &Json) -> (r: Option<&String>)
    ensures
        opt_str_view(r) == cc_context(jv(*cc)),
{
    filter_nonempty(get_str(cc, "context"))
}

/// String member `b` of member `a` of `cc`.
pub fn get_nested_str<'a>(cc: &'a Json, a: &str, b: &str) -> (r: Option<&'a String>)
    ensures
        opt_str_view(r) == jstr(jget2(jv(*cc), a@, b@)),
{
    match cc.get(a) {
        Some(inner) => get_str(inner, b),
        None => None,
    }
}

/// The flat `context`, else the nested `hookSpecificOutput.additionalContext`.
pub fn pluck_context_or_additional(cc: &Json) -> (r: Option<&String>)
    ensures
        opt_str_view(r) == cc_context_or_additional(jv(*cc)),
{
    match pluck_context(cc) {
        Some(c) => Some(c),
        None => filter_nonempty(get_nested_str(cc, "hookSpecificOutput", "additionalContext")),
    }
}

/// Optional string equality against a literal.
fn opt_is(o: Option<&String>, lit: &str) -> (b: bool)
    ensures
        b == (opt_str_view(o) == Some(lit@)),
{
    match o {
        Some(s) => str_eq(s.as_str(), lit),
        None => false,
    }
}

/// The sentinel's decision in codex vocabulary (`allow`, `deny`, `ask`).
pub fn pluck_raw_decision(cc: &Json) -> (r: Option<&'static str>)
    ensures
        match r {
            Some(d) => raw_decision(jv(*cc)) == Some(d@),
            None => raw_decision(jv(*cc)) is None,
        },
{
    let nested = get_nested_str(cc, "hookSpecificOutput", "permissionDecision");
    if opt_is(nested, "allow") {
        return Some("allow");
    }
    if opt_is(nested, "deny") {
        return Some("deny");
    }
    if opt_is(nested, "ask") {
        return Some("ask");
    }
    let legacy = get_str(cc, "decision");
    if opt_is(legacy, "allow") || opt_is(legacy, "approve") {
        Some("allow")
    } else if opt_is(legacy, "deny") || opt_is(legacy, "block") {
        Some("deny")
    } else if opt_is(legacy, "ask") {
        Some("ask")
    } else {
        None
    }
}

/// `{continue, hookSpecificOutput: {hookEventName: event, additionalContext?}}`.
fn context_object(cc: &Json, event: &str, context: Option<&String>) -> (v: Vec<(String, Json)>)
    ensures
        JsonV::Object(members_view(v@)) == with_context_out(
            jv(*cc),
            event@,
            opt_str_view(context),
            Seq::empty(),
        ),
{
    let mut hso: Vec<(String, Json)> = Vec::new();
    push_member(&mut hso, "hookEventName", jstring(event));
    push_opt_str(&mut hso, "additionalContext", context);
    let mut out: Vec<(String, Json)> = Vec::new();
    push_member(&mut out, "continue", Json::Bool(pluck_continue(cc)));
    let ghost hso_view = members_view(hso@);
    push_member(&mut out, "hookSpecificOutput", object(hso));
    assert(members_view(out@) =~= seq![
        ("continue"@, JsonV::Bool(cc_continue(jv(*cc)))),
        ("hookSpecificOutput"@, JsonV::Object(hso_view)),
    ] + Seq::<(Seq<char>, JsonV)>::empty());
    out
}

/// Append the top-level block decision (and reason) when the script blocked.
fn push_block_members(out: &mut Vec<(String, Json)>, cc: &Json)
    ensures
        members_view(final(out)@) == members_view(old(out)@) + block_members(jv(*cc)),
{
    if opt_is(get_str(cc, "decision"), "block") {
        push_member(out, "decision", jstring("block"));
        push_opt_str(out, "reason", get_str(cc, "reason"));
        assert(members_view(out@) =~= members_view(old(out)@) + block_members(jv(*cc)));
    } else {
        assert(members_view(out@) =~= members_view(old(out)@) + block_members(jv(*cc)));
    }
}

fn translate_session_start(cc: &Json) -> (j: Json)
    ensures
        jv(j) == translated(HookEvent::SessionStart, jv(*cc)),
{
    let out = context_object(cc, "SessionStart", pluck_context_or_additional(cc));
    let j = object(out);
    assert(members_view(out@) =~= members_view(out@) + Seq::<(Seq<char>, JsonV)>::empty());
    j
}

fn translate_with_block(cc: &Json, event: &str, which: Ghost<HookEvent>) -> (j: Json)
    requires
        (which@ == HookEvent::UserPromptSubmit && event@ == "UserPromptSubmit"@) || (which@
            == HookEvent::PostToolUse && event@ == "PostToolUse"@),
    ensures
        jv(j) == translated(which@, jv(*cc)),
{
    let mut out = context_object(cc, event, pluck_context(cc));
    let ghost first = members_view(out@);
    push_block_members(&mut out, cc);
    proof {
        assert(with_context_out(jv(*cc), event@, cc_context(jv(*cc)), block_members(jv(*cc)))
            == JsonV::Object(first + block_members(jv(*cc)))) by {
            let t = block_members(jv(*cc));
            let s = seq![
                ("continue"@, JsonV::Bool(cc_continue(jv(*cc)))),
                (
                    "hookSpecificOutput"@,
                    JsonV::Object(
                        seq![("hookEventName"@, JsonV::Str(event@))] + opt_member(
                            "additionalContext"@,
                            cc_context(jv(*cc)),
                        ),
                    ),
                ),
            ];
            assert(s + Seq::<(Seq<char>, JsonV)>::empty() =~= s);
        }
    }
    object(out)
}

fn translate_pre_tool_use(cc: &Json) -> (j: Json)
    ensures
        jv(j) == translated(HookEvent::PreToolUse, jv(*cc)),
{
    let ghost c = jv(*cc);
    let mut hso: Vec<(String, Json)> = Vec::new();
    push_member(&mut hso, "hookEventName", jstring("PreToolUse"));
    let ghost h0 = members_view(hso@);
    let raw = pluck_raw_decision(cc);
    let ask_normalized = match raw {
        Some(d) => str_eq(d, "ask"),
        None => false,
    };
    let emit_deny = match raw {
        Some(d) => str_eq(d, "deny") || str_eq(d, "ask"),
        None => false,
    };
    assert(ask_normalized == (raw_decision(c) == Some("ask"@)));
    assert(emit_deny == gate_refuses(c));
    if emit_deny {
        push_member(&mut hso, "permissionDecision", jstring("deny"));
        let candidate = match get_nested_str(cc, "hookSpecificOutput", "permissionDecisionReason") {
            Some(r) => Some(r),
            None => match get_str(cc, "stopReason") {
                Some(r) => Some(r),
                None => get_str(cc, "reason"),
            },
        };
        assert(opt_str_view(candidate) == gate_reason(c));
        let reason = match candidate {
            Some(r) => if str_is_blank(r.as_str()) {
                None
            } else {
                Some(r.clone())
            },
            None => None,
        };
        let reason = match reason {
            Some(r) => r,
            None => if ask_normalized {
                "ecodex: sentinel returned ASK (advisory); fail-closed to DENY \u{2014} no human-adjudication path in this harness. Run CHECK with proceed before praxic actions.".to_string()
            } else {
                "ecodex firewall: action denied by gate.".to_string()
            },
        };
        assert(reason@ == refusal_reason(c));
        push_member(&mut hso, "permissionDecisionReason", Json::Str(reason));
    }
    let ghost h1 = members_view(hso@);
    assert(h1 == h0 + (if gate_refuses(c) {
        seq![
            ("permissionDecision"@, JsonV::Str("deny"@)),
            ("permissionDecisionReason"@, JsonV::Str(refusal_reason(c))),
        ]
    } else {
        Seq::empty()
    })) by {
        if !gate_refuses(c) {
            assert(h1 =~= h0 + Seq::<(Seq<char>, JsonV)>::empty());
        } else {
            assert(h1 =~= h0 + seq![
                ("permissionDecision"@, JsonV::Str("deny"@)),
                ("permissionDecisionReason"@, JsonV::Str(refusal_reason(c))),
            ]);
        }
    }
    push_opt_str(&mut hso, "additionalContext", pluck_context(cc));
    assert(members_view(hso@) =~= pre_tool_use_hso(c));
    let mut out: Vec<(String, Json)> = Vec::new();
    push_member(&mut out, "continue", Json::Bool(pluck_continue(cc)));
    push_member(&mut out, "hookSpecificOutput", object(hso));
    let j = object(out);
    assert(members_view(out@) =~= seq![
        ("continue"@, JsonV::Bool(cc_continue(c))),
        ("hookSpecificOutput"@, JsonV::Object(pre_tool_use_hso(c))),
    ]);
    j
}

fn translate_stop(cc: &Json) -> (j: Json)
    ensures
        jv(j) == translated(HookEvent::Stop, jv(*cc)),
{
    let ghost c = jv(*cc);
    let mut out: Vec<(String, Json)> = Vec::new();
    push_member(&mut out, "continue", Json::Bool(pluck_continue(cc)));
    let ghost m0 = members_view(out@);
    let blocked = opt_is(get_str(cc, "decision"), "block");
    if blocked {
        push_member(&mut out, "decision", jstring("block"));
    }
    let ghost m1 = members_view(out@);
    assert(m1 =~= m0 + (if jget_str(c, "decision"@) == Some("block"@) {
        seq![("decision"@, JsonV::Str("block"@))]
    } else {
        Seq::empty()
    }));
    push_opt_str(&mut out, "reason", get_str(cc, "reason"));
    push_opt_str(&mut out, "stopReason", get_str(cc, "stopReason"));
    push_opt_str(&mut out, "systemMessage", get_str(cc, "systemMessage"));
    let ghost m2 = members_view(out@);
    let suppress = match get_bool(cc, "suppressOutput") {
        Some(b) => b,
        None => false,
    };
    if suppress {
        push_member(&mut out, "suppressOutput", Json::Bool(true));
    }
    assert(members_view(out@) =~= m2 + (if jget_bool(c, "suppressOutput"@) == Some(true) {
        seq![("suppressOutput"@, JsonV::Bool(true))]
    } else {
        Seq::empty()
    }));
    assert(members_view(out@) =~= stop_members(c));
    object(out)
}

/// Translate the parsed script output `cc` of the hook event named `event`
/// into codex's shape; an event the translator does not know yields
/// `{continue: true}`.
pub fn translate_value(event: &str, cc: &Json) -> (j: Json)
    ensures
        jv(j) == translated(event_of(event@), jv(*cc)),
{
    match classify_event(event) {
        HookEvent::SessionStart => translate_session_start(cc),
        HookEvent::UserPromptSubmit => translate_with_block(
            cc,
            "UserPromptSubmit",
            Ghost(HookEvent::UserPromptSubmit),
        ),
        HookEvent::PreToolUse => translate_pre_tool_use(cc),
        HookEvent::PostToolUse => translate_with_block(
            cc,
            "PostToolUse",
            Ghost(HookEvent::PostToolUse),
        ),
        HookEvent::Stop => translate_stop(cc),
        HookEvent::Unknown => {
            let mut out: Vec<(String, Json)> = Vec::new();
            push_member(&mut out, "continue", Json::Bool(true));
            assert(members_view(out@) =~= seq![("continue"@, JsonV::Bool(true))]);
            object(out)
        },
    }
}

/// The script output as read: the JSON value of its trimmed text, or the
/// empty object when that is not JSON.
pub open spec fn script_value(cc_output: Seq<char>) -> JsonV {
    match json_parsed(trim(cc_output)) {
        Some(v) => v,
        None => JsonV::Object(Seq::empty()),
    }
}

/// What codex receives: serde_json's text for the translated value, or
/// `{"continue":true}` should serde_json refuse it.
pub open spec fn translated_text(event: Seq<char>, cc_output: Seq<char>) -> Seq<char> {
    match json_serialized(translated(event_of(event), script_value(cc_output))) {
        Some(t) => t,
        None => "{\"continue\":true}"@,
    }
}

/// The text codex receives for the value `v`.
pub open spec fn text_of(v: JsonV) -> Seq<char> {
    match json_serialized(v) {
        Some(t) => t,
        None => "{\"continue\":true}"@,
    }
}

/// Law (fail-open): output that is not JSON is answered exactly as empty
/// output `{}` would be, and an event that is none of the five known ones
/// (in either spelling) is answered `{"continue":true}` whatever the
/// script wrote.
pub proof fn lemma_translate_fails_open(event: Seq<char>, cc_output: Seq<char>)
    ensures
        json_parsed(trim(cc_output)) is None ==> translated_text(event, cc_output) == text_of(
            translated(event_of(event), JsonV::Object(Seq::empty())),
        ),
        event_of(event) == HookEvent::Unknown ==> translated_text(event, cc_output) == text_of(
            JsonV::Object(seq![("continue"@, JsonV::Bool(true))]),
        ),
{
}

/// Translate the Empirica (CC-shaped) output text of a hook
/// script for the event named `event` into codex-shaped JSON text. Output
/// that is not JSON is read as `{}`, so codex always receives valid JSON
/// (fail-open).
pub fn translate(event: &str, cc_output: &str) -> (out: String)
    ensures
        out@ == translated_text(event@, cc_output@),
{
    let trimmed_v = trim_chars(chars_of(cc_output).as_slice());
    let trimmed = string_from_chars(trimmed_v.as_slice());
    let cc = match parse_json(trimmed.as_str()) {
        Some(v) => v,
        None => {
            let j = Json::Object(Vec::new());
            assert(jv(j) == JsonV::Object(Seq::empty())) by {
                match jv(j) {
                    JsonV::Object(es) => assert(es =~= Seq::<(Seq<char>, JsonV)>::empty()),
                    _ => {},
                }
            }
            j
        },
    };
    let codex = translate_value(event, &cc);
    match serialize_json(&codex) {
        Some(t) => t,
        None => "{\"continue\":true}".to_string(),
    }
}

} // verus!

verus! {

// ───────────────────────────── laws ─────────────────────────────────────

/// codex's PreToolUse block rule for an exit-0 hook: the output carries
/// `hookSpecificOutput.permissionDecision == "deny"` with a
/// `permissionDecisionReason` that is not blank.
pub open spec fn codex_blocks(out: JsonV) -> bool {
    &&& jstr(jget2(out, "hookSpecificOutput"@, "permissionDecision"@)) == Some("deny"@)
    &&& match jstr(jget2(out, "hookSpecificOutput"@, "permissionDecisionReason"@)) {
        Some(r) => !is_blank(r),
        None => false,
    }
}

/// The fallback reasons are not blank.
proof fn lemma_fallbacks_not_blank()
    ensures
        !is_blank(ask_fallback_reason()),
        !is_blank(deny_fallback_reason()),
{
    reveal_strlit("ecodex: sentinel returned ASK (advisory); fail-closed to DENY \u{2014} no human-adjudication path in this harness. Run CHECK with proceed before praxic actions.");
    reveal_strlit("ecodex firewall: action denied by gate.");
    assert(!crate::text::is_ws(ask_fallback_reason()[0]));
    assert(!crate::text::is_ws(deny_fallback_reason()[0]));
}

/// The permission members a refusal adds.
pub open spec fn refusal_members(cc: JsonV) -> Seq<(Seq<char>, JsonV)> {
    if gate_refuses(cc) {
        seq![
            ("permissionDecision"@, JsonV::Str("deny"@)),
            ("permissionDecisionReason"@, JsonV::Str(refusal_reason(cc))),
        ]
    } else {
        Seq::empty()
    }
}

proof fn lemma_hso_lookup(cc: JsonV, k: Seq<char>)
    requires
        k == "permissionDecision"@ || k == "permissionDecisionReason"@,
    ensures
        entries_get(pre_tool_use_hso(cc), k) == entries_get(refusal_members(cc), k),
{
    reveal_strlit("hookEventName");
    reveal_strlit("permissionDecision");
    reveal_strlit("permissionDecisionReason");
    reveal_strlit("additionalContext");
    let head = seq![("hookEventName"@, JsonV::Str("PreToolUse"@))];
    let mid = refusal_members(cc);
    let tail = opt_member("additionalContext"@, cc_context(cc));
    assert(pre_tool_use_hso(cc) == head + mid + tail);
    crate::json::lemma_entries_get_concat(head + mid, tail, k);
    crate::json::lemma_entries_get_concat(head, mid, k);
    crate::json::lemma_entries_get_single("hookEventName"@, JsonV::Str("PreToolUse"@), k);
    assert("hookEventName"@ != k) by {
        assert("hookEventName"@.len() != k.len());
    }
    match cc_context(cc) {
        Some(c) => {
            crate::json::lemma_entries_get_single("additionalContext"@, JsonV::Str(c), k);
            assert("additionalContext"@ != k) by {
                assert("additionalContext"@.len() != k.len());
            }
        },
        None => {
            assert(entries_get(tail, k) is None);
        },
    }
}

/// Looking up the refusal members.
proof fn lemma_refusal_members(cc: JsonV)
    ensures
        gate_refuses(cc) ==> entries_get(refusal_members(cc), "permissionDecision"@) == Some(
            JsonV::Str("deny"@),
        ),
        gate_refuses(cc) ==> entries_get(refusal_members(cc), "permissionDecisionReason"@) == Some(
            JsonV::Str(refusal_reason(cc)),
        ),
        !gate_refuses(cc) ==> entries_get(refusal_members(cc), "permissionDecision"@) is None,
{
    reveal_strlit("permissionDecision");
    reveal_strlit("permissionDecisionReason");
    let mid = refusal_members(cc);
    if gate_refuses(cc) {
        assert(mid.drop_last() =~= seq![("permissionDecision"@, JsonV::Str("deny"@))]);
        assert("permissionDecision"@ != "permissionDecisionReason"@) by {
            assert("permissionDecision"@.len() != "permissionDecisionReason"@.len());
        }
        crate::json::lemma_entries_get_single(
            "permissionDecision"@,
            JsonV::Str("deny"@),
            "permissionDecision"@,
        );
    }
}

/// The firewall law: a translated PreToolUse output makes codex block the
/// tool call exactly when the sentinel refused it (deny, legacy block, or ask),
/// and never otherwise; an allow carries no permission decision at all, and
/// neither `decision` nor `suppressOutput` survives at the top level.
pub proof fn lemma_pre_tool_use_blocks_iff_gate_refuses(cc: JsonV)
    ensures
        codex_blocks(translated(HookEvent::PreToolUse, cc)) <==> gate_refuses(cc),
        !gate_refuses(cc) ==> jget2(
            translated(HookEvent::PreToolUse, cc),
            "hookSpecificOutput"@,
            "permissionDecision"@,
        ) is None,
        jget(translated(HookEvent::PreToolUse, cc), "decision"@) is None,
        jget(translated(HookEvent::PreToolUse, cc), "suppressOutput"@) is None,
{
    reveal_strlit("continue");
    reveal_strlit("hookSpecificOutput");
    reveal_strlit("decision");
    reveal_strlit("suppressOutput");
    lemma_fallbacks_not_blank();
    let out = translated(HookEvent::PreToolUse, cc);
    let hso = pre_tool_use_hso(cc);
    let first = seq![("continue"@, JsonV::Bool(cc_continue(cc)))];
    let second = seq![("hookSpecificOutput"@, JsonV::Object(hso))];
    assert(out == JsonV::Object(first + second)) by {
        assert(first + second =~= seq![
            ("continue"@, JsonV::Bool(cc_continue(cc))),
            ("hookSpecificOutput"@, JsonV::Object(hso)),
        ]);
    }
    crate::json::lemma_entries_get_concat(first, second, "hookSpecificOutput"@);
    crate::json::lemma_entries_get_single("hookSpecificOutput"@, JsonV::Object(hso), "hookSpecificOutput"@);
    assert(jget(out, "hookSpecificOutput"@) == Some(JsonV::Object(hso)));
    lemma_hso_lookup(cc, "permissionDecision"@);
    lemma_hso_lookup(cc, "permissionDecisionReason"@);
    lemma_refusal_members(cc);
    crate::json::lemma_entries_get_concat(first, second, "decision"@);
    crate::json::lemma_entries_get_concat(first, second, "suppressOutput"@);
    crate::json::lemma_entries_get_single("continue"@, JsonV::Bool(cc_continue(cc)), "decision"@);
    crate::json::lemma_entries_get_single("continue"@, JsonV::Bool(cc_continue(cc)), "suppressOutput"@);
    crate::json::lemma_entries_get_single("hookSpecificOutput"@, JsonV::Object(hso), "decision"@);
    crate::json::lemma_entries_get_single("hookSpecificOutput"@, JsonV::Object(hso), "suppressOutput"@);
    assert("continue"@ != "decision"@ && "hookSpecificOutput"@ != "decision"@) by {
        assert("continue"@[0] != "decision"@[0]);
        assert("hookSpecificOutput"@.len() != "decision"@.len());
    }
    assert("continue"@ != "suppressOutput"@ && "hookSpecificOutput"@ != "suppressOutput"@) by {
        assert("continue"@.len() != "suppressOutput"@.len());
        assert("hookSpecificOutput"@.len() != "suppressOutput"@.len());
    }
}

/// What a hook handler answers codex after running a script: the
/// script's output translated for the event, its stderr, and its exit
/// status; when the script could not be run, nothing and status `0`
/// (fail-open).
pub struct HookReply {
    pub stdout: String,
    pub stderr: String,
    pub exit_status: u8,
}

/// The reply of a (non-firewall) hook handler for event `event` given the
/// script's run.
pub fn relay_hook_run<E>(event: &str, run: &Result<crate::firewall::HookOutput, E>) -> (r: HookReply)
    ensures
        match run {
            Ok(o) => r.stdout@ == translated_text(event@, o.stdout@) && r.stderr@ == o.stderr@
                && r.exit_status as int == o.exit_code % 256,
            Err(_) => r.stdout@ == Seq::<char>::empty() && r.stderr@ == Seq::<char>::empty() && r.exit_status == 0,
        },
{
    match run {
        Ok(o) => HookReply {
            stdout: translate(event, o.stdout.as_str()),
            stderr: o.stderr.clone(),
            exit_status: crate::firewall::hook_exit_status(o.exit_code),
        },
        Err(_) => HookReply { stdout: String::new(), stderr: String::new(), exit_status: 0 },
    }
}

} // verus!
