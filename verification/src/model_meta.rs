//! Model metadata as the runtime uses it: the descriptor of a model (the
//! fields the resolution logic reads and writes), the configuration
//! overrides applied to it, and the editing of its instruction text.

use vstd::prelude::*;

use crate::curated_seed::{bundled_seed_rows, entries_view, lookup_in, oentry, ostr, table_lookup, CuratedEntry, CuratedEntryV};
use crate::model_info::{recognize_open_weights_family, recognized_family};
use crate::text::{chars_of, concat3, concat_str, occurs_at, str_eq, string_from_chars};

verus! {

/// How tool output is truncated.
#[derive(Debug, Clone, Copy, PartialEq, Eq, Structural)]
pub enum TruncationMode {
    Bytes,
    Tokens,
}

/// The truncation policy: a mode and a limit in that mode's unit.
#[derive(Debug, Clone, Copy, PartialEq, Eq, Structural)]
pub struct TruncationPolicyConfig {
    pub mode: TruncationMode,
    pub limit: i64,
}

/// The personality the user chose.
#[derive(Debug, Clone, Copy, PartialEq, Eq, Structural)]
pub enum Personality {
    /// No personality text at all.
    NoPersonality,
    Friendly,
    Pragmatic,
}

/// The personality texts an instructions template can be filled with.
#[derive(Debug, Clone, PartialEq, Eq)]
pub struct ModelInstructionsVariables {
    pub personality_default: Option<String>,
    pub personality_friendly: Option<String>,
    pub personality_pragmatic: Option<String>,
}

/// The model-specific messages: an instructions template with its
/// variables, and the approval, auto-review and permission texts.
#[derive(Debug, Clone, PartialEq, Eq)]
pub struct ModelMessages {
    pub instructions_template: Option<String>,
    pub instructions_variables: Option<ModelInstructionsVariables>,
    pub approvals: Option<String>,
    pub auto_review: Option<String>,
    pub permissions: Option<String>,
}

/// The descriptor of a model, as far as resolution and overrides touch it.
#[derive(Debug, Clone, PartialEq, Eq)]
pub struct ModelInfo {
    pub slug: String,
    pub display_name: String,
    pub description: Option<String>,
    pub base_instructions: String,
    pub model_messages: Option<ModelMessages>,
    pub supports_reasoning_summaries: bool,
    pub supports_parallel_tool_calls: bool,
    pub supported_in_api: bool,
    pub priority: i32,
    pub truncation_policy: TruncationPolicyConfig,
    pub context_window: Option<i64>,
    pub max_context_window: Option<i64>,
    pub auto_compact_token_limit: Option<i64>,
    pub effective_context_window_percent: i64,
    pub used_fallback_model_metadata: bool,
}

/// The configuration that overrides a model's descriptor.
#[derive(Debug, Clone, PartialEq, Eq)]
pub struct ModelsManagerConfig {
    pub model_context_window: Option<i64>,
    pub model_auto_compact_token_limit: Option<i64>,
    pub tool_output_token_limit: Option<usize>,
    pub base_instructions: Option<String>,
    pub personality_enabled: bool,
    pub personality: Option<Personality>,
    pub model_supports_reasoning_summaries: Option<bool>,
}

impl Default for ModelsManagerConfig {
    fn default() -> (r: ModelsManagerConfig)
        ensures
            r.model_context_window is None,
            r.model_auto_compact_token_limit is None,
            r.tool_output_token_limit is None,
            r.base_instructions is None,
            !r.personality_enabled,
            r.personality is None,
            r.model_supports_reasoning_summaries is None,
    {
        ModelsManagerConfig {
            model_context_window: None,
            model_auto_compact_token_limit: None,
            tool_output_token_limit: None,
            base_instructions: None,
            personality_enabled: false,
            personality: None,
            model_supports_reasoning_summaries: None,
        }
    }
}

// ───────────────────────────── the personality section ─────────────────────

/// The end of the line that starts at `i`: just past its newline, or the
/// end of the text.
pub open spec fn line_end(s: Seq<char>, i: int) -> int
    decreases s.len() - i,
{
    if i >= s.len() {
        s.len() as int
    } else if s[i] == '\n' {
        i + 1
    } else {
        line_end(s, i + 1)
    }
}

/// The line that starts at `i`, without its newline and a carriage return
/// before it.
pub open spec fn line_at(s: Seq<char>, i: int) -> Seq<char> {
    let e = line_end(s, i);
    let l = s.subrange(i, e);
    let l1 = if l.len() > 0 && l.last() == '\n' { l.drop_last() } else { l };
    if l.len() > 0 && l.last() == '\n' && l1.len() > 0 && l1.last() == '\r' {
        l1.drop_last()
    } else {
        l1
    }
}

/// A level-one Markdown heading: `#` alone or followed by a space or tab.
pub open spec fn is_h1(line: Seq<char>) -> bool {
    line.len() > 0 && line[0] == '#' && (line.len() == 1 || line[1] == ' ' || line[1] == '\t')
}

/// Whether `line` is a level-one heading.
pub fn is_h1_heading(line: &str) -> (b: bool)
    ensures
        b == is_h1(line@),
{
    let v = chars_of(line);
    v.len() > 0 && v[0] == '#' && (v.len() == 1 || v[1] == ' ' || v[1] == '\t')
}

/// The start of the first line at or after `i` that is `# Personality`.
pub open spec fn personality_start(s: Seq<char>, i: int) -> Option<int>
    decreases s.len() - i,
{
    if i < 0 || i >= s.len() {
        None
    } else if line_at(s, i) == "# Personality"@ {
        Some(i)
    } else if line_end(s, i) <= i || line_end(s, i) > s.len() {
        None
    } else {
        personality_start(s, line_end(s, i))
    }
}

/// The start of the first line at or after `i` that is a level-one
/// heading, or the end of the text.
pub open spec fn section_end(s: Seq<char>, i: int) -> int
    decreases s.len() - i,
{
    if i < 0 || i >= s.len() {
        s.len() as int
    } else if is_h1(line_at(s, i)) {
        i
    } else if line_end(s, i) <= i || line_end(s, i) > s.len() {
        s.len() as int
    } else {
        section_end(s, line_end(s, i))
    }
}

/// The instructions without their personality section: from the first
/// `# Personality` line up to the next level-one heading (or the end).
pub open spec fn without_personality(s: Seq<char>) -> Seq<char> {
    match personality_start(s, 0) {
        None => s,
        Some(a) => s.subrange(0, a) + s.subrange(section_end(s, line_end(s, a)), s.len() as int),
    }
}

proof fn lemma_line_end_bounds(s: Seq<char>, i: int)
    requires
        0 <= i < s.len(),
    ensures
        i < line_end(s, i) <= s.len(),
    decreases s.len() - i,
{
    if s[i] != '\n' {
        if i + 1 < s.len() {
            lemma_line_end_bounds(s, i + 1);
        } else {
            assert(line_end(s, i + 1) == s.len());
        }
    }
}

fn line_end_exec(s: &[char], i: usize) -> (e: usize)
    requires
        i < s.len(),
    ensures
        e == line_end(s@, i as int),
{
    let mut k = i;
    while k < s.len() && s[k] != '\n'
        invariant
            i <= k <= s.len(),
            line_end(s@, i as int) == line_end(s@, k as int),
        decreases s.len() - k,
    {
        k += 1;
    }
    if k < s.len() {
        k + 1
    } else {
        k
    }
}

fn line_at_exec(s: &[char], i: usize) -> (r: Vec<char>)
    requires
        i < s.len(),
    ensures
        r@ == line_at(s@, i as int),
{
    let e = line_end_exec(s, i);
    proof {
        lemma_line_end_bounds(s@, i as int);
    }
    let mut r: Vec<char> = Vec::new();
    let mut k = i;
    while k < e
        invariant
            i <= k <= e,
            e <= s.len(),
            r@ == s@.subrange(i as int, k as int),
        decreases e - k,
    {
        r.push(s[k]);
        assert(s@.subrange(i as int, k + 1) =~= s@.subrange(i as int, k as int).push(s@[k as int]));
        k += 1;
    }
    let ghost l = r@;
    if r.len() > 0 && r[r.len() - 1] == '\n' {
        r.pop();
        assert(r@ =~= l.drop_last());
        if r.len() > 0 && r[r.len() - 1] == '\r' {
            let ghost l1 = r@;
            r.pop();
            assert(r@ =~= l1.drop_last());
        }
    }
    r
}

/// The instructions with their personality section removed.
pub fn strip_personality_section(instructions: String) -> (r: String)
    ensures
        r@ == without_personality(instructions@),
{
    let s = chars_of(instructions.as_str());
    let header = chars_of("# Personality");
    let mut i: usize = 0;
    let mut start: Option<usize> = None;
    while i < s.len()
        invariant_except_break
            start is None,
        invariant
            i <= s.len(),
            s@ == instructions@,
            header@ == "# Personality"@,
            personality_start(s@, 0) == personality_start(s@, i as int),
        ensures
            match start {
                None => personality_start(s@, 0) is None,
                Some(a) => personality_start(s@, 0) == Some(a as int) && a < s.len(),
            },
        decreases s.len() - i,
    {
        let line = line_at_exec(s.as_slice(), i);
        if crate::text::chars_eq(line.as_slice(), header.as_slice()) {
            start = Some(i);
            break;
        }
        proof {
            lemma_line_end_bounds(s@, i as int);
        }
        i = line_end_exec(s.as_slice(), i);
    }
    let a = match start {
        None => {
            return instructions;
        },
        Some(a) => a,
    };
    proof {
        lemma_line_end_bounds(s@, a as int);
    }
    let mut j = line_end_exec(s.as_slice(), a);
    let ghost j0 = j as int;
    while j < s.len()
        invariant
            j0 <= j <= s.len(),
            section_end(s@, j0) == section_end(s@, j as int),
        ensures
            j0 <= j <= s.len(),
            section_end(s@, j0) == j as int,
        decreases s.len() - j,
    {
        let line = line_at_exec(s.as_slice(), j);
        if is_h1_heading_chars(line.as_slice()) {
            break;
        }
        proof {
            lemma_line_end_bounds(s@, j as int);
        }
        j = line_end_exec(s.as_slice(), j);
    }
    let b = j;
    let mut out: Vec<char> = Vec::new();
    let mut k: usize = 0;
    while k < a
        invariant
            k <= a,
            a < s.len(),
            out@ == s@.subrange(0, k as int),
        decreases a - k,
    {
        out.push(s[k]);
        assert(s@.subrange(0, k + 1) =~= s@.subrange(0, k as int).push(s@[k as int]));
        k += 1;
    }
    let mut m = b;
    while m < s.len()
        invariant
            a < b <= m <= s.len(),
            out@ == s@.subrange(0, a as int) + s@.subrange(b as int, m as int),
        decreases s.len() - m,
    {
        out.push(s[m]);
        assert(s@.subrange(b as int, m + 1) =~= s@.subrange(b as int, m as int).push(s@[m as int]));
        m += 1;
    }
    assert(out@ =~= without_personality(instructions@));
    string_from_chars(out.as_slice())
}

fn is_h1_heading_chars(v: &[char]) -> (b: bool)
    ensures
        b == is_h1(v@),
{
    v.len() > 0 && v[0] == '#' && (v.len() == 1 || v[1] == ' ' || v[1] == '\t')
}

// ───────────────────────────── configuration overrides ───────────────────

/// The bytes that `tokens` approximate tokens take: four bytes a token,
/// capped at `usize::MAX`.
pub open spec fn approx_bytes(tokens: nat) -> nat {
    if tokens * 4 > usize::MAX {
        usize::MAX as nat
    } else {
        tokens * 4
    }
}

/// The bytes that `tokens` approximate tokens take.
pub fn approx_bytes_for_tokens(tokens: usize) -> (n: usize)
    ensures
        n == approx_bytes(tokens as nat),
{
    match tokens.checked_mul(4) {
        Some(n) => n,
        None => usize::MAX,
    }
}

/// `n` as an `i64`, or `i64::MAX` when it does not fit.
pub open spec fn capped_i64(n: nat) -> i64 {
    if n > i64::MAX {
        i64::MAX
    } else {
        n as i64
    }
}

fn to_i64_capped(n: usize) -> (r: i64)
    ensures
        r == capped_i64(n as nat),
{
    if (n as u64) > 9223372036854775807u64 {
        i64::MAX
    } else {
        n as i64
    }
}

/// The model's messages once the instruction template and its variables
/// are dropped; no messages remain when there are no approval,
/// auto-review or permission texts either.
pub open spec fn cleared(mm: Option<ModelMessages>) -> Option<ModelMessages> {
    match mm {
        None => None,
        Some(m) => if m.approvals is None && m.auto_review is None && m.permissions is None {
            None
        } else {
            Some(ModelMessages { instructions_template: None, instructions_variables: None, ..m })
        },
    }
}

/// `new` is `old` with the instruction template's personality section
/// removed.
pub open spec fn template_stripped(old: Option<ModelMessages>, new: Option<ModelMessages>) -> bool {
    match (old, new) {
        (None, None) => true,
        (Some(o), Some(n)) => {
            &&& n.instructions_variables == o.instructions_variables
            &&& n.approvals == o.approvals
            &&& n.auto_review == o.auto_review
            &&& n.permissions == o.permissions
            &&& match o.instructions_template {
                None => n.instructions_template is None,
                Some(t) => n.instructions_template matches Some(u) && u@ == without_personality(t@),
            }
        },
        _ => false,
    }
}

fn clear_instruction_messages(model: &mut ModelInfo)
    ensures
        final(model).model_messages == cleared(old(model).model_messages),
        final(model).base_instructions == old(model).base_instructions,
        final(model).slug == old(model).slug,
        final(model).display_name == old(model).display_name,
        final(model).description == old(model).description,
        final(model).supports_reasoning_summaries == old(model).supports_reasoning_summaries,
        final(model).supports_parallel_tool_calls == old(model).supports_parallel_tool_calls,
        final(model).supported_in_api == old(model).supported_in_api,
        final(model).priority == old(model).priority,
        final(model).truncation_policy == old(model).truncation_policy,
        final(model).context_window == old(model).context_window,
        final(model).max_context_window == old(model).max_context_window,
        final(model).auto_compact_token_limit == old(model).auto_compact_token_limit,
        final(model).effective_context_window_percent == old(model).effective_context_window_percent,
        final(model).used_fallback_model_metadata == old(model).used_fallback_model_metadata,
{
    match model.model_messages.take() {
        None => {},
        Some(mut m) => {
            m.instructions_template = None;
            m.instructions_variables = None;
            if m.approvals.is_none() && m.auto_review.is_none() && m.permissions.is_none() {
                model.model_messages = None;
            } else {
                model.model_messages = Some(m);
            }
        },
    }
}

/// The configuration override of the context window: the configured
/// window, capped at the model's maximum when it has one.
pub open spec fn overridden_window(model: ModelInfo, config: ModelsManagerConfig) -> Option<i64> {
    match config.model_context_window {
        Some(cw) => Some(
            match model.max_context_window {
                Some(m) => if cw < m { cw } else { m },
                None => cw,
            },
        ),
        None => model.context_window,
    }
}

/// The configuration override of the truncation policy: the tool-output
/// token limit, in bytes (four a token) for a byte policy, in tokens for a
/// token policy.
pub open spec fn overridden_truncation(model: ModelInfo, config: ModelsManagerConfig) -> TruncationPolicyConfig {
    match config.tool_output_token_limit {
        Some(t) => match model.truncation_policy.mode {
            TruncationMode::Bytes => TruncationPolicyConfig {
                mode: TruncationMode::Bytes,
                limit: capped_i64(approx_bytes(t as nat)),
            },
            TruncationMode::Tokens => TruncationPolicyConfig { mode: TruncationMode::Tokens, limit: capped_i64(t as nat) },
        },
        None => model.truncation_policy,
    }
}

/// Apply the configuration's overrides to a model's descriptor: context
/// window, auto-compaction limit, truncation, reasoning-summary support
/// (only ever switched on), and the instructions (replaced by configured
/// base instructions, else stripped of the personality section when the
/// personality is turned off, with the instruction messages dropped when
/// personalities are disabled).
pub fn with_config_overrides(model: ModelInfo, config: &ModelsManagerConfig) -> (r: ModelInfo)
    ensures
        r.slug == model.slug,
        r.display_name == model.display_name,
        r.description == model.description,
        r.supports_parallel_tool_calls == model.supports_parallel_tool_calls,
        r.supported_in_api == model.supported_in_api,
        r.priority == model.priority,
        r.max_context_window == model.max_context_window,
        r.effective_context_window_percent == model.effective_context_window_percent,
        r.used_fallback_model_metadata == model.used_fallback_model_metadata,
        r.context_window == overridden_window(model, *config),
        r.auto_compact_token_limit == match config.model_auto_compact_token_limit {
            Some(l) => Some(l),
            None => model.auto_compact_token_limit,
        },
        r.truncation_policy == overridden_truncation(model, *config),
        r.supports_reasoning_summaries == (model.supports_reasoning_summaries || config.model_supports_reasoning_summaries
            == Some(true)),
        config.base_instructions matches Some(b) ==> r.base_instructions@ == b@ && r.model_messages == cleared(
            model.model_messages,
        ),
        config.base_instructions is None && config.personality_enabled && config.personality == Some(
            Personality::NoPersonality,
        ) ==> r.base_instructions@ == without_personality(model.base_instructions@) && template_stripped(
            model.model_messages,
            r.model_messages,
        ),
        config.base_instructions is None && config.personality_enabled && config.personality != Some(
            Personality::NoPersonality,
        ) ==> r.base_instructions == model.base_instructions && r.model_messages == model.model_messages,
        config.base_instructions is None && !config.personality_enabled ==> r.base_instructions
            == model.base_instructions && r.model_messages == cleared(model.model_messages),
{
    let mut model = model;
    if let Some(context_window) = config.model_context_window {
        model.context_window = Some(
            match model.max_context_window {
                Some(m) => if context_window < m { context_window } else { m },
                None => context_window,
            },
        );
    }
    if let Some(limit) = config.model_auto_compact_token_limit {
        model.auto_compact_token_limit = Some(limit);
    }
    if let Some(token_limit) = config.tool_output_token_limit {
        model.truncation_policy = match model.truncation_policy.mode {
            TruncationMode::Bytes => TruncationPolicyConfig {
                mode: TruncationMode::Bytes,
                limit: to_i64_capped(approx_bytes_for_tokens(token_limit)),
            },
            TruncationMode::Tokens => TruncationPolicyConfig {
                mode: TruncationMode::Tokens,
                limit: to_i64_capped(token_limit),
            },
        };
    }
    if config.model_supports_reasoning_summaries == Some(true) {
        model.supports_reasoning_summaries = true;
    }
    match &config.base_instructions {
        Some(b) => {
            model.base_instructions = b.clone();
            clear_instruction_messages(&mut model);
        },
        None => {
            if config.personality_enabled && config.personality == Some(Personality::NoPersonality) {
                let mut base = String::new();
                std::mem::swap(&mut base, &mut model.base_instructions);
                model.base_instructions = strip_personality_section(base);
                match model.model_messages.take() {
                    None => {},
                    Some(mut m) => {
                        match m.instructions_template.take() {
                            None => {},
                            Some(t) => {
                                m.instructions_template = Some(strip_personality_section(t));
                            },
                        }
                        model.model_messages = Some(m);
                    },
                }
            }
            if !config.personality_enabled {
                clear_instruction_messages(&mut model);
            }
        },
    }
    model
}

// ───────────────────────────── resolution ─────────────────────────────────

/// The personality header of the built-in personality template.
pub open spec fn default_personality_header() -> Seq<char> {
    "You are Codex, a coding agent based on GPT-5. You and the user share the same workspace and collaborate to achieve the user's goals."@
}

/// The friendly personality text.
pub open spec fn friendly_template() -> Seq<char> {
    "You optimize for team morale and being a supportive teammate as much as code quality."@
}

/// The pragmatic personality text.
pub open spec fn pragmatic_template() -> Seq<char> {
    "You are a deeply pragmatic, effective software engineer."@
}

/// The slugs that carry the built-in personality template.
pub open spec fn has_local_personality(slug: Seq<char>) -> bool {
    slug == "gpt-5.2-codex"@ || slug == "exp-codex-personality"@
}

/// The built-in personality messages of a slug, around base instructions
/// `base`: a template of the header, the personality placeholder and the
/// base instructions, with the three personality texts.
pub open spec fn local_messages_ok(m: Option<ModelMessages>, slug: Seq<char>, base: Seq<char>) -> bool {
    if has_local_personality(slug) {
        match m {
            None => false,
            Some(mm) => {
                &&& mm.approvals is None
                &&& mm.auto_review is None
                &&& mm.permissions is None
                &&& ostr(mm.instructions_template) == Some(
                    default_personality_header() + "\n\n{{ personality }}\n\n"@ + base,
                )
                &&& match mm.instructions_variables {
                    None => false,
                    Some(v) => {
                        &&& ostr(v.personality_default) == Some(Seq::<char>::empty())
                        &&& ostr(v.personality_friendly) == Some(friendly_template())
                        &&& ostr(v.personality_pragmatic) == Some(pragmatic_template())
                    },
                }
            },
        }
    } else {
        m is None
    }
}

fn local_personality_messages_for_slug(slug: &str, base: &str) -> (m: Option<ModelMessages>)
    ensures
        local_messages_ok(m, slug@, base@),
{
    if str_eq(slug, "gpt-5.2-codex") || str_eq(slug, "exp-codex-personality") {
        let head = concat_str(
            "You are Codex, a coding agent based on GPT-5. You and the user share the same workspace and collaborate to achieve the user's goals.",
            "\n\n{{ personality }}\n\n",
        );
        let template = concat_str(head.as_str(), base);
        Some(ModelMessages {
            instructions_template: Some(template),
            instructions_variables: Some(ModelInstructionsVariables {
                personality_default: Some(String::new()),
                personality_friendly: Some(
                    "You optimize for team morale and being a supportive teammate as much as code quality.".to_string(),
                ),
                personality_pragmatic: Some("You are a deeply pragmatic, effective software engineer.".to_string()),
            }),
            approvals: None,
            auto_review: None,
            permissions: None,
        })
    } else {
        None
    }
}

/// The fallback descriptor of `slug` with base instructions `base`.
pub open spec fn is_fallback(r: ModelInfo, slug: Seq<char>, base: Seq<char>) -> bool {
    &&& r.slug@ == slug
    &&& r.display_name@ == slug
    &&& r.description is None
    &&& r.base_instructions@ == base
    &&& local_messages_ok(r.model_messages, slug, base)
    &&& !r.supports_reasoning_summaries
    &&& !r.supports_parallel_tool_calls
    &&& r.supported_in_api
    &&& r.priority == 99
    &&& r.truncation_policy == (TruncationPolicyConfig { mode: TruncationMode::Bytes, limit: 10_000 })
    &&& r.context_window == Some(272_000i64)
    &&& r.max_context_window == Some(272_000i64)
    &&& r.auto_compact_token_limit is None
    &&& r.effective_context_window_percent == 95
    &&& r.used_fallback_model_metadata
}

/// A minimal descriptor for a slug nothing describes.
pub fn build_fallback_model_info(slug: &str, base_instructions: &str) -> (r: ModelInfo)
    ensures
        is_fallback(r, slug@, base_instructions@),
{
    ModelInfo {
        slug: slug.to_string(),
        display_name: slug.to_string(),
        description: None,
        base_instructions: base_instructions.to_string(),
        model_messages: local_personality_messages_for_slug(slug, base_instructions),
        supports_reasoning_summaries: false,
        supports_parallel_tool_calls: false,
        supported_in_api: true,
        priority: 99,
        truncation_policy: TruncationPolicyConfig { mode: TruncationMode::Bytes, limit: 10_000 },
        context_window: Some(272_000),
        max_context_window: Some(272_000),
        auto_compact_token_limit: None,
        effective_context_window_percent: 95,
        used_fallback_model_metadata: true,
    }
}

/// `r` is `t` enriched with curated entry `e`: the entry's slug, and each
/// field the entry sets (display name, description, context window as both
/// window and maximum, tool support as parallel tool calls); not marked as
/// fallback metadata; everything else from `t`.
pub open spec fn is_enriched(r: ModelInfo, t: ModelInfo, e: CuratedEntryV) -> bool {
    &&& r.slug@ == e.slug
    &&& r.display_name@ == match e.display_name {
        Some(d) => d,
        None => t.display_name@,
    }
    &&& ostr(r.description) == match e.description {
        Some(d) => Some(d),
        None => ostr(t.description),
    }
    &&& r.context_window == match e.context_window {
        Some(c) => Some(c),
        None => t.context_window,
    }
    &&& r.max_context_window == match e.context_window {
        Some(c) => Some(c),
        None => t.max_context_window,
    }
    &&& r.supports_parallel_tool_calls == match e.supports_tools {
        Some(b) => b,
        None => t.supports_parallel_tool_calls,
    }
    &&& !r.used_fallback_model_metadata
    &&& r.base_instructions == t.base_instructions
    &&& r.model_messages == t.model_messages
    &&& r.supports_reasoning_summaries == t.supports_reasoning_summaries
    &&& r.supported_in_api == t.supported_in_api
    &&& r.priority == t.priority
    &&& r.truncation_policy == t.truncation_policy
    &&& r.auto_compact_token_limit == t.auto_compact_token_limit
    &&& r.effective_context_window_percent == t.effective_context_window_percent
}

/// Enrich a runtime template with a curated entry: default-inherit,
/// explicit-wins.
pub fn enrich(template: ModelInfo, e: &CuratedEntry) -> (r: ModelInfo)
    ensures
        is_enriched(r, template, e@),
{
    let mut t = template;
    t.slug = e.slug.clone();
    if let Some(name) = &e.display_name {
        t.display_name = name.clone();
    }
    if let Some(d) = &e.description {
        t.description = Some(d.clone());
    }
    if let Some(ctx) = e.context_window {
        t.context_window = Some(ctx);
        t.max_context_window = Some(ctx);
    }
    if let Some(tools) = e.supports_tools {
        t.supports_parallel_tool_calls = tools;
    }
    t.used_fallback_model_metadata = false;
    t
}

/// `r` is the fallback descriptor of `slug` tuned to its open-weights
/// family: the family's context window (as window and maximum), display
/// name and description, not marked as fallback metadata.
pub open spec fn is_family_tuned(r: ModelInfo, slug: Seq<char>, base: Seq<char>, fam: (Seq<char>, Seq<char>, int)) -> bool {
    &&& r.slug@ == slug
    &&& r.display_name@ == fam.0
    &&& ostr(r.description) == Some(fam.1)
    &&& r.context_window == Some(fam.2 as i64)
    &&& r.max_context_window == Some(fam.2 as i64)
    &&& !r.used_fallback_model_metadata
    &&& r.base_instructions@ == base
    &&& local_messages_ok(r.model_messages, slug, base)
    &&& !r.supports_reasoning_summaries
    &&& !r.supports_parallel_tool_calls
    &&& r.truncation_policy == (TruncationPolicyConfig { mode: TruncationMode::Bytes, limit: 10_000 })
    &&& r.auto_compact_token_limit is None
}

/// The descriptor of `slug` (base instructions `base`): the curated entry
/// for it in the registry (the bundled seed overlaid by `user`) applied to
/// the fallback; else the fallback tuned to its open-weights family; else
/// the plain fallback.
pub fn model_info_from_slug(slug: &str, base_instructions: &str, user: &[CuratedEntry]) -> (r: ModelInfo)
    ensures
        match table_lookup(bundled_seed_rows() + entries_view(user@), slug@) {
            Some(e) => exists|t: ModelInfo| is_fallback(t, slug@, base_instructions@) && #[trigger] is_enriched(r, t, e),
            None => match recognized_family(slug@) {
                Some(f) => is_family_tuned(r, slug@, base_instructions@, f),
                None => is_fallback(r, slug@, base_instructions@),
            },
        },
{
    let table = crate::registry::all_entries(user);
    let found = lookup_in(table.as_slice(), slug);
    match found {
        Some(entry) => {
            let t = build_fallback_model_info(slug, base_instructions);
            let ghost tg = t;
            let r = enrich(t, &entry);
            assert(is_enriched(r, tg, entry@));
            r
        },
        None => {
            let mut info = build_fallback_model_info(slug, base_instructions);
            match recognize_open_weights_family(slug) {
                Some(known) => {
                    info.context_window = Some(known.context_window);
                    info.max_context_window = Some(known.context_window);
                    info.display_name = known.display_name;
                    info.description = Some(known.family_description);
                    info.used_fallback_model_metadata = false;
                    info
                },
                None => info,
            }
        },
    }
}

} // verus!
