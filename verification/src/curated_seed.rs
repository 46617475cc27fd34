//! The curated model seed: the first layer of model resolution.
//!
//! The bundled seed holds lean per-slug entries (context window, tools,
//! reasoning, route, jurisdiction, calibration tier). A user overlay
//! (`models.user.json`, written by `ecodex models refresh`) uses the same
//! schema and wins on slug collisions. Lookup is by exact slug.

use vstd::prelude::*;

use crate::text::{
    after_last, after_last_exec, ascii_lower, before_first, before_first_exec, chars_of,
    contains_chars, lower_chars, seq_contains, seq_starts_with, starts_with_chars, str_eq,
    CharClass,
};

pub use crate::model_lines::collapse_to_latest_per_line;
pub use crate::registry::all_entries;

verus! {

/// Whether the model supports reasoning ("thinking").
#[derive(Debug, Clone, PartialEq, Eq)]
pub struct ReasoningMeta {
    pub supported: bool,
}

/// Where a model's provider keeps the data it is sent.
#[derive(Debug, Clone, PartialEq, Eq)]
pub struct Jurisdiction {
    pub country: Option<String>,
    pub eu_data_residency: bool,
}

/// A lean curated entry: the only fields a human (or `models refresh`)
/// authors. Everything else about a model comes from the runtime template.
#[derive(Debug, Clone, PartialEq, Eq)]
pub struct CuratedEntry {
    pub slug: String,
    pub display_name: Option<String>,
    pub description: Option<String>,
    pub context_window: Option<i64>,
    pub supports_tools: Option<bool>,
    pub reasoning: Option<ReasoningMeta>,
    pub routes: Vec<String>,
    pub jurisdiction: Option<Jurisdiction>,
    /// Always `unmeasured` on seed; populated from grounded usage.
    pub calibration_tier: Option<String>,
    pub last_verified: Option<String>,
    /// Provenance, e.g. `discovered: <provider>`.
    pub evidence: Option<String>,
}

/// The view of an optional string.
pub open spec fn ostr(o: Option<String>) -> Option<Seq<char>> {
    match o {
        Some(s) => Some(s@),
        None => None,
    }
}

/// The mathematical view of a [`CuratedEntry`].
pub struct CuratedEntryV {
    pub slug: Seq<char>,
    pub display_name: Option<Seq<char>>,
    pub description: Option<Seq<char>>,
    pub context_window: Option<i64>,
    pub supports_tools: Option<bool>,
    pub reasoning: Option<bool>,
    pub routes: Seq<Seq<char>>,
    pub jurisdiction: Option<(Option<Seq<char>>, bool)>,
    pub calibration_tier: Option<Seq<char>>,
    pub last_verified: Option<Seq<char>>,
    pub evidence: Option<Seq<char>>,
}

impl View for CuratedEntry {
    type V = CuratedEntryV;

    open spec fn view(&self) -> CuratedEntryV {
        CuratedEntryV {
            slug: self.slug@,
            display_name: ostr(self.display_name),
            description: ostr(self.description),
            context_window: self.context_window,
            supports_tools: self.supports_tools,
            reasoning: match self.reasoning {
                Some(r) => Some(r.supported),
                None => None,
            },
            routes: self.routes@.map_values(|r: String| r@),
            jurisdiction: match self.jurisdiction {
                Some(j) => Some((ostr(j.country), j.eu_data_residency)),
                None => None,
            },
            calibration_tier: ostr(self.calibration_tier),
            last_verified: ostr(self.last_verified),
            evidence: ostr(self.evidence),
        }
    }
}

/// A copy of an optional string.
pub fn copy_opt_string(o: &Option<String>) -> (r: Option<String>)
    ensures
        ostr(r) == ostr(*o),
{
    match o {
        Some(s) => Some(s.clone()),
        None => None,
    }
}

/// A copy of a list of strings.
pub fn copy_strings(v: &Vec<String>) -> (r: Vec<String>)
    ensures
        r@.map_values(|s: String| s@) == v@.map_values(|s: String| s@),
{
    let mut r: Vec<String> = Vec::new();
    let mut i: usize = 0;
    while i < v.len()
        invariant
            i <= v.len(),
            r@.map_values(|s: String| s@) == v@.take(i as int).map_values(|s: String| s@),
        decreases v.len() - i,
    {
        let ghost before = r@;
        r.push(v[i].clone());
        assert(v@.take(i + 1).map_values(|s: String| s@) =~= v@.take(i as int).map_values(
            |s: String| s@,
        ).push(v@[i as int]@));
        assert(r@.map_values(|s: String| s@) =~= before.map_values(|s: String| s@).push(
            v@[i as int]@,
        ));
        i += 1;
    }
    assert(v@.take(v.len() as int) =~= v@);
    r
}

impl CuratedEntry {
    /// A copy of this entry.
    pub fn duplicate(&self) -> (r: CuratedEntry)
        ensures
            r@ == self@,
    {
        let r = CuratedEntry {
            slug: self.slug.clone(),
            display_name: copy_opt_string(&self.display_name),
            description: copy_opt_string(&self.description),
            context_window: self.context_window,
            supports_tools: self.supports_tools,
            reasoning: match &self.reasoning {
                Some(m) => Some(ReasoningMeta { supported: m.supported }),
                None => None,
            },
            routes: copy_strings(&self.routes),
            jurisdiction: match &self.jurisdiction {
                Some(j) => Some(
                    Jurisdiction {
                        country: copy_opt_string(&j.country),
                        eu_data_residency: j.eu_data_residency,
                    },
                ),
                None => None,
            },
            calibration_tier: copy_opt_string(&self.calibration_tier),
            last_verified: copy_opt_string(&self.last_verified),
            evidence: copy_opt_string(&self.evidence),
        };
        r
    }
}

/// The view of an optional borrowed string.
pub open spec fn ostr_ref(o: Option<&str>) -> Option<Seq<char>> {
    match o {
        Some(s) => Some(s@),
        None => None,
    }
}

/// A bundled seed row: `calibration_tier` is `unmeasured`, no routes, no
/// verification date, no provenance.
pub open spec fn seed_row(
    slug: Seq<char>,
    display_name: Option<Seq<char>>,
    context_window: Option<i64>,
    supports_tools: Option<bool>,
    reasoning: Option<bool>,
    country: Option<Seq<char>>,
) -> CuratedEntryV {
    CuratedEntryV {
        slug,
        display_name,
        description: None,
        context_window,
        supports_tools,
        reasoning,
        routes: Seq::empty(),
        jurisdiction: match country {
            Some(c) => Some((Some(c), true)),
            None => None,
        },
        calibration_tier: Some("unmeasured"@),
        last_verified: None,
        evidence: None,
    }
}

fn seed_entry(
    slug: &str,
    display_name: Option<&str>,
    context_window: Option<i64>,
    supports_tools: Option<bool>,
    reasoning: Option<bool>,
    eu_country: Option<&str>,
) -> (e: CuratedEntry)
    ensures
        e@ == seed_row(
            slug@,
            ostr_ref(display_name),
            context_window,
            supports_tools,
            reasoning,
            ostr_ref(eu_country),
        ),
{
    let e = CuratedEntry {
        slug: slug.to_string(),
        display_name: match display_name {
            Some(d) => Some(d.to_string()),
            None => None,
        },
        description: None,
        context_window,
        supports_tools,
        reasoning: match reasoning {
            Some(b) => Some(ReasoningMeta { supported: b }),
            None => None,
        },
        routes: Vec::new(),
        jurisdiction: match eu_country {
            Some(c) => Some(Jurisdiction { country: Some(c.to_string()), eu_data_residency: true }),
            None => None,
        },
        calibration_tier: Some("unmeasured".to_string()),
        last_verified: None,
        evidence: None,
    };
    assert(e@.routes =~= Seq::<Seq<char>>::empty());
    e
}

/// The bundled seed, row by row.
pub open spec fn bundled_seed_rows() -> Seq<CuratedEntryV> {
    seq![
        seed_row("moonshotai/kimi-k2.6"@, None, Some(262_144), None, None, None),
        seed_row("qwen3-coder:30b"@, Some("Qwen3-Coder 30B-A3B (Alibaba)"@), Some(262_144), Some(true), Some(false), None),
        seed_row("mistralai/devstral-small"@, None, None, None, None, Some("FR"@)),
        seed_row("mistralai/devstral-2512"@, None, None, None, None, Some("FR"@)),
        seed_row("z-ai/glm-5.2"@, None, Some(1_000_000), None, None, None),
        seed_row("openrouter/auto"@, Some("OpenRouter \u{2014} auto (best-of)"@), Some(200_000), None, None, None),
        seed_row("openai/gpt-5.2-codex"@, Some("GPT-5.2 Codex (via OpenRouter)"@), Some(400_000), None, None, None),
        seed_row("x-ai/grok-code-fast-1"@, Some("Grok Code Fast 1 (via OpenRouter)"@), Some(256_000), None, None, None),
        seed_row("google/gemini-2.5-pro"@, Some("Gemini 2.5 Pro (via OpenRouter)"@), Some(1_000_000), None, None, None),
    ]
}

/// The views of a list of entries.
pub open spec fn entries_view(v: Seq<CuratedEntry>) -> Seq<CuratedEntryV> {
    v.map_values(|e: CuratedEntry| e@)
}

/// The bundled curated seed.
pub fn bundled_seed() -> (v: Vec<CuratedEntry>)
    ensures
        entries_view(v@) == bundled_seed_rows(),
{
    let mut v: Vec<CuratedEntry> = Vec::new();
    v.push(seed_entry("moonshotai/kimi-k2.6", None, Some(262_144), None, None, None));
    v.push(seed_entry("qwen3-coder:30b", Some("Qwen3-Coder 30B-A3B (Alibaba)"), Some(262_144), Some(true), Some(false), None));
    v.push(seed_entry("mistralai/devstral-small", None, None, None, None, Some("FR")));
    v.push(seed_entry("mistralai/devstral-2512", None, None, None, None, Some("FR")));
    v.push(seed_entry("z-ai/glm-5.2", None, Some(1_000_000), None, None, None));
    v.push(seed_entry("openrouter/auto", Some("OpenRouter \u{2014} auto (best-of)"), Some(200_000), None, None, None));
    v.push(seed_entry("openai/gpt-5.2-codex", Some("GPT-5.2 Codex (via OpenRouter)"), Some(400_000), None, None, None));
    v.push(seed_entry("x-ai/grok-code-fast-1", Some("Grok Code Fast 1 (via OpenRouter)"), Some(256_000), None, None, None));
    v.push(seed_entry("google/gemini-2.5-pro", Some("Gemini 2.5 Pro (via OpenRouter)"), Some(1_000_000), None, None, None));
    assert(entries_view(v@) =~= bundled_seed_rows());
    v
}

// ───────────────────────────── lookup ─────────────────────────────────────

/// The entry for `slug` in `table`: the last one with that slug, so that
/// later entries (the user overlay) win over earlier ones (the seed).
pub open spec fn table_lookup(table: Seq<CuratedEntryV>, slug: Seq<char>) -> Option<CuratedEntryV>
    decreases table.len(),
{
    if table.len() == 0 {
        None
    } else if table.last().slug == slug {
        Some(table.last())
    } else {
        table_lookup(table.drop_last(), slug)
    }
}

/// The optional view of an optional entry.
pub open spec fn oentry(o: Option<CuratedEntry>) -> Option<CuratedEntryV> {
    match o {
        Some(e) => Some(e@),
        None => None,
    }
}

/// Look `slug` up in a table of entries (later entries win).
pub fn lookup_in(table: &[CuratedEntry], slug: &str) -> (r: Option<CuratedEntry>)
    ensures
        oentry(r) == table_lookup(entries_view(table@), slug@),
{
    let ghost tv = entries_view(table@);
    assert(tv.take(table.len() as int) =~= tv);
    let mut i = table.len();
    while i > 0
        invariant
            i <= table.len(),
            tv == entries_view(table@),
            table_lookup(tv, slug@) == table_lookup(tv.take(i as int), slug@),
        decreases i,
    {
        let ghost t = tv.take(i as int);
        assert(t.last() == table@[i - 1]@);
        assert(t.drop_last() =~= tv.take(i - 1));
        if str_eq(table[i - 1].slug.as_str(), slug) {
            return Some(table[i - 1].duplicate());
        }
        i -= 1;
    }
    None
}

/// The curated table in effect: the bundled seed overlaid by `user`
/// entries, which win on slug collisions.
pub fn overlay(seed: Vec<CuratedEntry>, user: Vec<CuratedEntry>) -> (t: Vec<CuratedEntry>)
    ensures
        entries_view(t@) == entries_view(seed@) + entries_view(user@),
{
    let mut t = seed;
    let mut u = user;
    let ghost s0 = entries_view(t@);
    let ghost u0 = entries_view(u@);
    t.append(&mut u);
    assert(entries_view(t@) =~= s0 + u0);
    t
}

/// An entry of the overlay wins over a seed entry with the same slug: the
/// table maps each slug to the user entry when there is one, else to the
/// seed entry.
pub proof fn lemma_overlay_user_wins(seed: Seq<CuratedEntryV>, user: Seq<CuratedEntryV>, slug: Seq<char>)
    ensures
        table_lookup(seed + user, slug) == (match table_lookup(user, slug) {
            Some(e) => Some(e),
            None => table_lookup(seed, slug),
        }),
    decreases user.len(),
{
    if user.len() == 0 {
        assert(seed + user =~= seed);
    } else {
        assert((seed + user).drop_last() =~= seed + user.drop_last());
        assert((seed + user).last() == user.last());
        lemma_overlay_user_wins(seed, user.drop_last(), slug);
    }
}

/// Where the user overlay lives: `models.user.json` in `$CODEX_HOME` when
/// it is set and non-empty, otherwise in `.codex` under the home
/// directory; none without either.
pub open spec fn user_models_path_of(codex_home: Option<Seq<char>>, home: Option<Seq<char>>) -> Option<Seq<char>> {
    let dir = match codex_home {
        Some(c) => if c.len() > 0 {
            Some(c)
        } else {
            match home {
                Some(h) => Some(crate::empirica_cli::path_join(h, ".codex"@)),
                None => None,
            }
        },
        None => match home {
            Some(h) => Some(crate::empirica_cli::path_join(h, ".codex"@)),
            None => None,
        },
    };
    match dir {
        Some(d) => Some(crate::empirica_cli::path_join(d, "models.user.json"@)),
        None => None,
    }
}

/// Resolve the user overlay's path from the values of `CODEX_HOME` and
/// `HOME`.
pub fn user_models_path(codex_home: Option<&str>, home: Option<&str>) -> (r: Option<String>)
    ensures
        crate::manifest::ostring(r) == user_models_path_of(crate::manifest::ostr_ref(codex_home), crate::manifest::ostr_ref(home)),
{
    proof {
        reveal_strlit(".codex");
        reveal_strlit("models.user.json");
    }
    let dir = match codex_home {
        Some(c) if !c.is_empty() => c.to_string(),
        _ => match home {
            Some(h) => crate::empirica_cli::join_path(h, ".codex"),
            None => {
                return None;
            },
        },
    };
    Some(crate::empirica_cli::join_path(dir.as_str(), "models.user.json"))
}

/// The curated table in effect: the bundled seed overlaid by the user's
/// entries (a user entry wins on a slug both have).
pub open spec fn curated_rows(user: Seq<CuratedEntryV>) -> Seq<CuratedEntryV> {
    bundled_seed_rows() + user
}

/// The bundled seed followed by copies of the user's entries.
fn curated_table_exec(user: &[CuratedEntry]) -> (t: Vec<CuratedEntry>)
    ensures
        entries_view(t@) == curated_rows(entries_view(user@)),
{
    let mut t = bundled_seed();
    let ghost seed = entries_view(t@);
    let mut i: usize = 0;
    while i < user.len()
        invariant
            i <= user.len(),
            seed == bundled_seed_rows(),
            entries_view(t@) == seed + entries_view(user@).take(i as int),
        decreases user.len() - i,
    {
        let ghost before = t@;
        let d = user[i].duplicate();
        t.push(d);
        proof {
            assert(entries_view(user@)[i as int] == user@[i as int]@);
            assert(entries_view(t@) =~= entries_view(before).push(d@));
            assert(entries_view(user@).take(i + 1) =~= entries_view(user@).take(i as int).push(user@[i as int]@));
        }
        assert(entries_view(t@) =~= seed + entries_view(user@).take(i + 1));
        i += 1;
    }
    assert(entries_view(user@).take(user.len() as int) =~= entries_view(user@));
    t
}

/// Look up an exact-slug entry of the curated table in effect, the bundled
/// seed overlaid by the user's entries `user` (layer 1 of model
/// resolution). `None` falls through to the family-prefix table.
pub fn lookup(slug: &str, user: &[CuratedEntry]) -> (r: Option<CuratedEntry>)
    ensures
        oentry(r) == table_lookup(curated_rows(entries_view(user@)), slug@),
{
    let table = curated_table_exec(user);
    lookup_in(table.as_slice(), slug)
}

/// The slugs of the bundled seed (not the user overlay), so that
/// discovery never writes a bundled slug into the user file.
pub fn bundled_slugs() -> (v: Vec<String>)
    ensures
        v@.map_values(|s: String| s@) == bundled_seed_rows().map_values(|e: CuratedEntryV| e.slug),
{
    let seed = bundled_seed();
    let mut v: Vec<String> = Vec::new();
    let mut i: usize = 0;
    while i < seed.len()
        invariant
            i <= seed.len(),
            entries_view(seed@) == bundled_seed_rows(),
            v@.map_values(|s: String| s@) == entries_view(seed@).take(i as int).map_values(
                |e: CuratedEntryV| e.slug,
            ),
        decreases seed.len() - i,
    {
        let ghost before = v@;
        v.push(seed[i].slug.clone());
        assert(v@.map_values(|s: String| s@) =~= before.map_values(|s: String| s@).push(
            seed@[i as int].slug@,
        ));
        assert(entries_view(seed@).take(i + 1).map_values(|e: CuratedEntryV| e.slug)
            =~= entries_view(seed@).take(i as int).map_values(|e: CuratedEntryV| e.slug).push(
            seed@[i as int]@.slug,
        ));
        i += 1;
    }
    assert(entries_view(seed@).take(seed.len() as int) =~= entries_view(seed@));
    v
}

// ───────────────────────────── discovery filter ──────────────────────────

/// Families endorsed for the curated registry ("curated families only").
pub open spec fn curated_families() -> Seq<Seq<char>> {
    seq![
        "kimi"@, "qwen"@, "deepseek"@, "gpt-oss"@, "glm"@, "minimax"@, "mistral"@, "mixtral"@,
        "devstral"@, "codestral"@,
    ]
}

/// Markers of a non-coding variant (OCR, vision, embeddings, audio, ...).
pub open spec fn noncoding_markers() -> Seq<Seq<char>> {
    seq![
        "ocr"@, "vision"@, "-vl"@, "embed"@, "embedding"@, "rerank"@, "audio"@, "tts"@,
        "whisper"@, "image"@, "-base"@, "guard"@, "moderation"@,
    ]
}

/// Markers of an unstable or derivative release (experimental, preview,
/// distillation, dated point release).
pub open spec fn unstable_markers() -> Seq<Seq<char>> {
    seq![
        "-exp"@, "exp-"@, "experimental"@, "-preview"@, "preview-"@, "-rc"@, "-beta"@,
        "-alpha"@, "distill"@, "-terminus"@, "-thinking-"@, "-nightly"@, "-latest-"@,
    ]
}

fn curated_families_exec() -> (v: Vec<&'static str>)
    ensures
        v@.map_values(|s: &str| s@) == curated_families(),
{
    let v = vec![
        "kimi", "qwen", "deepseek", "gpt-oss", "glm", "minimax", "mistral", "mixtral", "devstral",
        "codestral",
    ];
    assert(v@.map_values(|s: &str| s@) =~= curated_families());
    v
}

fn noncoding_markers_exec() -> (v: Vec<&'static str>)
    ensures
        v@.map_values(|s: &str| s@) == noncoding_markers(),
{
    let v = vec![
        "ocr", "vision", "-vl", "embed", "embedding", "rerank", "audio", "tts", "whisper", "image",
        "-base", "guard", "moderation",
    ];
    assert(v@.map_values(|s: &str| s@) =~= noncoding_markers());
    v
}

fn unstable_markers_exec() -> (v: Vec<&'static str>)
    ensures
        v@.map_values(|s: &str| s@) == unstable_markers(),
{
    let v = vec![
        "-exp", "exp-", "experimental", "-preview", "preview-", "-rc", "-beta", "-alpha",
        "distill", "-terminus", "-thinking-", "-nightly", "-latest-",
    ];
    assert(v@.map_values(|s: &str| s@) =~= unstable_markers());
    v
}

/// The bare family-matchable form of a slug: the `<provider>/` namespace
/// and any `:tag` stripped, lower-cased.
pub open spec fn normalized_slug(slug: Seq<char>) -> Seq<char> {
    ascii_lower(before_first(after_last(slug, CharClass::Slash), CharClass::Colon))
}

/// Strip the provider namespace and tag from a slug and lower-case it.
pub fn normalize_slug(slug: &str) -> (r: String)
    ensures
        r@ == normalized_slug(slug@),
{
    let v = chars_of(slug);
    let a = after_last_exec(v.as_slice(), CharClass::Slash);
    let b = before_first_exec(a.as_slice(), CharClass::Colon);
    let c = lower_chars(b.as_slice());
    crate::text::string_from_chars(c.as_slice())
}

/// The slug ends in a bare four-digit snapshot token (a dated pin such as
/// `-2501`): its last `-`/`:`/`/`-separated token is four ASCII digits.
pub open spec fn dated_snapshot(full: Seq<char>) -> bool {
    let tok = after_last(full, CharClass::SlugSeparator);
    tok.len() == 4 && forall|i: int| 0 <= i < 4 ==> '0' <= #[trigger] tok[i] && tok[i] <= '9'
}

/// Whether the slug ends in a dated snapshot token.
pub fn has_dated_snapshot_suffix(full: &str) -> (b: bool)
    ensures
        b == dated_snapshot(full@),
{
    let v = chars_of(full);
    let tok = after_last_exec(v.as_slice(), CharClass::SlugSeparator);
    if tok.len() != 4 {
        return false;
    }
    let mut i: usize = 0;
    while i < 4
        invariant
            tok.len() == 4,
            tok@ == after_last(full@, CharClass::SlugSeparator),
            i <= 4,
            forall|j: int| 0 <= j < i ==> '0' <= #[trigger] tok@[j] && tok@[j] <= '9',
        decreases 4 - i,
    {
        if !('0' <= tok[i] && tok[i] <= '9') {
            let ghost t = after_last(full@, CharClass::SlugSeparator);
            assert(t == tok@);
            assert(!('0' <= t[i as int] && t[i as int] <= '9'));
            assert(!dated_snapshot(full@));
            return false;
        }
        i += 1;
    }
    true
}

/// Some marker of `markers` occurs in `s`.
pub open spec fn has_marker(s: Seq<char>, markers: Seq<Seq<char>>) -> bool {
    exists|i: int| 0 <= i < markers.len() && seq_contains(s, #[trigger] markers[i])
}

/// `s` starts with some member of `prefixes`.
pub open spec fn has_prefix(s: Seq<char>, prefixes: Seq<Seq<char>>) -> bool {
    exists|i: int| 0 <= i < prefixes.len() && seq_starts_with(s, #[trigger] prefixes[i])
}

/// The slug is in `table`.
pub open spec fn table_has(table: Seq<CuratedEntryV>, slug: Seq<char>) -> bool {
    table_lookup(table, slug) is Some
}

/// The discovery policy: keep an exact curated entry; else keep a slug of
/// an endorsed family that carries no non-coding or unstable marker and no
/// dated snapshot suffix.
pub open spec fn discovery_keeps_spec(table: Seq<CuratedEntryV>, slug: Seq<char>) -> bool {
    let norm = normalized_slug(slug);
    let full = ascii_lower(slug);
    ||| table_has(table, slug)
    ||| {
        &&& !has_marker(norm, noncoding_markers())
        &&& !has_marker(full, noncoding_markers())
        &&& !has_marker(full, unstable_markers())
        &&& !dated_snapshot(full)
        &&& has_prefix(norm, curated_families())
    }
}

fn any_marker(s: &[char], markers: &Vec<&'static str>) -> (b: bool)
    ensures
        b == has_marker(s@, markers@.map_values(|m: &str| m@)),
{
    let ghost ms = markers@.map_values(|m: &str| m@);
    let mut i: usize = 0;
    while i < markers.len()
        invariant
            i <= markers.len(),
            ms == markers@.map_values(|m: &str| m@),
            forall|j: int| 0 <= j < i ==> !seq_contains(s@, #[trigger] ms[j]),
        decreases markers.len() - i,
    {
        let m = chars_of(markers[i]);
        if contains_chars(s, m.as_slice()) {
            assert(seq_contains(s@, ms[i as int]));
            return true;
        }
        i += 1;
    }
    false
}

fn any_prefix(s: &[char], prefixes: &Vec<&'static str>) -> (b: bool)
    ensures
        b == has_prefix(s@, prefixes@.map_values(|m: &str| m@)),
{
    let ghost ms = prefixes@.map_values(|m: &str| m@);
    let mut i: usize = 0;
    while i < prefixes.len()
        invariant
            i <= prefixes.len(),
            ms == prefixes@.map_values(|m: &str| m@),
            forall|j: int| 0 <= j < i ==> !seq_starts_with(s@, #[trigger] ms[j]),
        decreases prefixes.len() - i,
    {
        let m = chars_of(prefixes[i]);
        if starts_with_chars(s, m.as_slice()) {
            assert(seq_starts_with(s@, ms[i as int]));
            return true;
        }
        i += 1;
    }
    false
}

/// Discovery filter (curated-families-only policy) against `table`.
pub fn discovery_keeps_in(table: &[CuratedEntry], slug: &str) -> (b: bool)
    ensures
        b == discovery_keeps_spec(entries_view(table@), slug@),
{
    if lookup_in(table, slug).is_some() {
        return true;
    }
    let norm_s = normalize_slug(slug);
    let norm = chars_of(norm_s.as_str());
    let slug_chars = chars_of(slug);
    let full = lower_chars(slug_chars.as_slice());
    let noncoding = noncoding_markers_exec();
    if any_marker(norm.as_slice(), &noncoding) || any_marker(full.as_slice(), &noncoding) {
        return false;
    }
    let unstable = unstable_markers_exec();
    if any_marker(full.as_slice(), &unstable) {
        return false;
    }
    let full_s = crate::text::string_from_chars(full.as_slice());
    if has_dated_snapshot_suffix(full_s.as_str()) {
        return false;
    }
    let families = curated_families_exec();
    any_prefix(norm.as_slice(), &families)
}

/// Discovery filter against the curated table in effect (the bundled seed
/// overlaid by `user`): keep a discovered slug iff it is an exact curated
/// entry, or its family is endorsed and it carries no non-coding marker,
/// no unstable marker and no dated snapshot suffix.
pub fn discovery_keeps(slug: &str, user: &[CuratedEntry]) -> (b: bool)
    ensures
        b == discovery_keeps_spec(curated_rows(entries_view(user@)), slug@),
{
    let table = curated_table_exec(user);
    discovery_keeps_in(table.as_slice(), slug)
}

} // verus!
