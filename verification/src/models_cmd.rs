//! `models`: the command that refreshes and lists the model registry.
//! Probing providers and writing files is the caller's part; here are the
//! command's arguments, the entries it synthesizes for discovered models,
//! and the lines it lists the registry with.

use vstd::prelude::*;

use crate::curated_seed::{CuratedEntry, CuratedEntryV, ReasoningMeta};
use crate::text::{ascii_lower, chars_of, concat_str, contains_chars, dec_string, dec_text, lower_chars, seq_contains, str_eq, string_from_chars};

verus! {

/// What `models` was asked to do.
#[derive(Debug, Clone, PartialEq, Eq)]
pub enum ModelsSubcommand {
    /// Probe the configured providers and refresh the user's entries.
    Refresh(RefreshArgs),
    /// Show the resolved registry.
    List,
}

/// The arguments of `models refresh`.
#[derive(Debug, Clone, PartialEq, Eq, Default)]
pub struct RefreshArgs {
    /// Only probe these providers (by id); all when empty.
    pub providers: Vec<String>,
    /// Print what would be written without writing it.
    pub dry_run: bool,
    /// Keep every discovered slug, not just recognized coding models.
    pub no_filter: bool,
}

/// Whether provider `id` is probed: all are when no provider was named,
/// else only the named ones.
pub fn provider_selected(args: &RefreshArgs, id: &str) -> (b: bool)
    ensures
        b == (args.providers@.len() == 0 || exists|i: int| 0 <= i < args.providers@.len() && args.providers@[i]@ == id@),
{
    if args.providers.len() == 0 {
        return true;
    }
    let mut i: usize = 0;
    while i < args.providers.len()
        invariant
            i <= args.providers.len(),
            forall|k: int| 0 <= k < i ==> args.providers@[k]@ != id@,
        decreases args.providers.len() - i,
    {
        if str_eq(args.providers[i].as_str(), id) {
            return true;
        }
        i += 1;
    }
    false
}

/// The route label of a provider id: `openrouter`, `local` for local
/// runtimes, else `direct`.
pub open spec fn route_label(provider_id: Seq<char>) -> Seq<char> {
    let p = ascii_lower(provider_id);
    if seq_contains(p, "openrouter"@) {
        "openrouter"@
    } else if seq_contains(p, "ollama"@) || seq_contains(p, "llama"@) || seq_contains(p, "local"@) || seq_contains(
        p,
        "lmstudio"@,
    ) || seq_contains(p, "vllm"@) || p == "oss"@ {
        "local"@
    } else {
        "direct"@
    }
}

/// The route label of provider `provider_id`.
pub fn route_for_provider(provider_id: &str) -> (r: String)
    ensures
        r@ == route_label(provider_id@),
{
    let p = lower_chars(chars_of(provider_id).as_slice());
    let has = |needle: &str| -> (b: bool)
        ensures
            b == seq_contains(p@, needle@),
        { contains_chars(p.as_slice(), chars_of(needle).as_slice()) };
    if has("openrouter") {
        "openrouter".to_string()
    } else if has("ollama") || has("llama") || has("local") || has("lmstudio") || has("vllm") || crate::text::chars_eq(
        p.as_slice(),
        chars_of("oss").as_slice(),
    ) {
        "local".to_string()
    } else {
        "direct".to_string()
    }
}

/// The lean entry synthesized for a slug discovered at provider
/// `provider`: tools and reasoning assumed, the provider's route,
/// calibration `unmeasured`, provenance in `evidence`.
pub open spec fn synthesized(slug: Seq<char>, provider: Seq<char>) -> CuratedEntryV {
    CuratedEntryV {
        slug,
        display_name: None,
        description: None,
        context_window: None,
        supports_tools: Some(true),
        reasoning: Some(true),
        routes: seq![route_label(provider)],
        jurisdiction: None,
        calibration_tier: Some("unmeasured"@),
        last_verified: None,
        evidence: Some("discovered: "@ + provider),
    }
}

/// The entry for `slug`, discovered at provider `provider_id`.
pub fn synthesize_entry(slug: &str, provider_id: &str) -> (e: CuratedEntry)
    ensures
        e@ == synthesized(slug@, provider_id@),
{
    let mut routes: Vec<String> = Vec::new();
    routes.push(route_for_provider(provider_id));
    let e = CuratedEntry {
        slug: slug.to_string(),
        display_name: None,
        description: None,
        context_window: None,
        supports_tools: Some(true),
        reasoning: Some(ReasoningMeta { supported: true }),
        routes,
        jurisdiction: None,
        calibration_tier: Some("unmeasured".to_string()),
        last_verified: None,
        evidence: Some(concat_str("discovered: ", provider_id)),
    };
    assert(e@.routes =~= seq![route_label(provider_id@)]);
    e
}

// ───────────────────────────── listing ─────────────────────────────

/// `s` padded with spaces on the right to at least `w` characters.
pub open spec fn pad_right(s: Seq<char>, w: nat) -> Seq<char> {
    if s.len() >= w {
        s
    } else {
        s + Seq::new((w - s.len()) as nat, |_i: int| ' ')
    }
}

/// `s` padded with spaces on the left to at least `w` characters.
pub open spec fn pad_left(s: Seq<char>, w: nat) -> Seq<char> {
    if s.len() >= w {
        s
    } else {
        Seq::new((w - s.len()) as nat, |_i: int| ' ') + s
    }
}

fn spaces(n: usize) -> (r: Vec<char>)
    ensures
        r@ == Seq::new(n as nat, |_i: int| ' '),
{
    let mut r: Vec<char> = Vec::new();
    let mut i: usize = 0;
    while i < n
        invariant
            i <= n,
            r@ == Seq::new(i as nat, |_i: int| ' '),
        decreases n - i,
    {
        r.push(' ');
        assert(r@ =~= Seq::new((i + 1) as nat, |_i: int| ' '));
        i += 1;
    }
    r
}

fn padded(s: &str, w: usize, left: bool) -> (r: String)
    ensures
        r@ == if left { pad_left(s@, w as nat) } else { pad_right(s@, w as nat) },
{
    let mut v = chars_of(s);
    if v.len() >= w {
        return string_from_chars(v.as_slice());
    }
    let mut pad = spaces(w - v.len());
    if left {
        pad.append(&mut v);
        string_from_chars(pad.as_slice())
    } else {
        v.append(&mut pad);
        string_from_chars(v.as_slice())
    }
}

/// The context window in thousands of tokens (`{c / 1000}k`, the
/// quotient rounded toward zero), or `?` when unknown.
pub open spec fn context_label(c: Option<i64>) -> Seq<char> {
    match c {
        None => "?"@,
        Some(c) => if c < 0 && (-c) / 1000 > 0 {
            "-"@ + dec_text(((-c) / 1000) as nat) + "k"@
        } else if c < 0 {
            "0k"@
        } else {
            dec_text((c / 1000) as nat) + "k"@
        },
    }
}

fn context_text(c: Option<i64>) -> (r: String)
    ensures
        r@ == context_label(c),
{
    match c {
        None => "?".to_string(),
        Some(c) => {
            if c < 0 {
                let a: u64 = (0i128 - (c as i128)) as u64;
                let q = a / 1000;
                if q > 0 {
                    let d = dec_string(q);
                    let t = concat_str("-", d.as_str());
                    concat_str(t.as_str(), "k")
                } else {
                    proof {
                        reveal_strlit("0k");
                    }
                    "0k".to_string()
                }
            } else {
                let d = dec_string((c as u64) / 1000);
                concat_str(d.as_str(), "k")
            }
        },
    }
}

/// The routes joined by commas, or `-` when there are none.
pub open spec fn routes_label(routes: Seq<Seq<char>>) -> Seq<char>
    decreases routes.len(),
{
    if routes.len() == 0 {
        "-"@
    } else if routes.len() == 1 {
        routes[0]
    } else {
        routes_label(routes.drop_last()) + ","@ + routes.last()
    }
}

fn routes_text(routes: &[String]) -> (r: String)
    ensures
        r@ == routes_label(routes@.map_values(|s: String| s@)),
{
    let ghost w = routes@.map_values(|s: String| s@);
    if routes.len() == 0 {
        return "-".to_string();
    }
    let mut out = routes[0].clone();
    let mut i: usize = 1;
    assert(w.take(1) =~= seq![w[0]]);
    while i < routes.len()
        invariant
            1 <= i <= routes.len(),
            w == routes@.map_values(|s: String| s@),
            out@ == routes_label(w.take(i as int)),
        decreases routes.len() - i,
    {
        assert(w.take(i + 1).drop_last() =~= w.take(i as int));
        out = crate::text::concat3(out.as_str(), ",", routes[i].as_str());
        i += 1;
    }
    assert(w.take(routes.len() as int) =~= w);
    out
}

/// One line of `models list`: the slug, the context window, the tools and
/// reasoning marks, the routes and an EU mark, in fixed columns.
pub open spec fn list_line_text(e: CuratedEntryV) -> Seq<char> {
    "  "@ + pad_right(e.slug, 34) + " "@ + pad_left(context_label(e.context_window), 6) + "  "@ + pad_right(
        if e.supports_tools == Some(true) { "tools"@ } else { ""@ },
        5,
    ) + " "@ + pad_right(if e.reasoning == Some(true) { "think"@ } else { ""@ }, 5) + " "@ + routes_label(e.routes)
        + match e.jurisdiction {
        Some(j) => if j.1 { " [EU]"@ } else { ""@ },
        None => ""@,
    }
}

/// The line `models list` shows for `e`.
pub fn list_line(e: &CuratedEntry) -> (r: String)
    ensures
        r@ == list_line_text(e@),
{
    let slug = padded(e.slug.as_str(), 34, false);
    let ctx_t = context_text(e.context_window);
    let ctx = padded(ctx_t.as_str(), 6, true);
    let tools_t = if e.supports_tools == Some(true) { "tools" } else { "" };
    let think_t = match &e.reasoning {
        Some(r) => if r.supported { "think" } else { "" },
        None => "",
    };
    let tools = padded(tools_t, 5, false);
    let think = padded(think_t, 5, false);
    let route = routes_text(e.routes.as_slice());
    let eu = match &e.jurisdiction {
        Some(j) => if j.eu_data_residency { " [EU]" } else { "" },
        None => "",
    };
    let a = crate::text::concat3("  ", slug.as_str(), " ");
    let b = crate::text::concat3(a.as_str(), ctx.as_str(), "  ");
    let c = crate::text::concat3(b.as_str(), tools.as_str(), " ");
    let d = crate::text::concat3(c.as_str(), think.as_str(), " ");
    let f = crate::text::concat3(d.as_str(), route.as_str(), eu);
    proof {
        reveal_strlit("tools");
        reveal_strlit("think");
        reveal_strlit("");
        reveal_strlit(" [EU]");
    }
    f
}

/// The heading of `models list` for `n` entries.
pub fn list_heading(n: usize) -> (r: String)
    ensures
        r@ == "Resolved model registry ("@ + dec_text(n as nat) + " entries):\n"@,
{
    let d = dec_string(n as u64);
    crate::text::concat3("Resolved model registry (", d.as_str(), " entries):\n")
}

/// The URL a refresh probes for a provider's model list: its base URL
/// without trailing slashes, then `/models`; none for a provider with no
/// base URL (not an HTTP provider), which a refresh skips.
pub fn models_url(base_url: Option<&str>) -> (r: Option<String>)
    ensures
        match base_url {
            Some(b) => r matches Some(u) && u@ == crate::ntfy::trim_slashes(b@) + "/models"@,
            None => r is None,
        },
{
    match base_url {
        Some(b) => {
            let t = crate::server::trim_trailing_slashes_str(b);
            proof {
                reveal_strlit("/models");
            }
            Some(concat_str(t.as_str(), "/models"))
        },
        None => None,
    }
}

} // verus!
