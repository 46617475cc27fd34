//! The plugin manifest (`plugin.json`): its fields, and the rules that
//! resolve the paths it names. Paths inside the plugin must be written
//! `./...` and may not leave the plugin root; runtime paths (writable
//! roots) must be absolute or `~/`-prefixed and may not hold `..`.
//! Finding and reading the file is the caller's part.

use vstd::prelude::*;

use crate::empirica_cli::{path_join, join_path};
use crate::json::{jget, jv, Json, JsonV};
use crate::json_serde::{json_parsed, parse_json};
use crate::text::{chars_of, is_ws, seq_starts_with, string_from_chars, trim, trim_chars};

verus! {

// ───────────────────────────── paths ──────────────────────────────────────

/// The segments of `s` between `/` separators.
pub open spec fn split_slash(s: Seq<char>) -> Seq<Seq<char>>
    decreases s.len(),
{
    if s.len() == 0 {
        seq![Seq::empty()]
    } else {
        let p = split_slash(s.drop_last());
        if s.last() == '/' {
            p.push(Seq::empty())
        } else {
            p.update(p.len() - 1, p.last().push(s.last()))
        }
    }
}

proof fn lemma_split_nonempty(s: Seq<char>)
    ensures
        split_slash(s).len() >= 1,
    decreases s.len(),
{
    if s.len() > 0 {
        lemma_split_nonempty(s.drop_last());
    }
}

fn split_slash_exec(s: &[char]) -> (r: Vec<Vec<char>>)
    ensures
        r@.map_values(|v: Vec<char>| v@) == split_slash(s@),
{
    let mut r: Vec<Vec<char>> = Vec::new();
    r.push(Vec::new());
    let mut i: usize = 0;
    assert(s@.take(0) =~= Seq::<char>::empty());
    assert(r@.map_values(|v: Vec<char>| v@) =~= split_slash(s@.take(0)));
    while i < s.len()
        invariant
            i <= s.len(),
            r@.len() >= 1,
            r@.map_values(|v: Vec<char>| v@) == split_slash(s@.take(i as int)),
        decreases s.len() - i,
    {
        let ghost before = r@.map_values(|v: Vec<char>| v@);
        assert(s@.take(i + 1).drop_last() =~= s@.take(i as int));
        assert(s@.take(i + 1).last() == s@[i as int]);
        if s[i] == '/' {
            r.push(Vec::new());
            assert(r@.map_values(|v: Vec<char>| v@) =~= before.push(Seq::empty()));
        } else {
            let last = r.len() - 1;
            let mut seg = r.pop().unwrap();
            seg.push(s[i]);
            r.push(seg);
            assert(r@.map_values(|v: Vec<char>| v@) =~= before.update(before.len() - 1, before.last().push(s@[i as int])));
        }
        i += 1;
    }
    assert(s@.take(s.len() as int) =~= s@);
    r
}

/// The plain segments of a path relative to the plugin root, in order:
/// empty segments and `.` segments after the first are skipped; `None`
/// when a segment is `..` or the first segment is `.` (a path that does
/// not stay below the root).
pub open spec fn normal_segments(segs: Seq<Seq<char>>) -> Option<Seq<Seq<char>>>
    decreases segs.len(),
{
    if segs.len() == 0 {
        Some(Seq::empty())
    } else {
        match normal_segments(segs.drop_last()) {
            None => None,
            Some(ns) => {
                let seg = segs.last();
                if seg == ".."@ || (seg == "."@ && segs.len() == 1) {
                    None
                } else if seg.len() == 0 || seg == "."@ {
                    Some(ns)
                } else {
                    Some(ns.push(seg))
                }
            },
        }
    }
}

/// Segments joined by `/`.
pub open spec fn join_segments(ns: Seq<Seq<char>>) -> Seq<char>
    decreases ns.len(),
{
    if ns.len() == 0 {
        Seq::empty()
    } else {
        path_join(join_segments(ns.drop_last()), ns.last())
    }
}

/// The path a manifest field names inside the plugin: it must be written
/// `./<relative path>` with a non-empty relative path that does not start
/// at the file-system root and does not leave the plugin root; it resolves
/// to that relative path, normalized, below `root`.
pub open spec fn manifest_path_of(root: Seq<char>, path: Option<Seq<char>>) -> Option<Seq<char>> {
    match path {
        None => None,
        Some(p) => if !seq_starts_with(p, "./"@) || p.len() == 2 {
            None
        } else {
            let rel = p.subrange(2, p.len() as int);
            if rel[0] == '/' {
                None
            } else {
                match normal_segments(split_slash(rel)) {
                    None => None,
                    Some(ns) => Some(path_join(root, join_segments(ns))),
                }
            }
        },
    }
}

/// The view of an optional string slice.
pub open spec fn ostr_ref(o: Option<&str>) -> Option<Seq<char>> {
    match o {
        Some(s) => Some(s@),
        None => None,
    }
}

/// The view of an optional string.
pub open spec fn ostring(o: Option<String>) -> Option<Seq<char>> {
    match o {
        Some(s) => Some(s@),
        None => None,
    }
}

/// Resolve a manifest path field against the plugin root.
pub fn resolve_manifest_path(plugin_root: &str, path: Option<&str>) -> (r: Option<String>)
    ensures
        ostring(r) == manifest_path_of(plugin_root@, ostr_ref(path)),
{
    proof {
        lemma_dot_literals();
    }
    let p = match path {
        None => {
            return None;
        },
        Some(p) => p,
    };
    let v = chars_of(p);
    if !(v.len() >= 2 && v[0] == '.' && v[1] == '/') || v.len() == 2 {
        proof {
            if v@.len() >= 2 && seq_starts_with(p@, "./"@) {
                assert(p@.subrange(0, 2)[0] == p@[0]);
                assert(p@.subrange(0, 2)[1] == p@[1]);
            }
        }
        return None;
    }
    assert(seq_starts_with(p@, "./"@)) by {
        assert(p@.subrange(0, 2) =~= "./"@);
    }
    let rel = v.as_slice().split_at(2).1;
    assert(rel@ =~= p@.subrange(2, p@.len() as int));
    if rel[0] == '/' {
        return None;
    }
    let segs = split_slash_exec(rel);
    let ghost sv = segs@.map_values(|x: Vec<char>| x@);
    let mut normal: Vec<char> = Vec::new();
    let mut i: usize = 0;
    assert(sv.take(0) =~= Seq::<Seq<char>>::empty());
    while i < segs.len()
        invariant
            i <= segs.len(),
            sv == segs@.map_values(|x: Vec<char>| x@),
            sv == split_slash(rel@),
            path == Some(p),
            seq_starts_with(p@, "./"@),
            p@.len() != 2,
            rel@ == p@.subrange(2, p@.len() as int),
            rel@[0] != '/',
            normal_segments(sv.take(i as int)) is Some,
            normal@ == join_segments(normal_segments(sv.take(i as int))->0),
        decreases segs.len() - i,
    {
        let seg = &segs[i];
        assert(sv.take(i + 1).drop_last() =~= sv.take(i as int));
        assert(sv.take(i + 1).last() == seg@);
        proof {
            lemma_dot_literals();
        }
        let is_dot = seg.len() == 1 && seg[0] == '.';
        let is_dotdot = seg.len() == 2 && seg[0] == '.' && seg[1] == '.';
        assert(is_dot == (seg@ == "."@)) by {
            if seg@.len() == 1 && seg@[0] == '.' {
                assert(seg@ =~= "."@);
            }
        }
        assert(is_dotdot == (seg@ == ".."@)) by {
            if seg@.len() == 2 && seg@[0] == '.' && seg@[1] == '.' {
                assert(seg@ =~= ".."@);
            }
        }
        if is_dotdot || (is_dot && i == 0) {
            assert(normal_segments(sv.take(i + 1)) is None);
            proof {
                lemma_normal_none_extends(sv, i as int + 1);
            }
            assert(sv.take(segs.len() as int) =~= sv);
            return None;
        }
        let ghost ns = normal_segments(sv.take(i as int))->0;
        if !(seg.len() == 0 || is_dot) {
            assert(ns.push(seg@).drop_last() =~= ns);
            let joined = join_path(string_from_chars(normal.as_slice()).as_str(), string_from_chars(seg.as_slice()).as_str());
            normal = chars_of(joined.as_str());
        }
        i += 1;
    }
    assert(sv.take(segs.len() as int) =~= sv);
    let rel_text = string_from_chars(normal.as_slice());
    Some(join_path(plugin_root, rel_text.as_str()))
}

proof fn lemma_dot_literals()
    ensures
        "./"@ == seq!['.', '/'],
        "."@ == seq!['.'],
        ".."@ == seq!['.', '.'],
        "~/"@ == seq!['~', '/'],
        "~"@ == seq!['~'],
        "../"@ == seq!['.', '.', '/'],
{
    reveal_strlit("./");
    reveal_strlit(".");
    reveal_strlit("..");
    reveal_strlit("~/");
    reveal_strlit("~");
    reveal_strlit("../");
}

proof fn lemma_normal_none_extends(sv: Seq<Seq<char>>, k: int)
    requires
        0 <= k <= sv.len(),
        normal_segments(sv.take(k)) is None,
    ensures
        normal_segments(sv) is None,
    decreases sv.len() - k,
{
    if k < sv.len() {
        assert(sv.take(k + 1).drop_last() =~= sv.take(k));
        lemma_normal_none_extends(sv, k + 1);
    } else {
        assert(sv.take(k) =~= sv);
    }
}

/// A runtime path entry (such as a writable root) resolved: trimmed; refused
/// when empty or written relative (`./`, `../`, `.`, `..`); `~/...` and `~`
/// expanded against the home directory (refused without one); then refused
/// when it holds a `..` segment or is not absolute.
pub open spec fn runtime_path_of(raw0: Seq<char>, home: Option<Seq<char>>) -> Option<Seq<char>> {
    let raw = trim(raw0);
    if raw.len() == 0 {
        None
    } else if seq_starts_with(raw, "./"@) || seq_starts_with(raw, "../"@) || raw == "."@ || raw == ".."@ {
        None
    } else {
        let expanded: Option<Seq<char>> = if seq_starts_with(raw, "~/"@) {
            match home {
                None => None,
                Some(h) => Some(path_join(h, raw.subrange(2, raw.len() as int))),
            }
        } else if raw == "~"@ {
            home
        } else {
            Some(raw)
        };
        match expanded {
            None => None,
            Some(e) => if split_slash(e).contains(".."@) || !(e.len() > 0 && e[0] == '/') {
                None
            } else {
                Some(e)
            },
        }
    }
}

/// The runtime paths of a list of entries, the refused ones left out.
pub open spec fn runtime_paths_of(paths: Seq<Seq<char>>, home: Option<Seq<char>>) -> Seq<Seq<char>>
    decreases paths.len(),
{
    if paths.len() == 0 {
        Seq::empty()
    } else {
        let rest = runtime_paths_of(paths.drop_last(), home);
        match runtime_path_of(paths.last(), home) {
            Some(p) => rest.push(p),
            None => rest,
        }
    }
}

fn starts_with_lit(v: &[char], lit: &str) -> (b: bool)
    ensures
        b == seq_starts_with(v@, lit@),
{
    let l = chars_of(lit);
    crate::text::starts_with_chars(v, l.as_slice())
}

fn has_dotdot_segment(v: &[char]) -> (b: bool)
    ensures
        b == split_slash(v@).contains(".."@),
{
    let segs = split_slash_exec(v);
    let ghost sv = segs@.map_values(|x: Vec<char>| x@);
    let mut i: usize = 0;
    while i < segs.len()
        invariant
            i <= segs.len(),
            sv == segs@.map_values(|x: Vec<char>| x@),
            sv == split_slash(v@),
            forall|k: int| 0 <= k < i ==> sv[k] != ".."@,
        decreases segs.len() - i,
    {
        proof {
            lemma_dot_literals();
        }
        let seg = &segs[i];
        assert(sv[i as int] == seg@);
        if seg.len() == 2 && seg[0] == '.' && seg[1] == '.' {
            assert(seg@ =~= ".."@);
            return true;
        }
        assert(seg@ != ".."@) by {
            if seg@ == ".."@ {
                assert(seg@.len() == 2 && seg@[0] == '.' && seg@[1] == '.');
            }
        }
        i += 1;
    }
    false
}

/// Resolve one runtime path entry.
pub fn resolve_runtime_path(raw0: &str, home: Option<&str>) -> (r: Option<String>)
    ensures
        ostring(r) == runtime_path_of(raw0@, ostr_ref(home)),
{
    proof {
        lemma_dot_literals();
    }
    let raw = trim_chars(chars_of(raw0).as_slice());
    if raw.len() == 0 {
        return None;
    }
    let is_dot = raw.len() == 1 && raw[0] == '.';
    let is_dotdot = raw.len() == 2 && raw[0] == '.' && raw[1] == '.';
    assert(is_dot == (raw@ == "."@)) by {
        if raw@.len() == 1 && raw@[0] == '.' {
            assert(raw@ =~= "."@);
        }
    }
    assert(is_dotdot == (raw@ == ".."@)) by {
        if raw@.len() == 2 && raw@[0] == '.' && raw@[1] == '.' {
            assert(raw@ =~= ".."@);
        }
    }
    if starts_with_lit(raw.as_slice(), "./") || starts_with_lit(raw.as_slice(), "../") || is_dot || is_dotdot {
        return None;
    }
    let is_tilde = raw.len() == 1 && raw[0] == '~';
    assert(is_tilde == (raw@ == "~"@)) by {
        if raw@.len() == 1 && raw@[0] == '~' {
            assert(raw@ =~= "~"@);
        }
    }
    let expanded: String = if starts_with_lit(raw.as_slice(), "~/") {
        match home {
            None => {
                return None;
            },
            Some(h) => {
                let rest = string_from_chars(raw.as_slice().split_at(2).1);
                assert(rest@ =~= raw@.subrange(2, raw@.len() as int));
                join_path(h, rest.as_str())
            },
        }
    } else if is_tilde {
        match home {
            None => {
                return None;
            },
            Some(h) => h.to_string(),
        }
    } else {
        string_from_chars(raw.as_slice())
    };
    let e = chars_of(expanded.as_str());
    if has_dotdot_segment(e.as_slice()) || !(e.len() > 0 && e[0] == '/') {
        return None;
    }
    Some(expanded)
}

/// Resolve the runtime path entries of a manifest field (none when the
/// field is absent).
pub fn resolve_manifest_runtime_paths(paths: Option<&[String]>, home: Option<&str>) -> (r: Vec<String>)
    ensures
        r@.map_values(|s: String| s@) == match paths {
            Some(ps) => runtime_paths_of(ps@.map_values(|s: String| s@), ostr_ref(home)),
            None => Seq::<Seq<char>>::empty(),
        },
{
    let mut out: Vec<String> = Vec::new();
    let ps = match paths {
        None => {
            assert(out@.map_values(|s: String| s@) =~= Seq::<Seq<char>>::empty());
            return out;
        },
        Some(ps) => ps,
    };
    let ghost pv = ps@.map_values(|s: String| s@);
    let mut i: usize = 0;
    assert(pv.take(0) =~= Seq::<Seq<char>>::empty());
    assert(out@.map_values(|s: String| s@) =~= Seq::<Seq<char>>::empty());
    while i < ps.len()
        invariant
            i <= ps.len(),
            pv == ps@.map_values(|s: String| s@),
            out@.map_values(|s: String| s@) == runtime_paths_of(pv.take(i as int), ostr_ref(home)),
        decreases ps.len() - i,
    {
        assert(pv.take(i + 1).drop_last() =~= pv.take(i as int));
        assert(pv.take(i + 1).last() == ps@[i as int]@);
        let ghost before = out@.map_values(|s: String| s@);
        match resolve_runtime_path(ps[i].as_str(), home) {
            Some(p) => {
                out.push(p);
                assert(out@.map_values(|s: String| s@) =~= before.push(out@[out@.len() - 1]@));
            },
            None => {},
        }
        i += 1;
    }
    assert(pv.take(ps.len() as int) =~= pv);
    out
}

// ───────────────────────────── default prompts ────────────────────────────

/// The words of `s` joined by single spaces, as `split_whitespace` then
/// `join(" ")` give them: the text so far, and whether a space is owed
/// before the next word.
pub open spec fn collapse_ws(s: Seq<char>) -> (Seq<char>, bool)
    decreases s.len(),
{
    if s.len() == 0 {
        (Seq::empty(), false)
    } else {
        let (out, gap) = collapse_ws(s.drop_last());
        let c = s.last();
        if is_ws(c) {
            (out, out.len() > 0)
        } else if gap {
            (out + seq![' ', c], false)
        } else {
            (out.push(c), false)
        }
    }
}

/// A default prompt resolved: its words joined by single spaces; refused
/// when empty or longer than 128 characters.
pub open spec fn default_prompt_of(prompt: Seq<char>) -> Option<Seq<char>> {
    let p = collapse_ws(prompt).0;
    if p.len() == 0 || p.len() > 128 {
        None
    } else {
        Some(p)
    }
}

/// Resolve one default prompt.
pub fn resolve_default_prompt_str(prompt: &str) -> (r: Option<String>)
    ensures
        ostring(r) == default_prompt_of(prompt@),
{
    let v = chars_of(prompt);
    let mut out: Vec<char> = Vec::new();
    let mut gap = false;
    let mut i: usize = 0;
    assert(v@.take(0) =~= Seq::<char>::empty());
    while i < v.len()
        invariant
            i <= v.len(),
            v@ == prompt@,
            (out@, gap) == collapse_ws(v@.take(i as int)),
        decreases v.len() - i,
    {
        assert(v@.take(i + 1).drop_last() =~= v@.take(i as int));
        assert(v@.take(i + 1).last() == v@[i as int]);
        let c = v[i];
        if crate::text::char_is_ws(c) {
            gap = out.len() > 0;
        } else {
            if gap {
                let ghost before = out@;
                out.push(' ');
                out.push(c);
                assert(out@ =~= before + seq![' ', c]);
            } else {
                out.push(c);
            }
            gap = false;
        }
        i += 1;
    }
    assert(v@.take(v.len() as int) =~= v@);
    if out.len() == 0 || out.len() > 128 {
        None
    } else {
        Some(string_from_chars(out.as_slice()))
    }
}

/// The default prompts of a manifest's `defaultPrompt` value: a string
/// gives its one prompt; an array gives its resolved string items, at most
/// three (the rest are not looked at); anything else none.
pub open spec fn default_prompts_of(value: Option<JsonV>) -> Option<Seq<Seq<char>>> {
    match value {
        Some(JsonV::Str(s)) => match default_prompt_of(s) {
            Some(p) => Some(seq![p]),
            None => None,
        },
        Some(JsonV::Array(items)) => {
            let ps = prompts_from_items(items);
            if ps.len() == 0 {
                None
            } else {
                Some(ps)
            }
        },
        _ => None,
    }
}

/// The prompts taken from array items, in order: string items that
/// resolve, until three have been taken.
pub open spec fn prompts_from_items(items: Seq<JsonV>) -> Seq<Seq<char>>
    decreases items.len(),
{
    if items.len() == 0 {
        Seq::empty()
    } else {
        let ps = prompts_from_items(items.drop_last());
        if ps.len() >= 3 {
            ps
        } else {
            match items.last() {
                JsonV::Str(s) => match default_prompt_of(s) {
                    Some(p) => ps.push(p),
                    None => ps,
                },
                _ => ps,
            }
        }
    }
}

/// Resolve a manifest's `defaultPrompt` value.
pub fn resolve_default_prompts(value: Option<&Json>) -> (r: Option<Vec<String>>)
    ensures
        match r {
            Some(v) => default_prompts_of(crate::json::opt_jv(value)) == Some(v@.map_values(|s: String| s@)),
            None => default_prompts_of(crate::json::opt_jv(value)) is None,
        },
{
    match value {
        Some(Json::Str(s)) => match resolve_default_prompt_str(s.as_str()) {
            Some(p) => {
                let mut v: Vec<String> = Vec::new();
                v.push(p);
                assert(v@.map_values(|s: String| s@) =~= seq![v@[0]@]);
                Some(v)
            },
            None => None,
        },
        Some(Json::Array(items)) => {
            let ghost iv = crate::json::items_view(items@);
            proof {
                match jv(*value->0) {
                    JsonV::Array(a) => assert(a =~= iv),
                    _ => {},
                }
            }
            assert(crate::json::opt_jv(value) == Some(JsonV::Array(iv)));
            let mut prompts: Vec<String> = Vec::new();
            let mut i: usize = 0;
            assert(iv.take(0) =~= Seq::<JsonV>::empty());
            assert(prompts@.map_values(|s: String| s@) =~= Seq::<Seq<char>>::empty());
            while i < items.len()
                invariant
                    i <= items.len(),
                    iv == crate::json::items_view(items@),
                    crate::json::opt_jv(value) == Some(JsonV::Array(iv)),
                    prompts@.map_values(|s: String| s@) == prompts_from_items(iv.take(i as int)),
                decreases items.len() - i,
            {
                assert(iv.take(i + 1).drop_last() =~= iv.take(i as int));
                assert(iv.take(i + 1).last() == jv(items@[i as int]));
                if prompts.len() >= 3 {
                    proof {
                        lemma_prompts_saturated(iv, i as int);
                    }
                    assert(iv.take(items.len() as int) =~= iv);
                    return Some(prompts);
                }
                let ghost before = prompts@.map_values(|s: String| s@);
                match &items[i] {
                    Json::Str(s) => match resolve_default_prompt_str(s.as_str()) {
                        Some(p) => {
                            prompts.push(p);
                            assert(prompts@.map_values(|s: String| s@) =~= before.push(prompts@[prompts@.len() - 1]@));
                        },
                        None => {},
                    },
                    _ => {},
                }
                i += 1;
            }
            assert(iv.take(items.len() as int) =~= iv);
            if prompts.len() == 0 {
                None
            } else {
                Some(prompts)
            }
        },
        _ => None,
    }
}

proof fn lemma_prompts_saturated(items: Seq<JsonV>, k: int)
    requires
        0 <= k <= items.len(),
        prompts_from_items(items.take(k)).len() >= 3,
    ensures
        prompts_from_items(items) == prompts_from_items(items.take(k)),
    decreases items.len() - k,
{
    if k < items.len() {
        assert(items.take(k + 1).drop_last() =~= items.take(k));
        lemma_prompts_saturated(items, k + 1);
    } else {
        assert(items.take(k) =~= items);
    }
}

// ───────────────────────────── typed fields ───────────────────────────────

/// An optional string field: absent or `null` is `None`; a string is
/// itself; anything else is a type error (the outer `None`).
pub open spec fn opt_string_field(v: JsonV, k: Seq<char>) -> Option<Option<Seq<char>>> {
    match jget(v, k) {
        None => Some(None),
        Some(JsonV::Null) => Some(None),
        Some(JsonV::Str(s)) => Some(Some(s)),
        _ => None,
    }
}

/// A string field defaulting to empty: absent is empty, a string is
/// itself, anything else (`null` too) a type error.
pub open spec fn string_field(v: JsonV, k: Seq<char>) -> Option<Seq<char>> {
    match jget(v, k) {
        None => Some(Seq::empty()),
        Some(JsonV::Str(s)) => Some(s),
        _ => None,
    }
}

/// Every item is a string.
pub open spec fn all_strs(items: Seq<JsonV>) -> bool {
    forall|i: int| 0 <= i < items.len() ==> #[trigger] items[i] is Str
}

/// The strings of string items.
pub open spec fn strs_of(items: Seq<JsonV>) -> Seq<Seq<char>> {
    items.map_values(|j: JsonV| match j {
        JsonV::Str(s) => s,
        _ => Seq::empty(),
    })
}

/// A string-list field defaulting to empty: absent is empty, an array of
/// strings is its strings, anything else (`null` too) a type error.
pub open spec fn strings_field(v: JsonV, k: Seq<char>) -> Option<Seq<Seq<char>>> {
    match jget(v, k) {
        None => Some(Seq::empty()),
        Some(JsonV::Array(a)) => if all_strs(a) { Some(strs_of(a)) } else { None },
        _ => None,
    }
}

/// An optional string-list field: absent or `null` is `None`, an array
/// of strings is its strings, anything else a type error.
pub open spec fn opt_strings_field(v: JsonV, k: Seq<char>) -> Option<Option<Seq<Seq<char>>>> {
    match jget(v, k) {
        None => Some(None),
        Some(JsonV::Null) => Some(None),
        Some(JsonV::Array(a)) => if all_strs(a) { Some(Some(strs_of(a))) } else { None },
        _ => None,
    }
}

/// An optional string field with an alternative name: both names given is
/// a duplicate (an error); otherwise the one given, read as an optional
/// string.
pub open spec fn aliased_field(v: JsonV, k: Seq<char>, alias: Seq<char>) -> Option<Option<Seq<char>>> {
    if jget(v, k) is Some && jget(v, alias) is Some {
        None
    } else if jget(v, k) is Some {
        opt_string_field(v, k)
    } else {
        opt_string_field(v, alias)
    }
}

fn get_opt_string(v: &Json, k: &str) -> (r: Result<Option<String>, ()>)
    ensures
        match r {
            Ok(o) => opt_string_field(jv(*v), k@) == Some(ostring(o)),
            Err(_) => opt_string_field(jv(*v), k@) is None,
        },
{
    match v.get(k) {
        None => Ok(None),
        Some(Json::Null) => Ok(None),
        Some(Json::Str(s)) => Ok(Some(s.clone())),
        Some(_) => Err(()),
    }
}

fn get_string(v: &Json, k: &str) -> (r: Result<String, ()>)
    ensures
        match r {
            Ok(s) => string_field(jv(*v), k@) == Some(s@),
            Err(_) => string_field(jv(*v), k@) is None,
        },
{
    match v.get(k) {
        None => Ok(String::new()),
        Some(Json::Str(s)) => Ok(s.clone()),
        Some(_) => Err(()),
    }
}

fn strings_of_items(a: &Vec<Json>) -> (r: Option<Vec<String>>)
    ensures
        match r {
            Some(v) => all_strs(crate::json::items_view(a@)) && v@.map_values(|s: String| s@) == strs_of(
                crate::json::items_view(a@),
            ),
            None => !all_strs(crate::json::items_view(a@)),
        },
{
    let ghost iv = crate::json::items_view(a@);
    let mut out: Vec<String> = Vec::new();
    let mut i: usize = 0;
    while i < a.len()
        invariant
            i <= a.len(),
            iv == crate::json::items_view(a@),
            forall|k: int| 0 <= k < i ==> #[trigger] iv[k] is Str,
            out@.map_values(|s: String| s@) == strs_of(iv.take(i as int)),
        decreases a.len() - i,
    {
        let ghost before = out@.map_values(|s: String| s@);
        match &a[i] {
            Json::Str(s) => {
                out.push(s.clone());
                assert(strs_of(iv.take(i + 1)) =~= strs_of(iv.take(i as int)).push(s@));
                assert(out@.map_values(|s: String| s@) =~= before.push(s@));
            },
            _ => {
                assert(!(iv[i as int] is Str));
                return None;
            },
        }
        i += 1;
    }
    assert(iv.take(a.len() as int) =~= iv);
    Some(out)
}

fn get_strings(v: &Json, k: &str) -> (r: Result<Vec<String>, ()>)
    ensures
        match r {
            Ok(s) => strings_field(jv(*v), k@) == Some(s@.map_values(|x: String| x@)),
            Err(_) => strings_field(jv(*v), k@) is None,
        },
{
    match v.get(k) {
        None => {
            let out: Vec<String> = Vec::new();
            assert(out@.map_values(|x: String| x@) =~= Seq::<Seq<char>>::empty());
            Ok(out)
        },
        Some(Json::Array(a)) => {
            proof {
                let j = jget(jv(*v), k@)->0;
                match j {
                    JsonV::Array(x) => assert(x =~= crate::json::items_view(a@)),
                    _ => {},
                }
            }
            match strings_of_items(a) {
                Some(out) => Ok(out),
                None => Err(()),
            }
        },
        Some(_) => Err(()),
    }
}

fn get_opt_strings(v: &Json, k: &str) -> (r: Result<Option<Vec<String>>, ()>)
    ensures
        match r {
            Ok(None) => opt_strings_field(jv(*v), k@) == Some(None::<Seq<Seq<char>>>),
            Ok(Some(s)) => opt_strings_field(jv(*v), k@) == Some(Some(s@.map_values(|x: String| x@))),
            Err(_) => opt_strings_field(jv(*v), k@) is None,
        },
{
    match v.get(k) {
        None => Ok(None),
        Some(Json::Null) => Ok(None),
        Some(Json::Array(a)) => {
            proof {
                let j = jget(jv(*v), k@)->0;
                match j {
                    JsonV::Array(x) => assert(x =~= crate::json::items_view(a@)),
                    _ => {},
                }
            }
            match strings_of_items(a) {
                Some(out) => Ok(Some(out)),
                None => Err(()),
            }
        },
        Some(_) => Err(()),
    }
}

fn get_aliased(v: &Json, k: &str, alias: &str) -> (r: Result<Option<String>, ()>)
    ensures
        match r {
            Ok(o) => aliased_field(jv(*v), k@, alias@) == Some(ostring(o)),
            Err(_) => aliased_field(jv(*v), k@, alias@) is None,
        },
{
    let has_k = v.get(k).is_some();
    let has_alias = v.get(alias).is_some();
    if has_k && has_alias {
        Err(())
    } else if has_k {
        get_opt_string(v, k)
    } else {
        get_opt_string(v, alias)
    }
}

// ───────────────────────────── hooks ──────────────────────────────────────

/// The hooks a manifest contributes: hook files inside the plugin, or
/// inline hook definitions.
#[derive(Debug)]
pub enum PluginManifestHooks {
    Paths(Vec<String>),
    Inline(Vec<Json>),
}

/// The value of a manifest's hooks.
pub enum HooksV {
    Paths(Seq<Seq<char>>),
    Inline(Seq<JsonV>),
}

/// The view of manifest hooks.
pub open spec fn hooks_view(h: PluginManifestHooks) -> HooksV {
    match h {
        PluginManifestHooks::Paths(p) => HooksV::Paths(p@.map_values(|s: String| s@)),
        PluginManifestHooks::Inline(i) => HooksV::Inline(crate::json::items_view(i@)),
    }
}

/// Manifest paths resolved, the refused ones left out.
pub open spec fn manifest_paths_of(root: Seq<char>, raws: Seq<Seq<char>>) -> Seq<Seq<char>>
    decreases raws.len(),
{
    if raws.len() == 0 {
        Seq::empty()
    } else {
        let rest = manifest_paths_of(root, raws.drop_last());
        match manifest_path_of(root, Some(raws.last())) {
            Some(p) => rest.push(p),
            None => rest,
        }
    }
}

/// Every item is an object.
pub open spec fn all_objects(items: Seq<JsonV>) -> bool {
    forall|i: int| 0 <= i < items.len() ==> #[trigger] items[i] is Object
}

/// The hooks of a manifest's `hooks` value: a path, a list of paths
/// (resolved, refused ones left out), one inline definition (an object) or
/// a list of them; nothing for an empty result or any other value.
pub open spec fn hooks_of(root: Seq<char>, value: Option<JsonV>) -> Option<HooksV> {
    match value {
        Some(JsonV::Str(p)) => match manifest_path_of(root, Some(p)) {
            Some(x) => Some(HooksV::Paths(seq![x])),
            None => None,
        },
        Some(JsonV::Array(items)) => if all_strs(items) {
            let ps = manifest_paths_of(root, strs_of(items));
            if ps.len() == 0 {
                None
            } else {
                Some(HooksV::Paths(ps))
            }
        } else if all_objects(items) {
            Some(HooksV::Inline(items))
        } else {
            None
        },
        Some(JsonV::Object(m)) => Some(HooksV::Inline(seq![JsonV::Object(m)])),
        _ => None,
    }
}

/// Resolve a list of manifest paths.
pub fn resolve_manifest_paths(plugin_root: &str, raws: &[String]) -> (r: Vec<String>)
    ensures
        r@.map_values(|s: String| s@) == manifest_paths_of(plugin_root@, raws@.map_values(|s: String| s@)),
{
    let ghost rv = raws@.map_values(|s: String| s@);
    let mut out: Vec<String> = Vec::new();
    let mut i: usize = 0;
    assert(rv.take(0) =~= Seq::<Seq<char>>::empty());
    assert(out@.map_values(|s: String| s@) =~= Seq::<Seq<char>>::empty());
    while i < raws.len()
        invariant
            i <= raws.len(),
            rv == raws@.map_values(|s: String| s@),
            out@.map_values(|s: String| s@) == manifest_paths_of(plugin_root@, rv.take(i as int)),
        decreases raws.len() - i,
    {
        assert(rv.take(i + 1).drop_last() =~= rv.take(i as int));
        assert(rv.take(i + 1).last() == raws@[i as int]@);
        let ghost before = out@.map_values(|s: String| s@);
        match resolve_manifest_path(plugin_root, Some(raws[i].as_str())) {
            Some(p) => {
                out.push(p);
                assert(out@.map_values(|s: String| s@) =~= before.push(out@[out@.len() - 1]@));
            },
            None => {},
        }
        i += 1;
    }
    assert(rv.take(raws.len() as int) =~= rv);
    out
}

fn all_objects_exec(items: &Vec<Json>) -> (b: bool)
    ensures
        b == all_objects(crate::json::items_view(items@)),
{
    let mut i: usize = 0;
    while i < items.len()
        invariant
            i <= items.len(),
            forall|k: int| 0 <= k < i ==> #[trigger] crate::json::items_view(items@)[k] is Object,
        decreases items.len() - i,
    {
        match &items[i] {
            Json::Object(_) => {},
            _ => {
                assert(!(crate::json::items_view(items@)[i as int] is Object));
                return false;
            },
        }
        i += 1;
    }
    true
}

/// Resolve a manifest's `hooks` value.
pub fn resolve_manifest_hooks(plugin_root: &str, value: Option<&Json>) -> (r: Option<PluginManifestHooks>)
    ensures
        match r {
            Some(h) => hooks_of(plugin_root@, crate::json::opt_jv(value)) == Some(hooks_view(h)),
            None => hooks_of(plugin_root@, crate::json::opt_jv(value)) is None,
        },
{
    match value {
        Some(Json::Str(p)) => match resolve_manifest_path(plugin_root, Some(p.as_str())) {
            Some(x) => {
                let mut v: Vec<String> = Vec::new();
                v.push(x);
                assert(v@.map_values(|s: String| s@) =~= seq![v@[0]@]);
                Some(PluginManifestHooks::Paths(v))
            },
            None => None,
        },
        Some(Json::Array(items)) => {
            let ghost iv = crate::json::items_view(items@);
            proof {
                match jv(*value->0) {
                    JsonV::Array(a) => assert(a =~= iv),
                    _ => {},
                }
            }
            match strings_of_items(items) {
                Some(raws) => {
                    let ps = resolve_manifest_paths(plugin_root, raws.as_slice());
                    if ps.len() == 0 {
                        None
                    } else {
                        Some(PluginManifestHooks::Paths(ps))
                    }
                },
                None => {
                    if all_objects_exec(items) {
                        let mut copy: Vec<Json> = Vec::new();
                        let mut i: usize = 0;
                        while i < items.len()
                            invariant
                                i <= items.len(),
                                crate::json::items_view(copy@) == iv.take(i as int),
                                iv == crate::json::items_view(items@),
                            decreases items.len() - i,
                        {
                            crate::json::push_item(&mut copy, items[i].duplicate());
                            assert(iv.take(i + 1) =~= iv.take(i as int).push(jv(items@[i as int])));
                            i += 1;
                        }
                        assert(iv.take(items.len() as int) =~= iv);
                        Some(PluginManifestHooks::Inline(copy))
                    } else {
                        None
                    }
                },
            }
        },
        Some(Json::Object(_)) => {
            let mut v: Vec<Json> = Vec::new();
            let d = value.unwrap().duplicate();
            crate::json::push_item(&mut v, d);
            assert(crate::json::items_view(v@) =~= seq![jv(*value->0)]);
            Some(PluginManifestHooks::Inline(v))
        },
        _ => None,
    }
}

// ───────────────────────────── the interface ─────────────────────────────

/// How the plugin presents itself.
#[derive(Debug)]
pub struct PluginManifestInterface {
    pub display_name: Option<String>,
    pub short_description: Option<String>,
    pub long_description: Option<String>,
    pub developer_name: Option<String>,
    pub category: Option<String>,
    pub capabilities: Vec<String>,
    pub website_url: Option<String>,
    pub privacy_policy_url: Option<String>,
    pub terms_of_service_url: Option<String>,
    pub default_prompt: Option<Vec<String>>,
    pub brand_color: Option<String>,
    pub composer_icon: Option<String>,
    pub logo: Option<String>,
    pub screenshots: Vec<String>,
}

/// The value of a plugin interface.
pub struct InterfaceV {
    pub display_name: Option<Seq<char>>,
    pub short_description: Option<Seq<char>>,
    pub long_description: Option<Seq<char>>,
    pub developer_name: Option<Seq<char>>,
    pub category: Option<Seq<char>>,
    pub capabilities: Seq<Seq<char>>,
    pub website_url: Option<Seq<char>>,
    pub privacy_policy_url: Option<Seq<char>>,
    pub terms_of_service_url: Option<Seq<char>>,
    pub default_prompt: Option<Seq<Seq<char>>>,
    pub brand_color: Option<Seq<char>>,
    pub composer_icon: Option<Seq<char>>,
    pub logo: Option<Seq<char>>,
    pub screenshots: Seq<Seq<char>>,
}

/// The views of a list of strings.
pub open spec fn strs(v: Seq<String>) -> Seq<Seq<char>> {
    v.map_values(|s: String| s@)
}

/// The view of a plugin interface.
pub open spec fn interface_view(i: PluginManifestInterface) -> InterfaceV {
    InterfaceV {
        display_name: ostring(i.display_name),
        short_description: ostring(i.short_description),
        long_description: ostring(i.long_description),
        developer_name: ostring(i.developer_name),
        category: ostring(i.category),
        capabilities: strs(i.capabilities@),
        website_url: ostring(i.website_url),
        privacy_policy_url: ostring(i.privacy_policy_url),
        terms_of_service_url: ostring(i.terms_of_service_url),
        default_prompt: match i.default_prompt {
            Some(v) => Some(strs(v@)),
            None => None,
        },
        brand_color: ostring(i.brand_color),
        composer_icon: ostring(i.composer_icon),
        logo: ostring(i.logo),
        screenshots: strs(i.screenshots@),
    }
}

/// The interface object's fields all have the types they must have.
pub open spec fn interface_fields_ok(o: JsonV) -> bool {
    &&& opt_string_field(o, "displayName"@) is Some
    &&& opt_string_field(o, "shortDescription"@) is Some
    &&& opt_string_field(o, "longDescription"@) is Some
    &&& opt_string_field(o, "developerName"@) is Some
    &&& opt_string_field(o, "category"@) is Some
    &&& strings_field(o, "capabilities"@) is Some
    &&& aliased_field(o, "websiteUrl"@, "websiteURL"@) is Some
    &&& aliased_field(o, "privacyPolicyUrl"@, "privacyPolicyURL"@) is Some
    &&& aliased_field(o, "termsOfServiceUrl"@, "termsOfServiceURL"@) is Some
    &&& opt_string_field(o, "brandColor"@) is Some
    &&& opt_string_field(o, "composerIcon"@) is Some
    &&& opt_string_field(o, "logo"@) is Some
    &&& strings_field(o, "screenshots"@) is Some
}

/// The interface an object describes, asset paths resolved below `root`.
pub open spec fn interface_value(root: Seq<char>, o: JsonV) -> InterfaceV {
    InterfaceV {
        display_name: opt_string_field(o, "displayName"@)->0,
        short_description: opt_string_field(o, "shortDescription"@)->0,
        long_description: opt_string_field(o, "longDescription"@)->0,
        developer_name: opt_string_field(o, "developerName"@)->0,
        category: opt_string_field(o, "category"@)->0,
        capabilities: strings_field(o, "capabilities"@)->0,
        website_url: aliased_field(o, "websiteUrl"@, "websiteURL"@)->0,
        privacy_policy_url: aliased_field(o, "privacyPolicyUrl"@, "privacyPolicyURL"@)->0,
        terms_of_service_url: aliased_field(o, "termsOfServiceUrl"@, "termsOfServiceURL"@)->0,
        default_prompt: default_prompts_of(jget(o, "defaultPrompt"@)),
        brand_color: opt_string_field(o, "brandColor"@)->0,
        composer_icon: manifest_path_of(root, opt_string_field(o, "composerIcon"@)->0),
        logo: manifest_path_of(root, opt_string_field(o, "logo"@)->0),
        screenshots: manifest_paths_of(root, strings_field(o, "screenshots"@)->0),
    }
}

/// The interface has something to show.
pub open spec fn has_fields(i: InterfaceV) -> bool {
    ||| i.display_name is Some
    ||| i.short_description is Some
    ||| i.long_description is Some
    ||| i.developer_name is Some
    ||| i.category is Some
    ||| i.capabilities.len() > 0
    ||| i.website_url is Some
    ||| i.privacy_policy_url is Some
    ||| i.terms_of_service_url is Some
    ||| i.default_prompt is Some
    ||| i.brand_color is Some
    ||| i.composer_icon is Some
    ||| i.logo is Some
    ||| i.screenshots.len() > 0
}

/// The interface of a manifest's `interface` value: nothing when absent,
/// `null`, or without anything to show; a type error (the outer `None`)
/// when it is not an object or a field has the wrong type.
pub open spec fn interface_of(root: Seq<char>, value: Option<JsonV>) -> Option<Option<InterfaceV>> {
    match value {
        None => Some(None),
        Some(JsonV::Null) => Some(None),
        Some(JsonV::Object(m)) => if interface_fields_ok(JsonV::Object(m)) {
            let i = interface_value(root, JsonV::Object(m));
            Some(if has_fields(i) { Some(i) } else { None })
        } else {
            None
        },
        _ => None,
    }
}

/// Read a manifest's `interface` value.
pub fn resolve_interface(plugin_root: &str, value: Option<&Json>) -> (r: Result<Option<PluginManifestInterface>, ()>)
    ensures
        match r {
            Ok(Some(i)) => interface_of(plugin_root@, crate::json::opt_jv(value)) == Some(Some(interface_view(i))),
            Ok(None) => interface_of(plugin_root@, crate::json::opt_jv(value)) == Some(None::<InterfaceV>),
            Err(_) => interface_of(plugin_root@, crate::json::opt_jv(value)) is None,
        },
{
    let o = match value {
        None => {
            return Ok(None);
        },
        Some(Json::Null) => {
            return Ok(None);
        },
        Some(Json::Object(_)) => value.unwrap(),
        Some(_) => {
            return Err(());
        },
    };
    let ghost ov = jv(*o);
    let display_name = get_opt_string(o, "displayName")?;
    let short_description = get_opt_string(o, "shortDescription")?;
    let long_description = get_opt_string(o, "longDescription")?;
    let developer_name = get_opt_string(o, "developerName")?;
    let category = get_opt_string(o, "category")?;
    let capabilities = get_strings(o, "capabilities")?;
    let website_url = get_aliased(o, "websiteUrl", "websiteURL")?;
    let privacy_policy_url = get_aliased(o, "privacyPolicyUrl", "privacyPolicyURL")?;
    let terms_of_service_url = get_aliased(o, "termsOfServiceUrl", "termsOfServiceURL")?;
    let brand_color = get_opt_string(o, "brandColor")?;
    let composer_icon_raw = get_opt_string(o, "composerIcon")?;
    let logo_raw = get_opt_string(o, "logo")?;
    let screenshots_raw = get_strings(o, "screenshots")?;
    let default_prompt = resolve_default_prompts(o.get("defaultPrompt"));
    let composer_icon = resolve_manifest_path(plugin_root, opt_as_str(&composer_icon_raw));
    let logo = resolve_manifest_path(plugin_root, opt_as_str(&logo_raw));
    let screenshots = resolve_manifest_paths(plugin_root, screenshots_raw.as_slice());
    let i = PluginManifestInterface {
        display_name,
        short_description,
        long_description,
        developer_name,
        category,
        capabilities,
        website_url,
        privacy_policy_url,
        terms_of_service_url,
        default_prompt,
        brand_color,
        composer_icon,
        logo,
        screenshots,
    };
    assert(interface_view(i) == interface_value(plugin_root@, ov));
    let has = i.display_name.is_some() || i.short_description.is_some() || i.long_description.is_some()
        || i.developer_name.is_some() || i.category.is_some() || i.capabilities.len() > 0
        || i.website_url.is_some() || i.privacy_policy_url.is_some() || i.terms_of_service_url.is_some()
        || i.default_prompt.is_some() || i.brand_color.is_some() || i.composer_icon.is_some() || i.logo.is_some()
        || i.screenshots.len() > 0;
    if has {
        Ok(Some(i))
    } else {
        Ok(None)
    }
}

fn opt_as_str(o: &Option<String>) -> (r: Option<&str>)
    ensures
        ostr_ref(r) == ostring(*o),
{
    match o {
        Some(s) => Some(s.as_str()),
        None => None,
    }
}

// ───────────────────────────── the manifest ───────────────────────────────

/// The paths a manifest names, resolved.
#[derive(Debug)]
pub struct PluginManifestPaths {
    pub skills: Option<String>,
    pub mcp_servers: Option<String>,
    pub apps: Option<String>,
    pub hooks: Option<PluginManifestHooks>,
    pub statusline: Option<String>,
    pub writable_roots: Vec<String>,
}

/// A plugin's manifest.
#[derive(Debug)]
pub struct PluginManifest {
    pub name: String,
    pub version: Option<String>,
    pub description: Option<String>,
    pub keywords: Vec<String>,
    pub paths: PluginManifestPaths,
    pub interface: Option<PluginManifestInterface>,
}

/// The value of a plugin manifest.
pub struct PluginManifestV {
    pub name: Seq<char>,
    pub version: Option<Seq<char>>,
    pub description: Option<Seq<char>>,
    pub keywords: Seq<Seq<char>>,
    pub skills: Option<Seq<char>>,
    pub mcp_servers: Option<Seq<char>>,
    pub apps: Option<Seq<char>>,
    pub hooks: Option<HooksV>,
    pub statusline: Option<Seq<char>>,
    pub writable_roots: Seq<Seq<char>>,
    pub interface: Option<InterfaceV>,
}

/// The view of a plugin manifest.
pub open spec fn manifest_view(m: PluginManifest) -> PluginManifestV {
    PluginManifestV {
        name: m.name@,
        version: ostring(m.version),
        description: ostring(m.description),
        keywords: strs(m.keywords@),
        skills: ostring(m.paths.skills),
        mcp_servers: ostring(m.paths.mcp_servers),
        apps: ostring(m.paths.apps),
        hooks: match m.paths.hooks {
            Some(h) => Some(hooks_view(h)),
            None => None,
        },
        statusline: ostring(m.paths.statusline),
        writable_roots: strs(m.paths.writable_roots@),
        interface: match m.interface {
            Some(i) => Some(interface_view(i)),
            None => None,
        },
    }
}

/// The manifest's fields all have the types they must have (it is an
/// object, and so is its interface when it has one).
pub open spec fn manifest_fields_ok(root: Seq<char>, v: JsonV) -> bool {
    &&& v is Object
    &&& string_field(v, "name"@) is Some
    &&& opt_string_field(v, "version"@) is Some
    &&& opt_string_field(v, "description"@) is Some
    &&& strings_field(v, "keywords"@) is Some
    &&& opt_string_field(v, "skills"@) is Some
    &&& opt_string_field(v, "mcpServers"@) is Some
    &&& opt_string_field(v, "apps"@) is Some
    &&& opt_string_field(v, "statusline"@) is Some
    &&& opt_strings_field(v, "writableRoots"@) is Some
    &&& interface_of(root, jget(v, "interface"@)) is Some
}

/// The plugin's name: the manifest's, or the plugin directory's name when
/// the manifest's is blank and the directory has one.
pub open spec fn plugin_name(raw: Seq<char>, dir_name: Option<Seq<char>>) -> Seq<char> {
    if trim(raw).len() == 0 && dir_name is Some {
        dir_name->0
    } else {
        raw
    }
}

/// A version string trimmed; blank is no version.
pub open spec fn trimmed_version(v: Option<Seq<char>>) -> Option<Seq<char>> {
    match v {
        Some(s) => if trim(s).len() == 0 { None } else { Some(trim(s)) },
        None => None,
    }
}

/// The manifest a JSON value describes, for a plugin at `root` (whose
/// directory is named `dir_name`) with home directory `home`.
pub open spec fn manifest_value(root: Seq<char>, dir_name: Option<Seq<char>>, home: Option<Seq<char>>, v: JsonV) -> PluginManifestV {
    PluginManifestV {
        name: plugin_name(string_field(v, "name"@)->0, dir_name),
        version: trimmed_version(opt_string_field(v, "version"@)->0),
        description: opt_string_field(v, "description"@)->0,
        keywords: strings_field(v, "keywords"@)->0,
        skills: manifest_path_of(root, opt_string_field(v, "skills"@)->0),
        mcp_servers: manifest_path_of(root, opt_string_field(v, "mcpServers"@)->0),
        apps: manifest_path_of(root, opt_string_field(v, "apps"@)->0),
        hooks: hooks_of(root, jget(v, "hooks"@)),
        statusline: manifest_path_of(root, opt_string_field(v, "statusline"@)->0),
        writable_roots: match opt_strings_field(v, "writableRoots"@)->0 {
            Some(ps) => runtime_paths_of(ps, home),
            None => Seq::empty(),
        },
        interface: interface_of(root, jget(v, "interface"@))->0,
    }
}

/// The manifest of a plugin at `plugin_root` (a directory named
/// `dir_name`) from its JSON value; `None` when a field has the wrong type.
pub fn manifest_from_json(plugin_root: &str, dir_name: Option<&str>, home: Option<&str>, v: &Json) -> (r: Option<PluginManifest>)
    ensures
        match r {
            Some(m) => manifest_fields_ok(plugin_root@, jv(*v)) && manifest_view(m) == manifest_value(
                plugin_root@,
                ostr_ref(dir_name),
                ostr_ref(home),
                jv(*v),
            ),
            None => !manifest_fields_ok(plugin_root@, jv(*v)),
        },
{
    match v {
        Json::Object(_) => {},
        _ => {
            return None;
        },
    }
    let raw_name = match get_string(v, "name") {
        Ok(s) => s,
        Err(_) => {
            return None;
        },
    };
    let version = match get_opt_string(v, "version") {
        Ok(s) => s,
        Err(_) => {
            return None;
        },
    };
    let description = match get_opt_string(v, "description") {
        Ok(s) => s,
        Err(_) => {
            return None;
        },
    };
    let keywords = match get_strings(v, "keywords") {
        Ok(s) => s,
        Err(_) => {
            return None;
        },
    };
    let skills = match get_opt_string(v, "skills") {
        Ok(s) => s,
        Err(_) => {
            return None;
        },
    };
    let mcp_servers = match get_opt_string(v, "mcpServers") {
        Ok(s) => s,
        Err(_) => {
            return None;
        },
    };
    let apps = match get_opt_string(v, "apps") {
        Ok(s) => s,
        Err(_) => {
            return None;
        },
    };
    let statusline = match get_opt_string(v, "statusline") {
        Ok(s) => s,
        Err(_) => {
            return None;
        },
    };
    let writable_roots = match get_opt_strings(v, "writableRoots") {
        Ok(s) => s,
        Err(_) => {
            return None;
        },
    };
    let interface = match resolve_interface(plugin_root, v.get("interface")) {
        Ok(i) => i,
        Err(_) => {
            return None;
        },
    };
    let name_chars = trim_chars(chars_of(raw_name.as_str()).as_slice());
    let name = match dir_name {
        Some(d) => if name_chars.len() == 0 { d.to_string() } else { raw_name },
        None => raw_name,
    };
    let version = match version {
        Some(s) => {
            let t = trim_chars(chars_of(s.as_str()).as_slice());
            if t.len() == 0 {
                None
            } else {
                Some(string_from_chars(t.as_slice()))
            }
        },
        None => None,
    };
    let roots = match &writable_roots {
        Some(ps) => resolve_manifest_runtime_paths(Some(ps.as_slice()), home),
        None => resolve_manifest_runtime_paths(None, home),
    };
    let paths = PluginManifestPaths {
        skills: resolve_manifest_path(plugin_root, opt_as_str(&skills)),
        mcp_servers: resolve_manifest_path(plugin_root, opt_as_str(&mcp_servers)),
        apps: resolve_manifest_path(plugin_root, opt_as_str(&apps)),
        hooks: resolve_manifest_hooks(plugin_root, v.get("hooks")),
        statusline: resolve_manifest_path(plugin_root, opt_as_str(&statusline)),
        writable_roots: roots,
    };
    let m = PluginManifest { name, version, description, keywords, paths, interface };
    assert(manifest_view(m) == manifest_value(plugin_root@, ostr_ref(dir_name), ostr_ref(home), jv(*v)));
    Some(m)
}

/// The manifest of a plugin from the text of its manifest file; `None`
/// when the text is not JSON or a field has the wrong type.
pub fn load_plugin_manifest(plugin_root: &str, dir_name: Option<&str>, home: Option<&str>, contents: &str) -> (r: Option<PluginManifest>)
    ensures
        match json_parsed(contents@) {
            None => r is None,
            Some(v) => match r {
                Some(m) => manifest_fields_ok(plugin_root@, v) && manifest_view(m) == manifest_value(
                    plugin_root@,
                    ostr_ref(dir_name),
                    ostr_ref(home),
                    v,
                ),
                None => !manifest_fields_ok(plugin_root@, v),
            },
        },
{
    match parse_json(contents) {
        None => None,
        Some(v) => manifest_from_json(plugin_root, dir_name, home, &v),
    }
}

} // verus!
