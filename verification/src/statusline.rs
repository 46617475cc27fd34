//! What a plugin's status-line script is told on stdin: the Empirica
//! session bound to this shell (found through the instance files an
//! Empirica session writes) and the working directory. Reading the
//! environment and the files is the caller's part.

use vstd::prelude::*;

use crate::json::{jget, jget_str, jv, pairs2, str_json, Json, JsonV};
use crate::json_serde::{json_parsed, json_serialized, parse_json, serialize_json};
use crate::text::{chars_of, concat3, seq_starts_with, str_eq, string_from_chars};
use crate::model_lines::strings_view;
use crate::registry::contains_string;

verus! {

/// `s` without its leading `%` characters.
pub open spec fn without_leading_percent(s: Seq<char>) -> Seq<char>
    decreases s.len(),
{
    if s.len() > 0 && s[0] == '%' {
        without_leading_percent(s.drop_first())
    } else {
        s
    }
}

/// `s` with each `/` replaced by `_`.
pub open spec fn slashes_to_underscores(s: Seq<char>) -> Seq<char> {
    s.map_values(|c: char| if c == '/' { '_' } else { c })
}

/// The instance files to try, in priority order: `<id>.json` for a
/// non-empty `EMPIRICA_INSTANCE_ID`, `tmux_<pane>.json` for `TMUX_PANE`
/// (without its `%`), `term_<id>.json` for `TERM_SESSION_ID` (`/` made
/// `_`), and `wid_<id>.json` for `WINDOWID`.
pub open spec fn instance_candidates(
    explicit: Option<Seq<char>>,
    tmux_pane: Option<Seq<char>>,
    term_session: Option<Seq<char>>,
    window_id: Option<Seq<char>>,
) -> Seq<Seq<char>> {
    (match explicit {
        Some(e) => if e.len() > 0 { seq![e + ".json"@] } else { Seq::empty() },
        None => Seq::empty(),
    }) + (match tmux_pane {
        Some(p) => seq!["tmux_"@ + without_leading_percent(p) + ".json"@],
        None => Seq::empty(),
    }) + (match term_session {
        Some(t) => seq!["term_"@ + slashes_to_underscores(t) + ".json"@],
        None => Seq::empty(),
    }) + (match window_id {
        Some(w) => seq!["wid_"@ + w + ".json"@],
        None => Seq::empty(),
    })
}

fn strip_percent(s: &str) -> (r: String)
    ensures
        r@ == without_leading_percent(s@),
{
    let v = chars_of(s);
    let mut i: usize = 0;
    assert(v@.subrange(0, v@.len() as int) =~= v@);
    while i < v.len() && v[i] == '%'
        invariant
            i <= v.len(),
            v@ == s@,
            without_leading_percent(s@) == without_leading_percent(v@.subrange(i as int, v@.len() as int)),
        decreases v.len() - i,
    {
        assert(v@.subrange(i as int, v@.len() as int).drop_first() =~= v@.subrange(i + 1, v@.len() as int));
        i += 1;
    }
    string_from_chars(v.as_slice().split_at(i).1)
}

fn replace_slashes(s: &str) -> (r: String)
    ensures
        r@ == slashes_to_underscores(s@),
{
    let v = chars_of(s);
    let mut out: Vec<char> = Vec::new();
    let mut i: usize = 0;
    while i < v.len()
        invariant
            i <= v.len(),
            v@ == s@,
            out@ == slashes_to_underscores(v@.take(i as int)),
        decreases v.len() - i,
    {
        out.push(if v[i] == '/' { '_' } else { v[i] });
        assert(slashes_to_underscores(v@.take(i + 1)) =~= slashes_to_underscores(v@.take(i as int)).push(
            if v@[i as int] == '/' { '_' } else { v@[i as int] },
        ));
        i += 1;
    }
    assert(v@.take(v.len() as int) =~= v@);
    string_from_chars(out.as_slice())
}

/// The instance file names to try, in priority order.
pub fn instance_file_candidates(
    explicit: Option<&str>,
    tmux_pane: Option<&str>,
    term_session: Option<&str>,
    window_id: Option<&str>,
) -> (r: Vec<String>)
    ensures
        r@.map_values(|s: String| s@) == instance_candidates(
            crate::manifest::ostr_ref(explicit),
            crate::manifest::ostr_ref(tmux_pane),
            crate::manifest::ostr_ref(term_session),
            crate::manifest::ostr_ref(window_id),
        ),
{
    let mut r: Vec<String> = Vec::new();
    let ghost mut want: Seq<Seq<char>> = Seq::empty();
    if let Some(e) = explicit {
        if !e.is_empty() {
            r.push(crate::text::concat_str(e, ".json"));
            proof {
                want = seq![e@ + ".json"@];
            }
        }
    }
    assert(r@.map_values(|s: String| s@) =~= want);
    if let Some(p) = tmux_pane {
        let n = strip_percent(p);
        r.push(concat3("tmux_", n.as_str(), ".json"));
        proof {
            want = want + seq!["tmux_"@ + without_leading_percent(p@) + ".json"@];
        }
    }
    assert(r@.map_values(|s: String| s@) =~= want);
    if let Some(t) = term_session {
        let n = replace_slashes(t);
        r.push(concat3("term_", n.as_str(), ".json"));
        proof {
            want = want + seq!["term_"@ + slashes_to_underscores(t@) + ".json"@];
        }
    }
    assert(r@.map_values(|s: String| s@) =~= want);
    if let Some(w) = window_id {
        r.push(concat3("wid_", w, ".json"));
        proof {
            want = want + seq!["wid_"@ + w@ + ".json"@];
        }
    }
    assert(r@.map_values(|s: String| s@) =~= want);
    assert(want =~= instance_candidates(
        crate::manifest::ostr_ref(explicit),
        crate::manifest::ostr_ref(tmux_pane),
        crate::manifest::ostr_ref(term_session),
        crate::manifest::ostr_ref(window_id),
    ));
    r
}

/// The session id an instance file names: its `empirica_session_id` when
/// present (a non-string there gives none), else its `session_id`, when a
/// string.
pub open spec fn instance_session_id(content: Seq<char>) -> Option<Seq<char>> {
    match json_parsed(content) {
        None => None,
        Some(v) => match jget(v, "empirica_session_id"@) {
            Some(JsonV::Str(s)) => Some(s),
            Some(_) => None,
            None => jget_str(v, "session_id"@),
        },
    }
}

/// The session id of an instance file's contents.
pub fn read_session_id(content: &str) -> (r: Option<String>)
    ensures
        crate::manifest::ostring(r) == instance_session_id(content@),
{
    let v = match parse_json(content) {
        Some(v) => v,
        None => {
            return None;
        },
    };
    match v.get("empirica_session_id") {
        Some(Json::Str(s)) => Some(s.clone()),
        Some(_) => None,
        None => match crate::json::get_str(&v, "session_id") {
            Some(s) => Some(s.clone()),
            None => None,
        },
    }
}

/// What an instance file offers for the working-directory match: its
/// project path and its session id (`empirica_session_id` if a string,
/// else `session_id` if a string), when it has both.
pub open spec fn instance_binding(content: Seq<char>) -> Option<(Seq<char>, Seq<char>)> {
    match json_parsed(content) {
        None => None,
        Some(v) => {
            let sid = match jget_str(v, "empirica_session_id"@) {
                Some(s) => Some(s),
                None => jget_str(v, "session_id"@),
            };
            match (jget_str(v, "project_path"@), sid) {
                (Some(pp), Some(s)) => Some((pp, s)),
                _ => None,
            }
        },
    }
}

/// The project path and session id of an instance file's contents.
pub fn read_instance_binding(content: &str) -> (r: Option<(String, String)>)
    ensures
        match r {
            Some((pp, s)) => instance_binding(content@) == Some((pp@, s@)),
            None => instance_binding(content@) is None,
        },
{
    let v = match parse_json(content) {
        Some(v) => v,
        None => {
            return None;
        },
    };
    let sid = match crate::json::get_str(&v, "empirica_session_id") {
        Some(s) => Some(s.clone()),
        None => match crate::json::get_str(&v, "session_id") {
            Some(s) => Some(s.clone()),
            None => None,
        },
    };
    match (crate::json::get_str(&v, "project_path"), sid) {
        (Some(pp), Some(s)) => Some((pp.clone(), s)),
        _ => None,
    }
}

/// An instance file seen in the directory: when it was last written (in
/// any unit that orders times), and what it binds.
pub struct InstanceEntry {
    pub modified: u128,
    pub binding: Option<(String, String)>,
}

/// The session of the newest instance file whose project path is a prefix
/// of the working directory (the first of equally new ones).
pub open spec fn newest_match(entries: Seq<InstanceEntry>, cwd: Seq<char>) -> Option<(u128, Seq<char>)>
    decreases entries.len(),
{
    if entries.len() == 0 {
        None
    } else {
        let best = newest_match(entries.drop_last(), cwd);
        let e = entries.last();
        match e.binding {
            Some((pp, sid)) => if seq_starts_with(cwd, pp@) {
                match best {
                    None => Some((e.modified, sid@)),
                    Some((t, s)) => if e.modified > t { Some((e.modified, sid@)) } else { Some((t, s)) },
                }
            } else {
                best
            },
            None => best,
        }
    }
}

/// The session bound to the working directory by the newest matching
/// instance file, if any.
pub fn session_for_cwd(entries: &[InstanceEntry], cwd: &str) -> (r: Option<String>)
    ensures
        crate::manifest::ostring(r) == match newest_match(entries@, cwd@) {
            Some((_, s)) => Some(s),
            None => None,
        },
{
    let c = chars_of(cwd);
    let mut best: Option<(u128, String)> = None;
    let mut i: usize = 0;
    while i < entries.len()
        invariant
            i <= entries.len(),
            c@ == cwd@,
            match best {
                None => newest_match(entries@.take(i as int), cwd@) is None,
                Some((t, s)) => newest_match(entries@.take(i as int), cwd@) == Some((t, s@)),
            },
        decreases entries.len() - i,
    {
        assert(entries@.take(i + 1).drop_last() =~= entries@.take(i as int));
        assert(entries@.take(i + 1).last() == entries@[i as int]);
        let e = &entries[i];
        match &e.binding {
            Some((pp, sid)) => {
                let p = chars_of(pp.as_str());
                if crate::text::starts_with_chars(c.as_slice(), p.as_slice()) {
                    let better = match &best {
                        None => true,
                        Some((t, _)) => e.modified > *t,
                    };
                    if better {
                        best = Some((e.modified, sid.clone()));
                    }
                }
            },
            None => {},
        }
        i += 1;
    }
    assert(entries@.take(entries.len() as int) =~= entries@);
    match best {
        Some((_, s)) => Some(s),
        None => None,
    }
}

/// The stdin a status-line script gets: an object with the session id and
/// the working directory, each when known (`{}` when neither is), as
/// serde_json writes it.
pub open spec fn stdin_payload(session_id: Option<Seq<char>>, cwd: Option<Seq<char>>) -> Seq<char> {
    let members = (match session_id {
        Some(s) => seq![("session_id"@, JsonV::Str(s))],
        None => Seq::empty(),
    }) + (match cwd {
        Some(c) => seq![("cwd"@, JsonV::Str(c))],
        None => Seq::empty(),
    });
    if members.len() == 0 {
        "{}"@
    } else {
        match json_serialized(JsonV::Object(members)) {
            Some(t) => t,
            None => Seq::empty(),
        }
    }
}

/// The stdin for a status-line script.
pub fn build_statusline_stdin_payload(session_id: Option<&str>, cwd: Option<&str>) -> (r: String)
    ensures
        r@ == stdin_payload(crate::manifest::ostr_ref(session_id), crate::manifest::ostr_ref(cwd)),
{
    let mut members: Vec<(String, Json)> = Vec::new();
    if let Some(s) = session_id {
        crate::json::push_member(&mut members, "session_id", str_json(s));
    }
    if let Some(c) = cwd {
        crate::json::push_member(&mut members, "cwd", str_json(c));
    }
    let ghost want = (match crate::manifest::ostr_ref(session_id) {
        Some(s) => seq![("session_id"@, JsonV::Str(s))],
        None => Seq::<(Seq<char>, JsonV)>::empty(),
    }) + (match crate::manifest::ostr_ref(cwd) {
        Some(c) => seq![("cwd"@, JsonV::Str(c))],
        None => Seq::<(Seq<char>, JsonV)>::empty(),
    });
    assert(crate::json::members_view(members@) =~= want);
    if members.len() == 0 {
        return "{}".to_string();
    }
    let obj = crate::json::object(members);
    match serialize_json(&obj) {
        Some(t) => t,
        None => String::new(),
    }
}

/// What to change so that one status-line task runs per wanted plugin:
/// the running tasks to abort and the plugins to start a task for.
pub struct SourceSync {
    pub abort: Vec<String>,
    pub spawn: Vec<String>,
}

/// Reconcile the plugins that have a running task with the plugins whose
/// status line is wanted now: abort each running one no longer wanted,
/// start one for each wanted plugin not yet running (once, however often
/// it is listed).
pub fn sync_sources(running: &[String], wanted: &[String]) -> (r: SourceSync)
    ensures
        forall|x: Seq<char>| #[trigger] strings_view(r.abort@).contains(x) <==> (strings_view(running@).contains(x)
            && !strings_view(wanted@).contains(x)),
        forall|x: Seq<char>| #[trigger] strings_view(r.spawn@).contains(x) <==> (strings_view(wanted@).contains(x)
            && !strings_view(running@).contains(x)),
        strings_view(r.spawn@).no_duplicates(),
{
    let mut abort: Vec<String> = Vec::new();
    let mut i: usize = 0;
    while i < running.len()
        invariant
            i <= running.len(),
            forall|x: Seq<char>| #[trigger] strings_view(abort@).contains(x) <==> (strings_view(
                running@.subrange(0, i as int),
            ).contains(x) && !strings_view(wanted@).contains(x)),
        decreases running.len() - i,
    {
        let ghost before = strings_view(abort@);
        let ghost x = running@[i as int]@;
        let ghost pre = strings_view(running@.subrange(0, i as int));
        let keep = contains_string(wanted, running[i].as_str());
        if !keep {
            abort.push(running[i].clone());
            proof {
                assert(strings_view(abort@) =~= before.push(x));
            }
        }
        proof {
            let after = strings_view(running@.subrange(0, i + 1));
            assert(after =~= pre.push(x));
            lemma_push_contains(pre, x);
            if !keep {
                lemma_push_contains(before, x);
            }
        }
        i += 1;
    }
    assert(running@.subrange(0, running.len() as int) =~= running@);
    let mut spawn: Vec<String> = Vec::new();
    let mut j: usize = 0;
    while j < wanted.len()
        invariant
            j <= wanted.len(),
            strings_view(spawn@).no_duplicates(),
            forall|x: Seq<char>| #[trigger] strings_view(spawn@).contains(x) <==> (strings_view(
                wanted@.subrange(0, j as int),
            ).contains(x) && !strings_view(running@).contains(x)),
            forall|x: Seq<char>| #[trigger] strings_view(abort@).contains(x) <==> (strings_view(running@).contains(x)
                && !strings_view(wanted@).contains(x)),
        decreases wanted.len() - j,
    {
        let ghost before = strings_view(spawn@);
        let ghost x = wanted@[j as int]@;
        let ghost pre = strings_view(wanted@.subrange(0, j as int));
        let is_running = contains_string(running, wanted[j].as_str());
        let seen = contains_string(&spawn, wanted[j].as_str());
        if !is_running && !seen {
            spawn.push(wanted[j].clone());
            proof {
                assert(strings_view(spawn@) =~= before.push(x));
                lemma_push_keeps_distinct(before, x);
            }
        }
        proof {
            let after = strings_view(wanted@.subrange(0, j + 1));
            assert(after =~= pre.push(x));
            lemma_push_contains(pre, x);
            if !is_running && !seen {
                lemma_push_contains(before, x);
            }
        }
        j += 1;
    }
    assert(wanted@.subrange(0, wanted.len() as int) =~= wanted@);
    SourceSync { abort, spawn }
}

/// What `s.push(x)` contains: what `s` does, and `x`.
proof fn lemma_push_contains(s: Seq<Seq<char>>, x: Seq<char>)
    ensures
        forall|y: Seq<char>| #[trigger] s.push(x).contains(y) <==> (s.contains(y) || y == x),
{
    assert forall|y: Seq<char>| #[trigger] s.push(x).contains(y) <==> (s.contains(y) || y == x) by {
        if s.push(x).contains(y) {
            let k = choose|k: int| 0 <= k < s.push(x).len() && s.push(x)[k] == y;
            if k < s.len() {
                assert(s[k] == y);
            }
        }
        if s.contains(y) {
            let k = choose|k: int| 0 <= k < s.len() && s[k] == y;
            assert(s.push(x)[k] == y);
        }
        if y == x {
            assert(s.push(x)[s.len() as int] == y);
        }
    }
}

/// Pushing an element not yet present keeps a sequence free of duplicates.
proof fn lemma_push_keeps_distinct(s: Seq<Seq<char>>, x: Seq<char>)
    requires
        s.no_duplicates(),
        !s.contains(x),
    ensures
        s.push(x).no_duplicates(),
{
    assert forall|a: int, b: int| 0 <= a < s.push(x).len() && 0 <= b < s.push(x).len() && a != b implies s.push(x)[a]
        != s.push(x)[b] by {
        if a == s.len() {
            assert(s[b] == s.push(x)[b]);
        } else if b == s.len() {
            assert(s[a] == s.push(x)[a]);
        }
    }
}

/// After a reconciliation, the plugins with a task (those running and not
/// aborted, and those started) are exactly the wanted ones.
pub proof fn lemma_sync_runs_exactly_wanted(
    running: Seq<Seq<char>>,
    wanted: Seq<Seq<char>>,
    abort: Seq<Seq<char>>,
    spawn: Seq<Seq<char>>,
)
    requires
        forall|x: Seq<char>| #[trigger] abort.contains(x) <==> (running.contains(x) && !wanted.contains(x)),
        forall|x: Seq<char>| #[trigger] spawn.contains(x) <==> (wanted.contains(x) && !running.contains(x)),
    ensures
        forall|x: Seq<char>| ((running.contains(x) && !abort.contains(x)) || spawn.contains(x)) <==> wanted.contains(x),
{
    assert forall|x: Seq<char>| ((running.contains(x) && !abort.contains(x)) || spawn.contains(x)) <==> wanted.contains(
        x,
    ) by {
        assert(abort.contains(x) <==> (running.contains(x) && !wanted.contains(x)));
        assert(spawn.contains(x) <==> (wanted.contains(x) && !running.contains(x)));
    }
}

} // verus!
