//! Where the Empirica hook scripts live and what their process is given:
//! the hooks directory chosen from the environment, the script's path,
//! the session id taken from the hook input, and the environment the
//! script runs with. Running the process is the caller's part.

use vstd::prelude::*;

use crate::json::{jget_str, jv};
use crate::json_serde::{json_parsed, parse_json};
use crate::text::{chars_of, concat3, concat_str, seq_starts_with, starts_with_chars, string_from_chars};

verus! {

/// `rest` pushed onto path `base`, as `PathBuf::push` does on Unix: an
/// absolute `rest` replaces `base`; otherwise a `/` separates them unless
/// `base` is empty or already ends with one.
pub open spec fn path_join(base: Seq<char>, rest: Seq<char>) -> Seq<char> {
    if rest.len() > 0 && rest[0] == '/' {
        rest
    } else if base.len() > 0 && base.last() != '/' {
        base + "/"@ + rest
    } else {
        base + rest
    }
}

/// Push `rest` onto path `base`.
pub fn join_path(base: &str, rest: &str) -> (r: String)
    ensures
        r@ == path_join(base@, rest@),
{
    let b = chars_of(base);
    let r = chars_of(rest);
    if r.len() > 0 && r[0] == '/' {
        return rest.to_string();
    }
    if b.len() > 0 && b[b.len() - 1] != '/' {
        concat3(base, "/", rest)
    } else {
        concat_str(base, rest)
    }
}

/// A path with a leading `~/` expanded against the home directory (when
/// there is one); any other path as it is.
pub open spec fn tilde_expanded(path: Seq<char>, home: Option<Seq<char>>) -> Seq<char> {
    if seq_starts_with(path, "~/"@) && home is Some {
        path_join(home->0, path.subrange(2, path.len() as int))
    } else {
        path
    }
}

/// Expand a leading `~/` of `path` against `home`.
pub fn expand_tilde(path: &str, home: Option<&str>) -> (r: String)
    ensures
        r@ == tilde_expanded(path@, match home {
            Some(h) => Some(h@),
            None => None,
        }),
{
    proof {
        reveal_strlit("~/");
    }
    let v = chars_of(path);
    let prefix = chars_of("~/");
    if starts_with_chars(v.as_slice(), prefix.as_slice()) {
        if let Some(h) = home {
            let rest = string_from_chars(v.as_slice().split_at(2).1);
            assert(rest@ =~= path@.subrange(2, path@.len() as int));
            return join_path(h, rest.as_str());
        }
    }
    path.to_string()
}

/// Where the bundled hook scripts live below the plugin's install root.
pub open spec fn plugin_hooks_subpath() -> Seq<char> {
    "hooks_scripts/hooks"@
}

/// The hooks directory: the `EMPIRICA_HOOKS_DIR` override (tilde-expanded)
/// if set, else `hooks_scripts/hooks` below `PLUGIN_ROOT` if set, else
/// none.
pub open spec fn hooks_dir_of(
    hooks_override: Option<Seq<char>>,
    plugin_root: Option<Seq<char>>,
    home: Option<Seq<char>>,
) -> Option<Seq<char>> {
    match hooks_override {
        Some(raw) => Some(tilde_expanded(raw, home)),
        None => match plugin_root {
            Some(root) => Some(path_join(root, plugin_hooks_subpath())),
            None => None,
        },
    }
}

/// The view of an optional string slice.
pub open spec fn opt_str(o: Option<&str>) -> Option<Seq<char>> {
    match o {
        Some(s) => Some(s@),
        None => None,
    }
}

/// The hooks directory for the given `EMPIRICA_HOOKS_DIR`, `PLUGIN_ROOT`
/// and `HOME`.
pub fn hooks_dir(hooks_override: Option<&str>, plugin_root: Option<&str>, home: Option<&str>) -> (r: Option<String>)
    ensures
        match r {
            Some(d) => hooks_dir_of(opt_str(hooks_override), opt_str(plugin_root), opt_str(home)) == Some(d@),
            None => hooks_dir_of(opt_str(hooks_override), opt_str(plugin_root), opt_str(home)) is None,
        },
{
    match hooks_override {
        Some(raw) => Some(expand_tilde(raw, home)),
        None => match plugin_root {
            Some(root) => {
                proof {
                    reveal_strlit("hooks_scripts/hooks");
                }
                Some(join_path(root, "hooks_scripts/hooks"))
            },
            None => None,
        },
    }
}

/// The session id a hook input carries: its non-empty string `session_id`.
pub open spec fn input_session_id(input: Seq<char>) -> Option<Seq<char>> {
    match json_parsed(input) {
        None => None,
        Some(v) => match jget_str(v, "session_id"@) {
            Some(s) => if s.len() > 0 { Some(s) } else { None },
            None => None,
        },
    }
}

/// The session id of a hook input, if it has a non-empty one.
pub fn extract_session_id_from_input(input_json: &str) -> (r: Option<String>)
    ensures
        match r {
            Some(s) => input_session_id(input_json@) == Some(s@),
            None => input_session_id(input_json@) is None,
        },
{
    let value = match parse_json(input_json) {
        Some(v) => v,
        None => {
            return None;
        },
    };
    match crate::json::get_str(&value, "session_id") {
        Some(s) => {
            if !s.as_str().is_empty() {
                Some(s.clone())
            } else {
                None
            }
        },
        None => None,
    }
}

/// The environment a hook script runs with: the session id as
/// `EMPIRICA_INSTANCE_ID` when the input has one, then
/// `EMPIRICA_CWD_RELIABLE=true` and `EMPIRICA_HARNESS=codex`.
pub open spec fn hook_env_of(input: Seq<char>) -> Seq<(Seq<char>, Seq<char>)> {
    let fixed = seq![("EMPIRICA_CWD_RELIABLE"@, "true"@), ("EMPIRICA_HARNESS"@, "codex"@)];
    match input_session_id(input) {
        Some(id) => seq![("EMPIRICA_INSTANCE_ID"@, id)] + fixed,
        None => fixed,
    }
}

/// The environment variables to set for a hook script given its input.
pub fn hook_env(input_json: &str) -> (r: Vec<(String, String)>)
    ensures
        r@.map_values(|p: (String, String)| (p.0@, p.1@)) == hook_env_of(input_json@),
{
    let mut r: Vec<(String, String)> = Vec::new();
    if let Some(id) = extract_session_id_from_input(input_json) {
        r.push(("EMPIRICA_INSTANCE_ID".to_string(), id));
    }
    r.push(("EMPIRICA_CWD_RELIABLE".to_string(), "true".to_string()));
    r.push(("EMPIRICA_HARNESS".to_string(), "codex".to_string()));
    assert(r@.map_values(|p: (String, String)| (p.0@, p.1@)) =~= hook_env_of(input_json@));
    r
}

} // verus!
