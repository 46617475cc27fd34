//! The ntfy wake-listener's configuration: credential resolution, the
//! subscribe URL scoped to this instance, and the auth header.

use vstd::prelude::*;

use base64::Engine;

use crate::text::{chars_of, concat3, concat_str, is_blank, str_is_blank, string_from_chars, trim, trim_chars};

verus! {

/// Resolved ntfy connection and auth configuration.
#[derive(Debug, Clone, PartialEq, Eq)]
pub struct NtfyListenerConfig {
    /// Base URL, e.g. `https://ntfy.getempirica.com`.
    pub url: String,
    /// Topic, e.g. `orchestration-events`.
    pub topic: String,
    /// Access token (bearer auth).
    pub token: Option<String>,
    /// Basic-auth user (the token is preferred).
    pub user: Option<String>,
    /// Basic-auth password.
    pub password: Option<String>,
    /// This instance's `ai_id`: the tag filter of the subscription.
    pub ai_id: String,
}

/// Why the listener configuration could not be resolved.
#[derive(Debug, Clone, PartialEq, Eq)]
pub enum NtfyConfigError {
    /// No credentials file at this path.
    NotFound(String),
    /// The credentials file could not be read.
    Io { path: String, message: String },
    /// The credentials file is not valid YAML of the expected shape.
    Parse { path: String, message: String },
    /// These required settings are missing (comma-separated).
    Incomplete(String),
    /// No `ai_id` in the project file or the environment, and no usable
    /// project directory name.
    UnresolvedAiId,
}

/// The `ntfy:` settings of one source (the credentials file, or the
/// environment).
#[derive(Debug, Clone, Default, PartialEq, Eq)]
pub struct NtfySettings {
    pub url: Option<String>,
    pub topic: Option<String>,
    pub token: Option<String>,
    pub user: Option<String>,
    pub password: Option<String>,
}

/// The view of an optional string.
pub open spec fn ov(o: Option<String>) -> Option<Seq<char>> {
    match o {
        Some(s) => Some(s@),
        None => None,
    }
}

/// `o` holds a non-empty string.
pub open spec fn present(o: Option<Seq<char>>) -> bool {
    match o {
        Some(s) => s.len() > 0,
        None => false,
    }
}

/// The environment value when set, else the file value.
pub open spec fn prefer(env: Option<Seq<char>>, file: Option<Seq<char>>) -> Option<Seq<char>> {
    match env {
        Some(e) => Some(e),
        None => file,
    }
}

/// The settings that are missing, in the order they are reported.
pub open spec fn missing_settings(s: NtfySettings) -> Seq<Seq<char>> {
    (if present(ov(s.url)) { Seq::empty() } else { seq!["url"@] }) + (if present(ov(s.topic)) {
        Seq::empty()
    } else {
        seq!["topic"@]
    }) + (if present(ov(s.token)) || (present(ov(s.user)) && present(ov(s.password))) {
        Seq::empty()
    } else {
        seq!["token (or user+password)"@]
    })
}

/// `parts` joined by `sep`.
pub open spec fn joined(parts: Seq<Seq<char>>, sep: Seq<char>) -> Seq<char>
    decreases parts.len(),
{
    if parts.len() == 0 {
        Seq::empty()
    } else if parts.len() == 1 {
        parts[0]
    } else {
        joined(parts.drop_last(), sep) + sep + parts.last()
    }
}

fn pick(env: &Option<String>, file: &Option<String>) -> (r: Option<String>)
    ensures
        ov(r) == prefer(ov(*env), ov(*file)),
{
    match env {
        Some(e) => Some(e.clone()),
        None => match file {
            Some(f) => Some(f.clone()),
            None => None,
        },
    }
}

fn is_present(o: &Option<String>) -> (b: bool)
    ensures
        b == present(ov(*o)),
{
    match o {
        Some(s) => !s.as_str().is_empty(),
        None => false,
    }
}

/// Combine the environment overrides (which win) with the credentials
/// file, and check that a URL, a topic and either a token or a user and
/// password are present.
pub fn load_config_from(file: &NtfySettings, env: &NtfySettings, ai_id: String) -> (r: Result<
    NtfyListenerConfig,
    NtfyConfigError,
>)
    ensures
        ({
            let eff_url = prefer(ov(env.url), ov(file.url));
            let eff_topic = prefer(ov(env.topic), ov(file.topic));
            let eff_token = prefer(ov(env.token), ov(file.token));
            let eff_user = prefer(ov(env.user), ov(file.user));
            let eff_password = prefer(ov(env.password), ov(file.password));
            let missing = (if present(eff_url) { Seq::empty() } else { seq!["url"@] }) + (if present(
                eff_topic,
            ) {
                Seq::empty()
            } else {
                seq!["topic"@]
            }) + (if present(eff_token) || (present(eff_user) && present(eff_password)) {
                Seq::empty()
            } else {
                seq!["token (or user+password)"@]
            });
            match r {
                Ok(c) => missing.len() == 0 && Some(c.url@) == eff_url && Some(c.topic@) == eff_topic
                    && ov(c.token) == eff_token && ov(c.user) == eff_user && ov(c.password) == eff_password
                    && c.ai_id == ai_id,
                Err(e) => missing.len() > 0 && (e matches NtfyConfigError::Incomplete(m) && m@ == joined(
                    missing,
                    ", "@,
                )),
            }
        }),
{
    let url = pick(&env.url, &file.url);
    let topic = pick(&env.topic, &file.topic);
    let token = pick(&env.token, &file.token);
    let user = pick(&env.user, &file.user);
    let password = pick(&env.password, &file.password);
    let mut missing: Vec<&str> = Vec::new();
    if !is_present(&url) {
        missing.push("url");
    }
    if !is_present(&topic) {
        missing.push("topic");
    }
    if !(is_present(&token) || (is_present(&user) && is_present(&password))) {
        missing.push("token (or user+password)");
    }
    let ghost mv = missing@.map_values(|s: &str| s@);
    assert(mv =~= (if present(ov(url)) { Seq::empty() } else { seq!["url"@] }) + (if present(ov(topic)) {
        Seq::empty()
    } else {
        seq!["topic"@]
    }) + (if present(ov(token)) || (present(ov(user)) && present(ov(password))) {
        Seq::empty()
    } else {
        seq!["token (or user+password)"@]
    }));
    if missing.len() > 0 {
        let mut m = missing[0].to_string();
        let mut i: usize = 1;
        assert(mv.take(1) =~= seq![mv[0]]);
        while i < missing.len()
            invariant
                1 <= i <= missing.len(),
                mv == missing@.map_values(|s: &str| s@),
                m@ == joined(mv.take(i as int), ", "@),
            decreases missing.len() - i,
        {
            m = concat3(m.as_str(), ", ", missing[i]);
            assert(mv.take(i + 1).drop_last() =~= mv.take(i as int));
            i += 1;
        }
        assert(mv.take(missing.len() as int) =~= mv);
        return Err(NtfyConfigError::Incomplete(m));
    }
    let url_s = match url {
        Some(u) => u,
        None => String::new(),
    };
    let topic_s = match topic {
        Some(t) => t,
        None => String::new(),
    };
    Ok(NtfyListenerConfig { url: url_s, topic: topic_s, token, user, password, ai_id })
}


/// `s` without its trailing slashes.
pub open spec fn trim_slashes(s: Seq<char>) -> Seq<char>
    decreases s.len(),
{
    if s.len() > 0 && s.last() == '/' {
        trim_slashes(s.drop_last())
    } else {
        s
    }
}

/// A byte that stays as it is in a URL path segment or query value: an
/// ASCII letter or digit, or one of `-`, `_`, `.`, `~`.
pub open spec fn url_safe(b: u8) -> bool {
    (48 <= b <= 57) || (65 <= b <= 90) || (97 <= b <= 122) || b == 45 || b == 95 || b == 46 || b == 126
}

/// The uppercase hexadecimal digit for `d < 16`.
pub open spec fn upper_hex(d: int) -> char {
    if d < 10 {
        ((48 + d) as u32) as char
    } else {
        ((55 + d) as u32) as char
    }
}

/// Percent-encoding of bytes: safe bytes as their character, others as
/// `%XX` (uppercase hexadecimal).
pub open spec fn pct_encode(bs: Seq<u8>) -> Seq<char>
    decreases bs.len(),
{
    if bs.len() == 0 {
        Seq::empty()
    } else {
        let b = bs.last();
        pct_encode(bs.drop_last()) + if url_safe(b) {
            seq![(b as u32) as char]
        } else {
            seq!['%', upper_hex((b / 16) as int), upper_hex((b % 16) as int)]
        }
    }
}

fn upper_hex_exec(d: u8) -> (c: char)
    requires
        d < 16,
    ensures
        c == upper_hex(d as int),
{
    if d < 10 {
        (48 + d) as char
    } else {
        (55 + d) as char
    }
}

/// Percent-encode the UTF-8 bytes of `s`.
pub fn encode_url_component(s: &str) -> (r: String)
    ensures
        r@ == pct_encode(vstd::utf8::encode_utf8(s@)),
{
    let bytes = s.as_bytes();
    let mut out: Vec<char> = Vec::new();
    let mut i: usize = 0;
    while i < bytes.len()
        invariant
            i <= bytes.len(),
            out@ == pct_encode(bytes@.take(i as int)),
        decreases bytes.len() - i,
    {
        let b = bytes[i];
        assert(bytes@.take(i + 1).drop_last() =~= bytes@.take(i as int));
        let ghost before = out@;
        let safe = (48 <= b && b <= 57) || (65 <= b && b <= 90) || (97 <= b && b <= 122) || b == 45
            || b == 95 || b == 46 || b == 126;
        if safe {
            out.push(b as char);
            assert(out@ =~= before + seq![(b as u32) as char]);
        } else {
            out.push('%');
            out.push(upper_hex_exec(b / 16));
            out.push(upper_hex_exec(b % 16));
            assert(out@ =~= before + seq!['%', upper_hex((b / 16) as int), upper_hex((b % 16) as int)]);
        }
        i += 1;
    }
    assert(bytes@.take(bytes.len() as int) =~= bytes@);
    string_from_chars(out.as_slice())
}

fn trim_trailing_slashes(v: &[char]) -> (r: Vec<char>)
    ensures
        r@ == trim_slashes(v@),
{
    let mut n = v.len();
    assert(v@.take(n as int) =~= v@);
    while n > 0 && v[n - 1] == '/'
        invariant
            n <= v.len(),
            trim_slashes(v@) == trim_slashes(v@.take(n as int)),
        decreases n,
    {
        assert(v@.take(n as int).drop_last() =~= v@.take(n - 1));
        n -= 1;
    }
    let mut r: Vec<char> = Vec::new();
    let mut k: usize = 0;
    while k < n
        invariant
            k <= n,
            n <= v.len(),
            r@ == v@.take(k as int),
        decreases n - k,
    {
        r.push(v[k]);
        assert(v@.take(k + 1) =~= v@.take(k as int).push(v@[k as int]));
        k += 1;
    }
    r
}

/// The JSON-stream subscribe URL scoped to this instance:
/// `<url without trailing slashes>/<topic>/json?tags=<ai_id>`, topic and
/// `ai_id` percent-encoded.
pub open spec fn subscribe_url(c: NtfyListenerConfig) -> Seq<char> {
    trim_slashes(c.url@) + "/"@ + pct_encode(vstd::utf8::encode_utf8(c.topic@)) + "/json?tags="@ + pct_encode(
        vstd::utf8::encode_utf8(c.ai_id@),
    )
}

/// Build the subscribe URL of `config`.
pub fn build_subscribe_url(config: &NtfyListenerConfig) -> (r: String)
    ensures
        r@ == subscribe_url(*config),
{
    let base_v = trim_trailing_slashes(chars_of(config.url.as_str()).as_slice());
    let base = string_from_chars(base_v.as_slice());
    let topic = encode_url_component(config.topic.as_str());
    let tags = encode_url_component(config.ai_id.as_str());
    let a = concat3(base.as_str(), "/", topic.as_str());
    concat3(a.as_str(), "/json?tags=", tags.as_str())
}


/// The character of a six-bit value in the standard base64 alphabet.
pub open spec fn b64_char(v: int) -> char {
    if v < 26 {
        ((65 + v) as u32) as char
    } else if v < 52 {
        ((97 + v - 26) as u32) as char
    } else if v < 62 {
        ((48 + v - 52) as u32) as char
    } else if v == 62 {
        '+'
    } else {
        '/'
    }
}

/// Standard base64 (RFC 4648 alphabet, `=` padding) of `b`.
pub open spec fn base64_standard(b: Seq<u8>) -> Seq<char>
    decreases b.len(),
{
    if b.len() == 0 {
        Seq::empty()
    } else if b.len() == 1 {
        seq![b64_char((b[0] / 4) as int), b64_char((b[0] % 4) * 16), '=', '=']
    } else if b.len() == 2 {
        seq![b64_char((b[0] / 4) as int), b64_char((b[0] % 4) * 16 + b[1] / 16), b64_char((b[1] % 16) * 4), '=']
    } else {
        seq![
            b64_char((b[0] / 4) as int),
            b64_char((b[0] % 4) * 16 + b[1] / 16),
            b64_char((b[1] % 16) * 4 + b[2] / 64),
            b64_char((b[2] % 64) as int),
        ] + base64_standard(b.subrange(3, b.len() as int))
    }
}

/// `base64::engine::general_purpose::STANDARD.encode`: the standard base64
/// text of `bytes`, padded with `=`. The crate panics when the length of
/// the output does not fit a `usize`; `requires` rules that out.
#[verifier::external_body]
fn base64_encode(bytes: &[u8]) -> (r: String)
    requires
        (bytes@.len() / 3 + 1) * 4 <= usize::MAX,
    ensures
        r@ == base64_standard(bytes@),
{
    base64::engine::general_purpose::STANDARD.encode(bytes)
}

/// The auth header of a configuration: `Bearer <token>` for a non-empty
/// token; otherwise, when a user or a password is set, `Basic` with the
/// base64 of `<user>:<password>` (a missing part read as empty); otherwise
/// none.
pub open spec fn auth_header_spec(c: NtfyListenerConfig) -> Option<(Seq<char>, Seq<char>)> {
    if present(ov(c.token)) {
        Some(("Authorization"@, "Bearer "@ + ov(c.token).unwrap()))
    } else if c.user is None && c.password is None {
        None
    } else {
        let raw = crate::ntfy::or_empty(ov(c.user)) + ":"@ + crate::ntfy::or_empty(ov(c.password));
        Some(("Authorization"@, "Basic "@ + base64_standard(vstd::utf8::encode_utf8(raw))))
    }
}

/// The string held by `o`, or the empty string.
pub open spec fn or_empty(o: Option<Seq<char>>) -> Seq<char> {
    match o {
        Some(t) => t,
        None => Seq::empty(),
    }
}

fn str_or_empty(o: &Option<String>) -> (r: String)
    ensures
        r@ == or_empty(ov(*o)),
{
    match o {
        Some(t) => t.clone(),
        None => String::new(),
    }
}

/// The ntfy auth header: the bearer token takes precedence over basic
/// auth.
pub fn auth_header(config: &NtfyListenerConfig) -> (r: Option<(String, String)>)
    requires
        (vstd::utf8::encode_utf8(or_empty(ov(config.user)) + ":"@ + or_empty(ov(config.password))).len() / 3 + 1)
            * 4 <= usize::MAX,
    ensures
        match auth_header_spec(*config) {
            Some((n, v)) => r matches Some(h) && h.0@ == n && h.1@ == v,
            None => r is None,
        },
{
    if is_present(&config.token) {
        let t = str_or_empty(&config.token);
        return Some(("Authorization".to_string(), concat_str("Bearer ", t.as_str())));
    }
    if config.user.is_none() && config.password.is_none() {
        return None;
    }
    let u = str_or_empty(&config.user);
    let p = str_or_empty(&config.password);
    let raw = concat3(u.as_str(), ":", p.as_str());
    let encoded = base64_encode(raw.as_str().as_bytes());
    Some(("Authorization".to_string(), concat_str("Basic ", encoded.as_str())))
}

/// The `ai_id` of this instance, by precedence: the project file's
/// `ai_id` (trimmed), the `EMPIRICA_AI_ID` environment value (trimmed),
/// then the project directory name without an `empirica-` prefix. Blank
/// values are skipped.
pub open spec fn resolved_ai_id(
    project_ai_id: Option<Seq<char>>,
    env_ai_id: Option<Seq<char>>,
    dir_name: Option<Seq<char>>,
) -> Option<Seq<char>> {
    if project_ai_id is Some && !is_blank(project_ai_id.unwrap()) {
        Some(trim(project_ai_id.unwrap()))
    } else if env_ai_id is Some && !is_blank(env_ai_id.unwrap()) {
        Some(trim(env_ai_id.unwrap()))
    } else if dir_name is Some {
        let n = dir_name.unwrap();
        let stripped = if crate::text::seq_starts_with(n, "empirica-"@) {
            n.subrange(9, n.len() as int)
        } else {
            n
        };
        if stripped.len() > 0 {
            Some(stripped)
        } else {
            None
        }
    } else {
        None
    }
}

/// Resolve the `ai_id` from what the project file, the environment and the
/// project directory say.
pub fn resolve_ai_id_from(
    project_ai_id: Option<String>,
    env_ai_id: Option<String>,
    dir_name: Option<String>,
) -> (r: Result<String, NtfyConfigError>)
    ensures
        match resolved_ai_id(ov(project_ai_id), ov(env_ai_id), ov(dir_name)) {
            Some(id) => r matches Ok(s) && s@ == id,
            None => r == Err::<String, NtfyConfigError>(NtfyConfigError::UnresolvedAiId),
        },
{
    if let Some(p) = &project_ai_id {
        if !str_is_blank(p.as_str()) {
            let t = trim_chars(chars_of(p.as_str()).as_slice());
            return Ok(string_from_chars(t.as_slice()));
        }
    }
    if let Some(e) = &env_ai_id {
        if !str_is_blank(e.as_str()) {
            let t = trim_chars(chars_of(e.as_str()).as_slice());
            return Ok(string_from_chars(t.as_slice()));
        }
    }
    if let Some(n) = &dir_name {
        proof {
            reveal_strlit("empirica-");
        }
        let v = chars_of(n.as_str());
        let p = chars_of("empirica-");
        let start: usize = if crate::text::starts_with_chars(v.as_slice(), p.as_slice()) { 9 } else { 0 };
        if start < v.len() {
            let mut out: Vec<char> = Vec::new();
            let mut i: usize = start;
            while i < v.len()
                invariant
                    start <= i <= v.len(),
                    out@ == v@.subrange(start as int, i as int),
                decreases v.len() - i,
            {
                out.push(v[i]);
                assert(v@.subrange(start as int, i + 1) =~= v@.subrange(start as int, i as int).push(v@[i as int]));
                i += 1;
            }
            assert(start == 0 ==> v@.subrange(0, v@.len() as int) =~= v@);
            return Ok(string_from_chars(out.as_slice()));
        }
    }
    Err(NtfyConfigError::UnresolvedAiId)
}

/// Where the Empirica credentials file lives: `.empirica/credentials.yaml`
/// under the home directory; none without one.
pub fn default_credentials_path(home: Option<&str>) -> (r: Option<String>)
    ensures
        match home {
            Some(h) => r matches Some(p) && p@ == crate::empirica_cli::path_join(
                crate::empirica_cli::path_join(h@, ".empirica"@),
                "credentials.yaml"@,
            ),
            None => r is None,
        },
{
    match home {
        Some(h) => {
            proof {
                reveal_strlit(".empirica");
                reveal_strlit("credentials.yaml");
            }
            let dir = crate::empirica_cli::join_path(h, ".empirica");
            Some(crate::empirica_cli::join_path(dir.as_str(), "credentials.yaml"))
        },
        None => None,
    }
}

} // verus!
