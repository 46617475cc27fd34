//! The monitor primitive: a watch on a background subprocess that wakes
//! the conversation when a line of its output matches a pattern.
//!
//! Spawning the subprocess and reading its lines is the caller's part.
//! Here are the decisions: whether a request to arm a watch is valid,
//! what a matching line turns into, when a watch disarms itself, and the
//! replies and tool description the `monitor` tool gives the model.

use vstd::prelude::*;

use crate::json::{array, jv, pairs2, pairs3, pairs4, push_item, str_json, Json, JsonV, items_view};
use crate::json_serde::{json_parsed, json_serialized, parse_json, serialize_json};
use crate::text::{concat3, concat_str};

verus! {

/// Which stream(s) of the watched subprocess are matched.
#[derive(Debug, Clone, Copy, PartialEq, Eq, Structural)]
pub enum MonitorStream {
    Stdout,
    Stderr,
    Both,
}

impl Default for MonitorStream {
    fn default() -> (r: MonitorStream)
        ensures
            r == MonitorStream::Stdout,
    {
        MonitorStream::Stdout
    }
}

/// The stream a lowercase name stands for.
pub open spec fn stream_named(name: Seq<char>) -> Option<MonitorStream> {
    if name == "stdout"@ {
        Some(MonitorStream::Stdout)
    } else if name == "stderr"@ {
        Some(MonitorStream::Stderr)
    } else if name == "both"@ {
        Some(MonitorStream::Both)
    } else {
        None
    }
}

impl MonitorStream {
    /// The lowercase name of the stream.
    pub fn name(&self) -> (r: &'static str)
        ensures
            stream_named(r@) == Some(*self),
    {
        proof {
            reveal_strlit("stdout");
            reveal_strlit("stderr");
            reveal_strlit("both");
            assert("stdout"@[3] != "stderr"@[3]);
            assert("stdout"@.len() != "both"@.len());
            assert("stderr"@.len() != "both"@.len());
        }
        match self {
            MonitorStream::Stdout => "stdout",
            MonitorStream::Stderr => "stderr",
            MonitorStream::Both => "both",
        }
    }

    /// The stream named `name`, if it names one.
    pub fn from_name(name: &str) -> (r: Option<MonitorStream>)
        ensures
            r == stream_named(name@),
    {
        if crate::text::str_eq(name, "stdout") {
            Some(MonitorStream::Stdout)
        } else if crate::text::str_eq(name, "stderr") {
            Some(MonitorStream::Stderr)
        } else if crate::text::str_eq(name, "both") {
            Some(MonitorStream::Both)
        } else {
            None
        }
    }
}

/// A request to arm a watch.
#[derive(Debug, Clone)]
pub struct ArmMonitorOptions {
    /// Argv to spawn: the program, then its arguments.
    pub command: Vec<String>,
    /// The pattern lines are matched against (regex_lite syntax).
    pub pattern: String,
    /// Whether the watch stays armed after a match.
    pub persistent: bool,
    /// Which stream to watch.
    pub stream: MonitorStream,
    /// The working directory for the command, if any.
    pub cwd: Option<String>,
}

/// Why a watch could not be armed.
#[derive(Debug, Clone, PartialEq, Eq)]
pub enum MonitorArmError {
    EmptyCommand,
    InvalidPattern(String),
    SpawnFailed(String),
}

/// The message of an arming error.
pub open spec fn arm_error_text(e: MonitorArmError) -> Seq<char> {
    match e {
        MonitorArmError::EmptyCommand => "monitor command must have at least one element"@,
        MonitorArmError::InvalidPattern(m) => "invalid regex pattern: "@ + m@,
        MonitorArmError::SpawnFailed(m) => "failed to spawn monitor subprocess: "@ + m@,
    }
}

impl MonitorArmError {
    /// The human-readable message.
    pub fn message(&self) -> (r: String)
        ensures
            r@ == arm_error_text(*self),
    {
        match self {
            MonitorArmError::EmptyCommand => "monitor command must have at least one element".to_string(),
            MonitorArmError::InvalidPattern(m) => concat_str("invalid regex pattern: ", m.as_str()),
            MonitorArmError::SpawnFailed(m) => concat_str("failed to spawn monitor subprocess: ", m.as_str()),
        }
    }
}

#[verifier::external_type_specification]
#[verifier::external_body]
pub struct ExRegex(regex_lite::Regex);

/// The message `regex_lite::Regex::new` reports for `pattern`, or `None`
/// when the pattern compiles.
pub uninterp spec fn regex_compile_error(pattern: Seq<char>) -> Option<Seq<char>>;

/// Whether the regex compiled from `pattern` matches somewhere in `line`.
pub uninterp spec fn regex_matches(pattern: Seq<char>, line: Seq<char>) -> bool;

/// `regex_lite::Regex::new`, its error turned into its message. The
/// contract names the outcome; it does not say which patterns compile.
#[verifier::external_body]
fn compile_regex(pattern: &str) -> (r: Result<regex_lite::Regex, String>)
    ensures
        match r {
            Ok(_) => regex_compile_error(pattern@) is None,
            Err(m) => regex_compile_error(pattern@) == Some(m@),
        },
{
    regex_lite::Regex::new(pattern).map_err(|e| e.to_string())
}

/// A compiled pattern together with the text it was compiled from.
pub struct CompiledPattern {
    regex: regex_lite::Regex,
    source: String,
}

impl CompiledPattern {
    /// The pattern text this was compiled from.
    pub closed spec fn source(&self) -> Seq<char> {
        self.source@
    }

    /// Compile `pattern`.
    pub fn compile(pattern: &str) -> (r: Result<CompiledPattern, String>)
        ensures
            match r {
                Ok(c) => regex_compile_error(pattern@) is None && c.source() == pattern@,
                Err(m) => regex_compile_error(pattern@) == Some(m@),
            },
    {
        match compile_regex(pattern) {
            Ok(regex) => Ok(CompiledPattern { regex, source: pattern.to_string() }),
            Err(m) => Err(m),
        }
    }

    /// `regex_lite::Regex::is_match` on `line`. A `CompiledPattern` is only
    /// made by [`CompiledPattern::compile`], so its regex is the one its
    /// source compiles to.
    #[verifier::external_body]
    fn regex_is_match(&self, line: &str) -> (b: bool)
        ensures
            b == regex_matches(self.source(), line@),
    {
        self.regex.is_match(line)
    }

    /// Whether the pattern matches somewhere in `line`.
    pub fn is_match(&self, line: &str) -> (b: bool)
        ensures
            b == regex_matches(self.source(), line@),
    {
        self.regex_is_match(line)
    }
}

/// The words of a command joined by single spaces.
pub open spec fn join_spaced(words: Seq<Seq<char>>) -> Seq<char>
    decreases words.len(),
{
    if words.len() == 0 {
        Seq::empty()
    } else if words.len() == 1 {
        words[0]
    } else {
        join_spaced(words.drop_last()) + " "@ + words.last()
    }
}

/// The views of a list of strings.
pub open spec fn strings_view(v: Seq<String>) -> Seq<Seq<char>> {
    v.map_values(|s: String| s@)
}

/// `words` joined by single spaces.
pub fn join_command(words: &[String]) -> (r: String)
    ensures
        r@ == join_spaced(strings_view(words@)),
{
    let ghost w = strings_view(words@);
    if words.len() == 0 {
        return String::new();
    }
    let mut out = words[0].clone();
    let mut i: usize = 1;
    assert(w.take(1) =~= seq![w[0]]);
    while i < words.len()
        invariant
            1 <= i <= words.len(),
            w == strings_view(words@),
            out@ == join_spaced(w.take(i as int)),
        decreases words.len() - i,
    {
        assert(w.take(i + 1).drop_last() =~= w.take(i as int));
        out = concat3(out.as_str(), " ", words[i].as_str());
        i += 1;
    }
    assert(w.take(words.len() as int) =~= w);
    out
}

/// A validated request to arm a watch: what the watcher needs once the
/// subprocess runs.
pub struct PreparedMonitor {
    pub pattern: CompiledPattern,
    /// The command as shown in notifications.
    pub command_display: String,
    pub persistent: bool,
    pub stream: MonitorStream,
}

/// Validate a request to arm a watch: the command must name a program and
/// the pattern must compile.
pub fn prepare_monitor(options: &ArmMonitorOptions) -> (r: Result<PreparedMonitor, MonitorArmError>)
    ensures
        options.command@.len() == 0 ==> r == Err::<PreparedMonitor, MonitorArmError>(MonitorArmError::EmptyCommand),
        options.command@.len() > 0 ==> match regex_compile_error(options.pattern@) {
            Some(m) => r matches Err(MonitorArmError::InvalidPattern(x)) && x@ == m,
            None => r matches Ok(p) && p.pattern.source() == options.pattern@ && p.command_display@
                == join_spaced(strings_view(options.command@)) && p.persistent == options.persistent
                && p.stream == options.stream,
        },
{
    if options.command.len() == 0 {
        return Err(MonitorArmError::EmptyCommand);
    }
    let pattern = match CompiledPattern::compile(options.pattern.as_str()) {
        Ok(p) => p,
        Err(m) => {
            return Err(MonitorArmError::InvalidPattern(m));
        },
    };
    let command_display = join_command(options.command.as_slice());
    Ok(PreparedMonitor { pattern, command_display, persistent: options.persistent, stream: options.stream })
}

/// The message injected into the conversation when a watched line matches.
pub open spec fn notification_text(id: Seq<char>, command: Seq<char>, line: Seq<char>) -> Seq<char> {
    "<task-notification>\n<monitor-id>"@ + id + "</monitor-id>\n<command>"@ + command
        + "</command>\n<matched-line>"@ + line + "</matched-line>\n</task-notification>"@
}

/// The notification for a matched `line`.
pub fn notification(id: &str, command: &str, line: &str) -> (r: String)
    ensures
        r@ == notification_text(id@, command@, line@),
{
    let a = concat3("<task-notification>\n<monitor-id>", id, "</monitor-id>\n<command>");
    let b = concat3(a.as_str(), command, "</command>\n<matched-line>");
    concat3(b.as_str(), line, "</matched-line>\n</task-notification>")
}

/// The value of a watch.
pub struct MonitorWatchV {
    pub id: Seq<char>,
    pub command: Seq<char>,
    pub persistent: bool,
    pub armed: bool,
}

/// An armed (or spent) watch on one subprocess.
pub struct MonitorWatch {
    monitor_id: String,
    command_display: String,
    persistent: bool,
    armed: bool,
}

impl View for MonitorWatch {
    type V = MonitorWatchV;

    closed spec fn view(&self) -> MonitorWatchV {
        MonitorWatchV {
            id: self.monitor_id@,
            command: self.command_display@,
            persistent: self.persistent,
            armed: self.armed,
        }
    }
}

/// One line seen by a watch on `pattern`: the notification it gives, if
/// any, and the watch afterwards. A match disarms a watch that is not
/// persistent; a disarmed watch stays silent.
pub open spec fn watch_step(w: MonitorWatchV, pattern: Seq<char>, line: Seq<char>) -> (Option<Seq<char>>, MonitorWatchV) {
    if w.armed && regex_matches(pattern, line) {
        (Some(notification_text(w.id, w.command, line)), MonitorWatchV { armed: w.persistent, ..w })
    } else {
        (None, w)
    }
}

/// The notifications a watch gives over `lines`, and the watch afterwards.
pub open spec fn watch_run(w: MonitorWatchV, pattern: Seq<char>, lines: Seq<Seq<char>>) -> (Seq<Seq<char>>, MonitorWatchV)
    decreases lines.len(),
{
    if lines.len() == 0 {
        (Seq::empty(), w)
    } else {
        let (ns, w1) = watch_run(w, pattern, lines.drop_last());
        let (n, w2) = watch_step(w1, pattern, lines.last());
        match n {
            Some(t) => (ns.push(t), w2),
            None => (ns, w2),
        }
    }
}

impl MonitorWatch {
    /// A freshly armed watch.
    pub fn new(monitor_id: String, command_display: String, persistent: bool) -> (r: MonitorWatch)
        ensures
            r@ == (MonitorWatchV { id: monitor_id@, command: command_display@, persistent, armed: true }),
    {
        MonitorWatch { monitor_id, command_display, persistent, armed: true }
    }

    /// Whether the watch is still armed.
    pub fn is_armed(&self) -> (b: bool)
        ensures
            b == self@.armed,
    {
        self.armed
    }

    /// Feed one line of the watched output.
    pub fn on_line(&mut self, pattern: &CompiledPattern, line: &str) -> (r: Option<String>)
        ensures
            (match r {
                Some(s) => Some(s@),
                None => None,
            }) == watch_step(old(self)@, pattern.source(), line@).0,
            final(self)@ == watch_step(old(self)@, pattern.source(), line@).1,
    {
        if !self.armed {
            return None;
        }
        if !pattern.is_match(line) {
            return None;
        }
        let text = notification(self.monitor_id.as_str(), self.command_display.as_str(), line);
        self.armed = self.persistent;
        Some(text)
    }
}

/// A watch that is not persistent notifies at most once, and is disarmed
/// once it has; a disarmed watch never notifies.
pub proof fn lemma_one_shot_watch_notifies_once(w: MonitorWatchV, pattern: Seq<char>, lines: Seq<Seq<char>>)
    requires
        !w.persistent,
    ensures
        watch_run(w, pattern, lines).0.len() <= 1,
        watch_run(w, pattern, lines).0.len() == 1 ==> !watch_run(w, pattern, lines).1.armed,
        !w.armed ==> watch_run(w, pattern, lines).0.len() == 0 && !watch_run(w, pattern, lines).1.armed,
        watch_run(w, pattern, lines).1.persistent == w.persistent,
    decreases lines.len(),
{
    if lines.len() > 0 {
        lemma_one_shot_watch_notifies_once(w, pattern, lines.drop_last());
    }
}

/// A persistent watch notifies once for every matching line.
pub proof fn lemma_persistent_watch_notifies_each_match(w: MonitorWatchV, pattern: Seq<char>, lines: Seq<Seq<char>>)
    requires
        w.persistent,
        w.armed,
    ensures
        watch_run(w, pattern, lines).1 == w,
        watch_run(w, pattern, lines).0 == lines.filter(|l: Seq<char>| regex_matches(pattern, l)).map_values(
            |l: Seq<char>| notification_text(w.id, w.command, l),
        ),
    decreases lines.len(),
{
    reveal_with_fuel(Seq::filter, 2);
    if lines.len() > 0 {
        lemma_persistent_watch_notifies_each_match(w, pattern, lines.drop_last());
        let f = |l: Seq<char>| regex_matches(pattern, l);
        let g = |l: Seq<char>| notification_text(w.id, w.command, l);
        if f(lines.last()) {
            assert(lines.filter(f) =~= lines.drop_last().filter(f).push(lines.last()));
            assert(lines.filter(f).map_values(g) =~= lines.drop_last().filter(f).map_values(g).push(g(lines.last())));
        } else {
            assert(lines.filter(f) =~= lines.drop_last().filter(f));
        }
    }
}

// ───────────────────────────── the `monitor` tool ─────────────────────────

/// The reply to a successful `arm`.
pub open spec fn arm_reply_value(monitor_id: Seq<char>) -> JsonV {
    JsonV::Object(seq![("ok"@, JsonV::Bool(true)), ("monitor_id"@, JsonV::Str(monitor_id)), ("armed"@, JsonV::Bool(true))])
}

/// The reply to an `arm` that armed watch `monitor_id`.
pub fn arm_reply(monitor_id: &str) -> (j: Json)
    ensures
        jv(j) == arm_reply_value(monitor_id@),
{
    pairs3("ok", Json::Bool(true), "monitor_id", str_json(monitor_id), "armed", Json::Bool(true))
}

/// The reply to a `kill` of `monitor_id`.
pub open spec fn kill_reply_value(monitor_id: Seq<char>, removed: bool) -> JsonV {
    JsonV::Object(seq![("ok"@, JsonV::Bool(true)), ("killed"@, JsonV::Bool(removed)), ("monitor_id"@, JsonV::Str(monitor_id))])
}

/// The reply to a `kill` of `monitor_id`; `removed` tells whether a watch
/// with that id was armed.
pub fn kill_reply(monitor_id: &str, removed: bool) -> (j: Json)
    ensures
        jv(j) == kill_reply_value(monitor_id@, removed),
{
    pairs3("ok", Json::Bool(true), "killed", Json::Bool(removed), "monitor_id", str_json(monitor_id))
}

/// What `list` shows of one armed watch.
pub struct MonitorEntryInfo {
    pub monitor_id: String,
    pub command: Vec<String>,
    pub pattern: String,
    pub persistent: bool,
}

/// The JSON strings of `words`.
pub open spec fn str_values(words: Seq<Seq<char>>) -> Seq<JsonV> {
    words.map_values(|w: Seq<char>| JsonV::Str(w))
}

/// The listing of one watch.
pub open spec fn entry_value(e: MonitorEntryInfo) -> JsonV {
    JsonV::Object(
        seq![
            ("monitor_id"@, JsonV::Str(e.monitor_id@)),
            ("command"@, JsonV::Array(str_values(strings_view(e.command@)))),
            ("pattern"@, JsonV::Str(e.pattern@)),
            ("persistent"@, JsonV::Bool(e.persistent)),
        ],
    )
}

/// The reply to a `list` of the watches `entries`.
pub open spec fn list_reply_value(entries: Seq<MonitorEntryInfo>) -> JsonV {
    JsonV::Object(
        seq![
            ("ok"@, JsonV::Bool(true)),
            ("count"@, JsonV::Int(entries.len() as int)),
            ("monitors"@, JsonV::Array(entries.map_values(|e: MonitorEntryInfo| entry_value(e)))),
        ],
    )
}

fn strings_json(words: &[String]) -> (j: Json)
    ensures
        jv(j) == JsonV::Array(str_values(strings_view(words@))),
{
    let mut out: Vec<Json> = Vec::new();
    let mut i: usize = 0;
    while i < words.len()
        invariant
            i <= words.len(),
            items_view(out@) == str_values(strings_view(words@)).take(i as int),
        decreases words.len() - i,
    {
        push_item(&mut out, str_json(words[i].as_str()));
        assert(str_values(strings_view(words@)).take(i + 1) =~= str_values(strings_view(words@)).take(i as int).push(
            JsonV::Str(words@[i as int]@),
        ));
        i += 1;
    }
    assert(str_values(strings_view(words@)).take(words.len() as int) =~= str_values(strings_view(words@)));
    array(out)
}

/// The reply to a `list`.
pub fn list_reply(entries: &[MonitorEntryInfo]) -> (j: Json)
    ensures
        jv(j) == list_reply_value(entries@),
{
    let mut out: Vec<Json> = Vec::new();
    let mut i: usize = 0;
    let ghost all = entries@.map_values(|e: MonitorEntryInfo| entry_value(e));
    while i < entries.len()
        invariant
            i <= entries.len(),
            all == entries@.map_values(|e: MonitorEntryInfo| entry_value(e)),
            items_view(out@) == all.take(i as int),
        decreases entries.len() - i,
    {
        let e = &entries[i];
        let item = pairs4(
            "monitor_id",
            str_json(e.monitor_id.as_str()),
            "command",
            strings_json(e.command.as_slice()),
            "pattern",
            str_json(e.pattern.as_str()),
            "persistent",
            Json::Bool(e.persistent),
        );
        push_item(&mut out, item);
        assert(all.take(i + 1) =~= all.take(i as int).push(entry_value(entries@[i as int])));
        i += 1;
    }
    assert(all.take(entries.len() as int) =~= all);
    let count = entries.len() as i128;
    pairs3("ok", Json::Bool(true), "count", Json::Int(count), "monitors", array(out))
}

/// The tool's output: the reply text.
pub struct MonitorToolOutput {
    text: String,
}

impl MonitorToolOutput {
    /// The output carrying `reply` as serde_json writes it (nothing, should
    /// serde_json report an error).
    pub fn from_reply(reply: &Json) -> (r: MonitorToolOutput)
        ensures
            r.text()@ == match json_serialized(jv(*reply)) {
                Some(t) => t,
                None => Seq::empty(),
            },
    {
        match serialize_json(reply) {
            Some(text) => MonitorToolOutput { text },
            None => MonitorToolOutput { text: String::new() },
        }
    }

    /// The reply text.
    pub closed spec fn text(&self) -> String {
        self.text
    }

    /// What is logged of the output: the reply text.
    pub fn log_output(&self) -> (r: String)
        ensures
            r@ == self.text()@,
    {
        self.text.clone()
    }

    /// The tool always reports success once it has replied.
    pub fn success_for_logging(&self) -> (b: bool)
        ensures
            b,
    {
        true
    }

    /// The reply as a JSON value for code mode (`null` when the text does
    /// not parse).
    pub fn code_mode_result(&self) -> (j: Json)
        ensures
            jv(j) == match json_parsed(self.text()@) {
                Some(v) => v,
                None => JsonV::Null,
            },
    {
        match parse_json(self.text.as_str()) {
            Some(j) => j,
            None => Json::Null,
        }
    }
}

/// The error for a payload that is not a function call.
pub fn unsupported_payload_message() -> (r: String)
    ensures
        r@ == "monitor handler received unsupported payload"@,
{
    "monitor handler received unsupported payload".to_string()
}

/// The error for arguments that do not parse as an action; `err` is the
/// parser's message.
pub open spec fn invalid_arguments_text(err: Seq<char>) -> Seq<char> {
    "monitor: invalid arguments: "@ + err
        + ". Expected one of: {\"action\":\"arm\",\"command\":[...],\"pattern\":\"...\"} | {\"action\":\"kill\",\"monitor_id\":\"...\"} | {\"action\":\"list\"}"@
}

/// The error for arguments that do not parse as an action.
pub fn invalid_arguments_message(err: &str) -> (r: String)
    ensures
        r@ == invalid_arguments_text(err@),
{
    concat3(
        "monitor: invalid arguments: ",
        err,
        ". Expected one of: {\"action\":\"arm\",\"command\":[...],\"pattern\":\"...\"} | {\"action\":\"kill\",\"monitor_id\":\"...\"} | {\"action\":\"list\"}",
    )
}

/// The error for an `arm` that failed.
pub fn arm_failed_message(err: &MonitorArmError) -> (r: String)
    ensures
        r@ == "monitor arm failed: "@ + arm_error_text(*err),
{
    let m = err.message();
    concat_str("monitor arm failed: ", m.as_str())
}

/// The description the model reads of the `monitor` tool.
pub open spec fn monitor_tool_description() -> Seq<char> {
    "Arm a watch on a background subprocess. On each line matching the regex `pattern`, a <task-notification> message is injected into your pending input. Use for sub-second wake on cortex mesh events (held ntfy connection) or any long-running stream you want to react to. Returns {monitor_id} from arm; pair with kill to disarm. persistent=true keeps the watch armed across multiple matches."@
}

/// A string property of the argument schema.
pub open spec fn string_prop(description: Seq<char>) -> JsonV {
    JsonV::Object(seq![("type"@, JsonV::Str("string"@)), ("description"@, JsonV::Str(description))])
}

/// A string property restricted to `values`.
pub open spec fn enum_prop(values: Seq<Seq<char>>, description: Seq<char>) -> JsonV {
    JsonV::Object(
        seq![
            ("type"@, JsonV::Str("string"@)),
            ("enum"@, JsonV::Array(str_values(values))),
            ("description"@, JsonV::Str(description)),
        ],
    )
}

/// The JSON Schema of the tool's arguments: its properties (in key order),
/// `action` required, no other properties allowed.
pub open spec fn monitor_parameters_schema() -> JsonV {
    JsonV::Object(
        seq![
            ("type"@, JsonV::Str("object"@)),
            (
                "properties"@,
                JsonV::Object(
                    seq![
                        (
                            "action"@,
                            enum_prop(
                                seq!["arm"@, "kill"@, "list"@],
                                "What to do: arm a new watch, kill an existing one, or list count"@,
                            ),
                        ),
                        (
                            "command"@,
                            JsonV::Object(
                                seq![
                                    ("type"@, JsonV::Str("array"@)),
                                    ("items"@, JsonV::Object(seq![("type"@, JsonV::Str("string"@))])),
                                    (
                                        "description"@,
                                        JsonV::Str(
                                            "Argv to spawn (action=arm only). First element is the program, rest are args."@,
                                        ),
                                    ),
                                ],
                            ),
                        ),
                        ("cwd"@, string_prop("Working directory for the spawned command (action=arm only)."@)),
                        ("monitor_id"@, string_prop("The id returned by a prior arm (action=kill only)."@)),
                        (
                            "pattern"@,
                            string_prop("Regex pattern to match against subprocess output lines (action=arm only)."@),
                        ),
                        (
                            "persistent"@,
                            JsonV::Object(
                                seq![
                                    ("type"@, JsonV::Str("boolean"@)),
                                    (
                                        "description"@,
                                        JsonV::Str(
                                            "When true, the watch stays armed after each match (action=arm only). Default false."@,
                                        ),
                                    ),
                                ],
                            ),
                        ),
                        (
                            "stream"@,
                            enum_prop(
                                seq!["stdout"@, "stderr"@, "both"@],
                                "Which stream to watch (action=arm only). Default stdout."@,
                            ),
                        ),
                    ],
                ),
            ),
            ("required"@, JsonV::Array(seq![JsonV::Str("action"@)])),
            ("additionalProperties"@, JsonV::Bool(false)),
        ],
    )
}

/// The function tool the model calls to arm, kill and list watches.
pub struct MonitorToolSpec {
    pub name: String,
    pub description: String,
    pub strict: bool,
    pub parameters: Json,
}

fn string_prop_json(description: &str) -> (j: Json)
    ensures
        jv(j) == string_prop(description@),
{
    pairs2("type", str_json("string"), "description", str_json(description))
}

fn enum_prop_json(a: &str, b: &str, c: &str, description: &str) -> (j: Json)
    ensures
        jv(j) == enum_prop(seq![a@, b@, c@], description@),
{
    let mut vals: Vec<Json> = Vec::new();
    push_item(&mut vals, str_json(a));
    push_item(&mut vals, str_json(b));
    push_item(&mut vals, str_json(c));
    assert(items_view(vals@) =~= str_values(seq![a@, b@, c@]));
    pairs3("type", str_json("string"), "enum", array(vals), "description", str_json(description))
}

/// The `monitor` tool as offered to the model.
pub fn monitor_tool_spec() -> (r: MonitorToolSpec)
    ensures
        r.name@ == "monitor"@,
        r.description@ == monitor_tool_description(),
        !r.strict,
        jv(r.parameters) == monitor_parameters_schema(),
{
    let p_action = enum_prop_json("arm", "kill", "list", "What to do: arm a new watch, kill an existing one, or list count");
    let p_command = pairs3(
        "type",
        str_json("array"),
        "items",
        pairs_one("type", str_json("string")),
        "description",
        str_json("Argv to spawn (action=arm only). First element is the program, rest are args."),
    );
    let p_cwd = string_prop_json("Working directory for the spawned command (action=arm only).");
    let p_id = string_prop_json("The id returned by a prior arm (action=kill only).");
    let p_pattern = string_prop_json("Regex pattern to match against subprocess output lines (action=arm only).");
    let p_persistent = pairs2(
        "type",
        str_json("boolean"),
        "description",
        str_json("When true, the watch stays armed after each match (action=arm only). Default false."),
    );
    let p_stream = enum_prop_json("stdout", "stderr", "both", "Which stream to watch (action=arm only). Default stdout.");
    let ghost expected = seq![
        ("action"@, jv(p_action)),
        ("command"@, jv(p_command)),
        ("cwd"@, jv(p_cwd)),
        ("monitor_id"@, jv(p_id)),
        ("pattern"@, jv(p_pattern)),
        ("persistent"@, jv(p_persistent)),
        ("stream"@, jv(p_stream)),
    ];
    let mut props: Vec<(String, Json)> = Vec::new();
    crate::json::push_member(&mut props, "action", p_action);
    crate::json::push_member(&mut props, "command", p_command);
    crate::json::push_member(&mut props, "cwd", p_cwd);
    crate::json::push_member(&mut props, "monitor_id", p_id);
    crate::json::push_member(&mut props, "pattern", p_pattern);
    crate::json::push_member(&mut props, "persistent", p_persistent);
    crate::json::push_member(&mut props, "stream", p_stream);
    assert(crate::json::members_view(props@) =~= expected);
    let mut req: Vec<Json> = Vec::new();
    push_item(&mut req, str_json("action"));
    assert(items_view(req@) =~= seq![JsonV::Str("action"@)]);
    let parameters = pairs4(
        "type",
        str_json("object"),
        "properties",
        crate::json::object(props),
        "required",
        array(req),
        "additionalProperties",
        Json::Bool(false),
    );
    assert(jv(parameters) == monitor_parameters_schema());
    MonitorToolSpec {
        name: "monitor".to_string(),
        description: "Arm a watch on a background subprocess. On each line matching the regex `pattern`, a <task-notification> message is injected into your pending input. Use for sub-second wake on cortex mesh events (held ntfy connection) or any long-running stream you want to react to. Returns {monitor_id} from arm; pair with kill to disarm. persistent=true keeps the watch armed across multiple matches.".to_string(),
        strict: false,
        parameters,
    }
}

fn pairs_one(k: &str, v: Json) -> (j: Json)
    ensures
        jv(j) == JsonV::Object(seq![(k@, jv(v))]),
{
    let ghost a = jv(v);
    let mut m: Vec<(String, Json)> = Vec::new();
    crate::json::push_member(&mut m, k, v);
    assert(crate::json::members_view(m@) =~= seq![(k@, a)]);
    crate::json::object(m)
}

/// The `monitor` tool's executor: its name and the spec offered to the
/// model. Running an action (spawning, registering, killing) is the
/// session's work; the replies it gives back are `arm_reply`,
/// `kill_reply` and `list_reply`.
pub struct MonitorHandler;

impl MonitorHandler {
    /// The tool's name.
    pub fn tool_name(&self) -> (r: &'static str)
        ensures
            r@ == "monitor"@,
    {
        proof {
            reveal_strlit("monitor");
        }
        "monitor"
    }

    /// The tool's spec: `monitor_tool_spec`.
    pub fn spec(&self) -> (r: MonitorToolSpec)
        ensures
            r.name@ == "monitor"@,
            r.description@ == monitor_tool_description(),
            !r.strict,
            jv(r.parameters) == monitor_parameters_schema(),
    {
        monitor_tool_spec()
    }
}

} // verus!
