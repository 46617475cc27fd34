//! The decisions behind initializing a fresh Empirica practice at session
//! start: whether the workspace may be bootstrapped at all, which
//! initialization commands to run (git first, so that a git failure stops
//! the rest), and the rewrite of the project file's `ai_id`. Inspecting
//! the file system and running the commands are the caller's part.

use vstd::prelude::*;

use crate::json::{jv, Json, JsonV};
use crate::json_serde::{json_serialized, serialize_json};
use crate::model_meta::line_end;
use crate::text::{chars_of, concat3, concat_str, seq_starts_with, str_eq, string_from_chars, trim, trim_chars};

verus! {

/// An initialization command.
#[derive(Debug, Clone, Copy, PartialEq, Eq, Structural)]
pub enum BootstrapCommand {
    /// `git init --quiet`
    GitInit,
    /// `empirica project-init --non-interactive --output json`
    EmpiricaProjectInit,
}

impl BootstrapCommand {
    /// The command's name in messages.
    pub fn program_name(self) -> (r: &'static str)
        ensures
            r@ == match self {
                BootstrapCommand::GitInit => "git init"@,
                BootstrapCommand::EmpiricaProjectInit => "empirica project-init"@,
            },
    {
        match self {
            BootstrapCommand::GitInit => "git init",
            BootstrapCommand::EmpiricaProjectInit => "empirica project-init",
        }
    }

    /// The program to run and its arguments.
    pub fn argv(self) -> (r: (&'static str, Vec<&'static str>))
        ensures
            r.0@ == match self {
                BootstrapCommand::GitInit => "git"@,
                BootstrapCommand::EmpiricaProjectInit => "empirica"@,
            },
            r.1@.map_values(|s: &str| s@) == match self {
                BootstrapCommand::GitInit => seq!["init"@, "--quiet"@],
                BootstrapCommand::EmpiricaProjectInit => seq!["project-init"@, "--non-interactive"@, "--output"@, "json"@],
            },
    {
        match self {
            BootstrapCommand::GitInit => {
                let v: Vec<&'static str> = vec!["init", "--quiet"];
                assert(v@.map_values(|s: &str| s@) =~= seq!["init"@, "--quiet"@]);
                ("git", v)
            },
            BootstrapCommand::EmpiricaProjectInit => {
                let v: Vec<&'static str> = vec!["project-init", "--non-interactive", "--output", "json"];
                assert(v@.map_values(|s: &str| s@) =~= seq!["project-init"@, "--non-interactive"@, "--output"@, "json"@]);
                ("empirica", v)
            },
        }
    }
}

/// Why a workspace is not bootstrapped.
#[derive(Debug, Clone, PartialEq, Eq)]
pub enum BootstrapRefusal {
    /// The hook's cwd is not where the hook process runs.
    CwdMismatch { workspace: String, process_cwd: String },
    /// The workspace is the file-system root.
    FilesystemRoot,
    /// The workspace is the user's home directory.
    HomeDirectory(String),
    /// The workspace lies inside a git repository of an ancestor.
    NestedWorkspace(String),
}

impl BootstrapRefusal {
    /// The human-readable message.
    pub fn message(&self) -> (r: String)
        ensures
            r@ == match *self {
                BootstrapRefusal::CwdMismatch { workspace, process_cwd } => "refusing to bootstrap "@ + workspace@
                    + " because the SessionStart process runs at "@ + process_cwd@,
                BootstrapRefusal::FilesystemRoot => "refusing to bootstrap the filesystem root"@,
                BootstrapRefusal::HomeDirectory(w) => "refusing to bootstrap the home directory "@ + w@,
                BootstrapRefusal::NestedWorkspace(w) => "refusing to bootstrap nested workspace "@ + w@
                    + " inside an ancestor git repository"@,
            },
    {
        match self {
            BootstrapRefusal::CwdMismatch { workspace, process_cwd } => {
                let a = concat3("refusing to bootstrap ", workspace.as_str(), " because the SessionStart process runs at ");
                concat_str(a.as_str(), process_cwd.as_str())
            },
            BootstrapRefusal::FilesystemRoot => "refusing to bootstrap the filesystem root".to_string(),
            BootstrapRefusal::HomeDirectory(w) => concat_str("refusing to bootstrap the home directory ", w.as_str()),
            BootstrapRefusal::NestedWorkspace(w) => concat3(
                "refusing to bootstrap nested workspace ",
                w.as_str(),
                " inside an ancestor git repository",
            ),
        }
    }
}

/// What the caller found about the workspace (paths canonical).
pub struct WorkspaceFacts {
    /// The session cwd the hook input names.
    pub workspace: String,
    /// The directory the hook process runs in.
    pub process_cwd: String,
    /// The user's home directory, when set, non-empty and resolvable.
    pub home: Option<String>,
    /// The workspace holds `.git`.
    pub git_exists: bool,
    /// The workspace holds `.empirica`.
    pub empirica_exists: bool,
    /// Some ancestor of the workspace holds `.git`.
    pub ancestor_has_git: bool,
}

/// What to do: the commands to run, in order (stopping at the first that
/// fails), and the agent id to write into the new project, if any.
pub struct BootstrapPlan {
    pub commands: Vec<BootstrapCommand>,
    pub ai_id: Option<String>,
}

/// The refusal for a workspace, if it is refused: a cwd mismatch, the
/// file-system root, the home directory, or a workspace without its own
/// git metadata inside an ancestor's repository.
pub open spec fn refusal_of(f: WorkspaceFacts) -> Option<BootstrapRefusal> {
    if f.workspace@ != f.process_cwd@ {
        Some(BootstrapRefusal::CwdMismatch { workspace: f.workspace, process_cwd: f.process_cwd })
    } else if f.workspace@ == "/"@ {
        Some(BootstrapRefusal::FilesystemRoot)
    } else if f.home matches Some(h) && h@ == f.workspace@ {
        Some(BootstrapRefusal::HomeDirectory(f.workspace))
    } else if !f.git_exists && f.ancestor_has_git {
        Some(BootstrapRefusal::NestedWorkspace(f.workspace))
    } else {
        None
    }
}

/// The commands for an accepted workspace: `git init` unless it has git
/// metadata, then `empirica project-init` unless it has a practice.
pub open spec fn commands_of(f: WorkspaceFacts) -> Seq<BootstrapCommand> {
    (if f.git_exists { Seq::empty() } else { seq![BootstrapCommand::GitInit] }) + (if f.empirica_exists {
        Seq::empty()
    } else {
        seq![BootstrapCommand::EmpiricaProjectInit]
    })
}

/// The agent id written into a newly initialized practice: the configured
/// id, trimmed, when non-empty.
pub open spec fn ai_id_of(f: WorkspaceFacts, ai_id: Option<Seq<char>>) -> Option<Seq<char>> {
    if f.empirica_exists {
        None
    } else {
        match ai_id {
            Some(a) => if trim(a).len() > 0 { Some(trim(a)) } else { None },
            None => None,
        }
    }
}

/// Decide how to bootstrap the workspace.
pub fn plan_bootstrap(facts: &WorkspaceFacts, ai_id: Option<&str>) -> (r: Result<BootstrapPlan, BootstrapRefusal>)
    ensures
        match refusal_of(*facts) {
            Some(x) => r == Err::<BootstrapPlan, BootstrapRefusal>(x),
            None => r matches Ok(p) && p.commands@ == commands_of(*facts) && crate::manifest::ostring(p.ai_id)
                == ai_id_of(*facts, crate::manifest::ostr_ref(ai_id)),
        },
{
    if !str_eq(facts.workspace.as_str(), facts.process_cwd.as_str()) {
        return Err(BootstrapRefusal::CwdMismatch {
            workspace: facts.workspace.clone(),
            process_cwd: facts.process_cwd.clone(),
        });
    }
    if str_eq(facts.workspace.as_str(), "/") {
        return Err(BootstrapRefusal::FilesystemRoot);
    }
    match &facts.home {
        Some(h) => {
            if str_eq(h.as_str(), facts.workspace.as_str()) {
                return Err(BootstrapRefusal::HomeDirectory(facts.workspace.clone()));
            }
        },
        None => {},
    }
    if !facts.git_exists && facts.ancestor_has_git {
        return Err(BootstrapRefusal::NestedWorkspace(facts.workspace.clone()));
    }
    let mut commands: Vec<BootstrapCommand> = Vec::new();
    if !facts.git_exists {
        commands.push(BootstrapCommand::GitInit);
    }
    if !facts.empirica_exists {
        commands.push(BootstrapCommand::EmpiricaProjectInit);
    }
    assert(commands@ =~= commands_of(*facts));
    let id = if facts.empirica_exists {
        None
    } else {
        match ai_id {
            Some(a) => {
                let t = trim_chars(chars_of(a).as_slice());
                if t.len() > 0 {
                    Some(string_from_chars(t.as_slice()))
                } else {
                    None
                }
            },
            None => None,
        }
    };
    Ok(BootstrapPlan { commands, ai_id: id })
}

/// The `cwd` string of the session-start hook input, if the input is JSON
/// holding one.
pub fn session_start_cwd(input_json: &str) -> (r: Option<String>)
    ensures
        crate::manifest::ostring(r) == match crate::json_serde::json_parsed(input_json@) {
            Some(v) => crate::json::jget_str(v, "cwd"@),
            None => None,
        },
{
    match crate::json_serde::parse_json(input_json) {
        Some(v) => match crate::json::get_str(&v, "cwd") {
            Some(c) => Some(c.clone()),
            None => None,
        },
        None => None,
    }
}

/// What a bootstrap did.
#[derive(Debug, Clone, PartialEq, Eq)]
pub struct PracticeBootstrapOutcome {
    pub workspace: String,
    pub git_initialized: bool,
    pub empirica_initialized: bool,
}

impl PracticeBootstrapOutcome {
    /// Whether anything was initialized.
    pub fn changed(&self) -> (b: bool)
        ensures
            b == (self.git_initialized || self.empirica_initialized),
    {
        self.git_initialized || self.empirica_initialized
    }
}

/// The progress of carrying out a plan: its commands, how many have run,
/// whether one failed, and what has been initialized.
pub struct BootstrapRunV {
    pub commands: Seq<BootstrapCommand>,
    pub done: nat,
    pub failed: bool,
    pub git_initialized: bool,
    pub empirica_initialized: bool,
}

/// Carrying out a plan's commands in order, stopping at the first that
/// fails.
pub struct BootstrapRun {
    commands: Vec<BootstrapCommand>,
    done: usize,
    failed: bool,
    outcome: PracticeBootstrapOutcome,
}

/// The flags of a run that has carried out the first `done` commands:
/// each flag says whether its command is among them.
pub open spec fn flags_after(commands: Seq<BootstrapCommand>, done: nat) -> (bool, bool) {
    (
        commands.take(done as int).contains(BootstrapCommand::GitInit),
        commands.take(done as int).contains(BootstrapCommand::EmpiricaProjectInit),
    )
}

impl BootstrapRun {
    /// The flags match the commands done.
    pub closed spec fn wf(self) -> bool {
        &&& self.done <= self.commands@.len()
        &&& (self.outcome.git_initialized, self.outcome.empirica_initialized) == flags_after(
            self.commands@,
            self.done as nat,
        )
    }

    /// The run's progress.
    pub closed spec fn view(self) -> BootstrapRunV {
        BootstrapRunV {
            commands: self.commands@,
            done: self.done as nat,
            failed: self.failed,
            git_initialized: self.outcome.git_initialized,
            empirica_initialized: self.outcome.empirica_initialized,
        }
    }

    /// The workspace the run initializes.
    pub closed spec fn workspace(self) -> Seq<char> {
        self.outcome.workspace@
    }

    /// A run of `commands` in `workspace`, nothing done yet.
    pub fn start(commands: Vec<BootstrapCommand>, workspace: String) -> (r: BootstrapRun)
        ensures
            r.view() == (BootstrapRunV {
                commands: commands@,
                done: 0,
                failed: false,
                git_initialized: false,
                empirica_initialized: false,
            }),
            r.workspace() == workspace@,
            r.wf(),
    {
        let ghost cs = commands@;
        assert(cs.take(0) =~= Seq::<BootstrapCommand>::empty());
        BootstrapRun {
            commands,
            done: 0,
            failed: false,
            outcome: PracticeBootstrapOutcome { workspace, git_initialized: false, empirica_initialized: false },
        }
    }

    /// The command to run next: none once all have run or one has failed.
    pub fn next_command(&self) -> (r: Option<BootstrapCommand>)
        requires
            self.wf(),
        ensures
            match r {
                Some(c) => !self.view().failed && self.view().done < self.view().commands.len() && c
                    == self.view().commands[self.view().done as int],
                None => self.view().failed || self.view().done >= self.view().commands.len(),
            },
    {
        if !self.failed && self.done < self.commands.len() {
            Some(self.commands[self.done])
        } else {
            None
        }
    }

    /// Record how the next command went. Its result is handed back as it
    /// is; a success counts the command as done (setting its flag), a
    /// failure stops the run so that no later command is offered.
    pub fn record<E>(&mut self, result: Result<(), E>) -> (r: Result<(), E>)
        requires
            old(self).wf(),
            !old(self).view().failed,
            old(self).view().done < old(self).view().commands.len(),
        ensures
            final(self).wf(),
            r == result,
            final(self).view().commands == old(self).view().commands,
            final(self).workspace() == old(self).workspace(),
            match result {
                Ok(()) => {
                    &&& !final(self).view().failed
                    &&& final(self).view().done == old(self).view().done + 1
                    &&& (final(self).view().git_initialized, final(self).view().empirica_initialized)
                        == flags_after(final(self).view().commands, final(self).view().done)
                },
                Err(_) => {
                    &&& final(self).view().failed
                    &&& final(self).view().done == old(self).view().done
                    &&& final(self).view().git_initialized == old(self).view().git_initialized
                    &&& final(self).view().empirica_initialized == old(self).view().empirica_initialized
                },
            },
    {
        let n = self.done;
        let total = self.commands.len();
        assert(n < total);
        match result {
            Ok(u) => {
                let c = self.commands[n];
                let ghost cs = self.commands@;
                let ghost d = self.done as int;
                proof {
                    assert(cs.take(d + 1) =~= cs.take(d).push(c));
                    assert(cs.take(d).push(c)[d] == c);
                    assert forall|x: BootstrapCommand| x != c implies (cs.take(d).push(c).contains(x) <==> cs.take(
                        d,
                    ).contains(x)) by {
                        if cs.take(d).push(c).contains(x) {
                            let k = choose|k: int| 0 <= k < cs.take(d).push(c).len() && cs.take(d).push(c)[k] == x;
                            assert(k < d);
                            assert(cs.take(d)[k] == x);
                        }
                        if cs.take(d).contains(x) {
                            let k = choose|k: int| 0 <= k < cs.take(d).len() && cs.take(d)[k] == x;
                            assert(cs.take(d).push(c)[k] == x);
                        }
                    }
                }
                let git = self.outcome.git_initialized || c == BootstrapCommand::GitInit;
                let emp = self.outcome.empirica_initialized || c == BootstrapCommand::EmpiricaProjectInit;
                let workspace = self.outcome.workspace.clone();
                self.outcome = PracticeBootstrapOutcome { workspace, git_initialized: git, empirica_initialized: emp };
                self.done = n + 1;
                Ok(u)
            },
            Err(e) => {
                self.failed = true;
                Err(e)
            },
        }
    }

    /// What the run did.
    pub fn finish(self) -> (o: PracticeBootstrapOutcome)
        ensures
            o.workspace@ == self.workspace(),
            o.git_initialized == self.view().git_initialized,
            o.empirica_initialized == self.view().empirica_initialized,
    {
        self.outcome
    }
}

/// A plan carried out to the end sets exactly the flags of the commands it
/// holds: for the commands of `facts`, `git init` ran exactly when the
/// workspace had no git metadata, and `empirica project-init` exactly when
/// it had no practice.
pub proof fn lemma_completed_run_flags(facts: WorkspaceFacts)
    ensures
        flags_after(commands_of(facts), commands_of(facts).len()) == (!facts.git_exists, !facts.empirica_exists),
{
    let cs = commands_of(facts);
    assert(cs.take(cs.len() as int) =~= cs);
    let g = if facts.git_exists { Seq::<BootstrapCommand>::empty() } else { seq![BootstrapCommand::GitInit] };
    let e = if facts.empirica_exists { Seq::<BootstrapCommand>::empty() } else { seq![BootstrapCommand::EmpiricaProjectInit] };
    assert(cs == g + e);
    if !facts.git_exists {
        assert(cs[0] == BootstrapCommand::GitInit);
    } else {
        assert(!cs.contains(BootstrapCommand::GitInit)) by {
            if cs.contains(BootstrapCommand::GitInit) {
                let k = choose|k: int| 0 <= k < cs.len() && cs[k] == BootstrapCommand::GitInit;
                assert(cs[k] == e[k]);
            }
        }
    }
    if !facts.empirica_exists {
        assert(cs[cs.len() - 1] == BootstrapCommand::EmpiricaProjectInit);
    } else {
        assert(!cs.contains(BootstrapCommand::EmpiricaProjectInit)) by {
            if cs.contains(BootstrapCommand::EmpiricaProjectInit) {
                let k = choose|k: int| 0 <= k < cs.len() && cs[k] == BootstrapCommand::EmpiricaProjectInit;
                assert(cs[k] == g[k]);
            }
        }
    }
}

// ───────────────────────────── the project file ───────────────────────────

/// One line (with its line break) rewritten: a line whose body starts with
/// `ai_id:` becomes `ai_id: <quoted>` with the same line break (`\r\n`,
/// `\n` or none); any other line is kept. The count is 1 for a rewritten
/// line.
pub open spec fn rewrite_line(line: Seq<char>, quoted: Seq<char>) -> (Seq<char>, nat) {
    if seq_starts_with(line_body(line), "ai_id:"@) {
        ("ai_id: "@ + quoted + line.subrange(line_body(line).len() as int, line.len() as int), 1)
    } else {
        (line, 0)
    }
}

/// A line without its line break (`\r\n`, `\n` or none).
pub open spec fn line_body(line: Seq<char>) -> Seq<char> {
    if line.len() >= 2 && line[line.len() - 2] == '\r' && line.last() == '\n' {
        line.subrange(0, line.len() - 2)
    } else if line.len() >= 1 && line.last() == '\n' {
        line.subrange(0, line.len() - 1)
    } else {
        line
    }
}

/// The lines of `s` from position `i` rewritten, and how many were.
pub open spec fn rewrite_from(s: Seq<char>, quoted: Seq<char>, i: int) -> (Seq<char>, nat)
    decreases s.len() - i,
{
    if i < 0 || i >= s.len() || line_end(s, i) <= i || line_end(s, i) > s.len() {
        (Seq::empty(), 0)
    } else {
        let (l, c) = rewrite_line(s.subrange(i, line_end(s, i)), quoted);
        let (rest, n) = rewrite_from(s, quoted, line_end(s, i));
        (l + rest, c + n)
    }
}

/// The project file with its `ai_id` set to `ai_id`, quoted as a JSON
/// string; `Err` with the count when there is not exactly one `ai_id:`
/// line (or serde_json refuses to quote it, with count 0).
pub open spec fn ai_id_rewrite(contents: Seq<char>, ai_id: Seq<char>) -> Result<Seq<char>, nat> {
    match json_serialized(JsonV::Str(ai_id)) {
        None => Err(0),
        Some(q) => {
            let (out, n) = rewrite_from(contents, q, 0);
            if n == 1 {
                Ok(out)
            } else {
                Err(n)
            }
        },
    }
}

fn rewrite_line_exec(line: &[char], quoted: &str) -> (r: (Vec<char>, usize))
    ensures
        r.0@ == rewrite_line(line@, quoted@).0,
        r.1 == rewrite_line(line@, quoted@).1,
{
    proof {
        reveal_strlit("ai_id: ");
    }
    let n = line.len();
    let body_len: usize = if n >= 2 && line[n - 2] == '\r' && line[n - 1] == '\n' {
        n - 2
    } else if n >= 1 && line[n - 1] == '\n' {
        n - 1
    } else {
        n
    };
    let (body, brk) = line.split_at(body_len);
    assert(body@ =~= line_body(line@));
    assert(brk@ =~= line@.subrange(body_len as int, n as int));
    let prefix = chars_of("ai_id:");
    if crate::text::starts_with_chars(body, prefix.as_slice()) {
        let mut out = chars_of("ai_id: ");
        let mut q = chars_of(quoted);
        out.append(&mut q);
        let mut k: usize = 0;
        let ghost head = out@;
        while k < brk.len()
            invariant
                k <= brk.len(),
                out@ == head + brk@.take(k as int),
            decreases brk.len() - k,
        {
            out.push(brk[k]);
            assert(brk@.take(k + 1) =~= brk@.take(k as int).push(brk@[k as int]));
            k += 1;
        }
        assert(brk@.take(brk.len() as int) =~= brk@);
        (out, 1)
    } else {
        let mut out: Vec<char> = Vec::new();
        let mut k: usize = 0;
        while k < n
            invariant
                k <= n,
                n == line@.len(),
                out@ == line@.take(k as int),
            decreases n - k,
        {
            out.push(line[k]);
            assert(line@.take(k + 1) =~= line@.take(k as int).push(line@[k as int]));
            k += 1;
        }
        assert(line@.take(n as int) =~= line@);
        (out, 0)
    }
}

fn line_end_of(s: &[char], i: usize) -> (e: usize)
    requires
        i < s.len(),
    ensures
        e == line_end(s@, i as int),
        i < e <= s.len(),
{
    let mut k = i;
    while k < s.len() && s[k] != '\n'
        invariant
            i <= k <= s.len(),
            line_end(s@, i as int) == line_end(s@, k as int),
        decreases s.len() - k,
    {
        k += 1;
    }
    if k < s.len() {
        k + 1
    } else {
        assert(line_end(s@, k as int) == s.len());
        k
    }
}

/// Set the project file's `ai_id`.
pub fn rewrite_ai_id(contents: &str, ai_id: &str) -> (r: Result<String, usize>)
    ensures
        match ai_id_rewrite(contents@, ai_id@) {
            Ok(t) => r matches Ok(s) && s@ == t,
            Err(n) => r == Err::<String, usize>(n as usize),
        },
{
    let quoted = match serialize_json(&Json::Str(ai_id.to_string())) {
        Some(q) => q,
        None => {
            return Err(0);
        },
    };
    let s = chars_of(contents);
    let ghost q = quoted@;
    let mut out: Vec<char> = Vec::new();
    let mut count: usize = 0;
    let mut i: usize = 0;
    while i < s.len()
        invariant
            i <= s.len(),
            s@ == contents@,
            quoted@ == q,
            count <= i,
            out@ + rewrite_from(s@, q, i as int).0 == rewrite_from(s@, q, 0).0,
            count + rewrite_from(s@, q, i as int).1 == rewrite_from(s@, q, 0).1,
        decreases s.len() - i,
    {
        let e = line_end_of(s.as_slice(), i);
        let line: &[char] = s.as_slice().split_at(e).0.split_at(i).1;
        assert(line@ =~= s@.subrange(i as int, e as int));
        let (mut l, c) = rewrite_line_exec(line, quoted.as_str());
        let ghost before = out@;
        out.append(&mut l);
        assert(before + (rewrite_line(line@, q).0 + rewrite_from(s@, q, e as int).0) =~= out@ + rewrite_from(
            s@,
            q,
            e as int,
        ).0);
        count = count + c;
        i = e;
    }
    assert(out@ + Seq::<char>::empty() =~= out@);
    if count == 1 {
        Ok(string_from_chars(out.as_slice()))
    } else {
        Err(count)
    }
}

} // verus!
