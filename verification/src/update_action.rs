//! The self-update command the CLI runs after the TUI exits, for the
//! channels the product is distributed through.

use vstd::prelude::*;

use crate::text::{concat3, concat_str};

verus! {

/// How the running binary was installed.
#[derive(Debug, Clone, Copy, PartialEq, Eq)]
pub enum InstallMethod {
    Npm,
    Bun,
    Pnpm,
    Brew,
    Standalone { platform: StandalonePlatform },
    Other,
}

/// The platform of a standalone install.
#[derive(Debug, Clone, Copy, PartialEq, Eq)]
pub enum StandalonePlatform {
    Unix,
    Windows,
}

/// The update to perform after the TUI exits.
#[derive(Debug, Clone, Copy, PartialEq, Eq, Structural)]
pub enum UpdateAction {
    /// `brew upgrade EmpiricaAI/tap/ecodex`.
    BrewUpgrade,
    /// Re-run the installer script (idempotent).
    StandaloneUnix,
}

/// The installer one-liner run through `sh -c`.
pub open spec fn installer_line() -> Seq<char> {
    "curl -fsSL https://raw.githubusercontent.com/EmpiricaAI/ecodex/main/scripts/install.sh | bash"@
}

/// The program and the arguments of an update action.
pub open spec fn action_command(a: UpdateAction) -> (Seq<char>, Seq<Seq<char>>) {
    match a {
        UpdateAction::BrewUpgrade => ("brew"@, seq!["upgrade"@, "EmpiricaAI/tap/ecodex"@]),
        UpdateAction::StandaloneUnix => ("sh"@, seq!["-c"@, installer_line()]),
    }
}

/// The views of a list of string slices.
pub open spec fn strs_view(v: Seq<&str>) -> Seq<Seq<char>> {
    v.map_values(|s: &str| s@)
}

/// `words` joined with single spaces, each quoted for a POSIX shell where
/// needed, as `shlex::try_join` writes it.
pub uninterp spec fn shell_joined(words: Seq<Seq<char>>) -> Seq<char>;

/// `shlex::try_join`: the words quoted as needed and separated by single
/// spaces; it refuses (here `None`) exactly when a word holds a NUL
/// character.
#[verifier::external_body]
fn shell_join(words: &[&str]) -> (r: Option<String>)
    ensures
        match r {
            Some(s) => s@ == shell_joined(strs_view(words@)) && forall|i: int|
                0 <= i < words@.len() ==> !words@[i]@.contains('\0'),
            None => exists|i: int| 0 <= i < words@.len() && words@[i]@.contains('\0'),
        },
{
    shlex::try_join(words.iter().copied()).ok()
}

/// `words` joined with single spaces, unquoted.
pub open spec fn space_joined(words: Seq<Seq<char>>) -> Seq<char>
    decreases words.len(),
{
    if words.len() == 0 {
        Seq::empty()
    } else if words.len() == 1 {
        words[0]
    } else {
        space_joined(words.drop_last()) + " "@ + words.last()
    }
}

impl UpdateAction {
    /// Map an install method to the update action for it; `None` for the
    /// channels the product is not distributed through (npm, bun, pnpm,
    /// standalone Windows, other).
    pub fn from_install_method(method: &InstallMethod) -> (r: Option<UpdateAction>)
        ensures
            r == match *method {
                InstallMethod::Brew => Some(UpdateAction::BrewUpgrade),
                InstallMethod::Standalone { platform: StandalonePlatform::Unix } => Some(UpdateAction::StandaloneUnix),
                _ => None::<UpdateAction>,
            },
    {
        match method {
            InstallMethod::Brew => Some(UpdateAction::BrewUpgrade),
            InstallMethod::Standalone { platform: StandalonePlatform::Unix } => Some(UpdateAction::StandaloneUnix),
            _ => None,
        }
    }

    /// The program and its arguments for this update.
    pub fn command_args(self) -> (r: (&'static str, &'static [&'static str]))
        ensures
            r.0@ == action_command(self).0,
            strs_view(r.1@) == action_command(self).1,
    {
        match self {
            UpdateAction::BrewUpgrade => {
                let args: &'static [&'static str] = &["upgrade", "EmpiricaAI/tap/ecodex"];
                assert(strs_view(args@) =~= seq!["upgrade"@, "EmpiricaAI/tap/ecodex"@]);
                ("brew", args)
            },
            UpdateAction::StandaloneUnix => {
                let args: &'static [&'static str] = &[
                    "-c",
                    "curl -fsSL https://raw.githubusercontent.com/EmpiricaAI/ecodex/main/scripts/install.sh | bash",
                ];
                assert(strs_view(args@) =~= seq!["-c"@, installer_line()]);
                ("sh", args)
            },
        }
    }

    /// The update command as one shell line: the program and its arguments
    /// quoted by `shlex::try_join`, or joined with spaces unquoted should it
    /// refuse them.
    pub fn command_str(self) -> (s: String)
        ensures
            ({
                let (command, args) = action_command(self);
                let words = seq![command] + args;
                s@ == if forall|i: int| 0 <= i < words.len() ==> !words[i].contains('\0') {
                    shell_joined(words)
                } else {
                    command + " "@ + space_joined(args)
                }
            }),
    {
        let (command, args) = self.command_args();
        let mut words: Vec<&str> = Vec::new();
        words.push(command);
        let mut i: usize = 0;
        while i < args.len()
            invariant
                i <= args.len(),
                strs_view(words@) == seq![command@] + strs_view(args@).take(i as int),
            decreases args.len() - i,
        {
            let ghost before = words@;
            words.push(args[i]);
            assert(strs_view(words@) =~= strs_view(before).push(args@[i as int]@));
            assert(strs_view(args@).take(i + 1) =~= strs_view(args@).take(i as int).push(args@[i as int]@));
            assert(strs_view(words@) =~= seq![command@] + strs_view(args@).take(i + 1));
            i += 1;
        }
        assert(strs_view(args@).take(args.len() as int) =~= strs_view(args@));
        match shell_join(words.as_slice()) {
            Some(s) => {
                proof {
                    let ws = strs_view(words@);
                    assert forall|k: int| 0 <= k < ws.len() implies !ws[k].contains('\0') by {
                        assert(ws[k] == words@[k]@);
                    }
                }
                s
            },
            None => {
                proof {
                    let ws = strs_view(words@);
                    let k = choose|k: int| 0 <= k < words@.len() && words@[k]@.contains('\0');
                    assert(ws[k] == words@[k]@);
                }
                let mut joined = String::new();
                let ghost av = strs_view(args@);
                let mut j: usize = 0;
                while j < args.len()
                    invariant
                        j <= args.len(),
                        av == strs_view(args@),
                        joined@ == space_joined(av.take(j as int)),
                    decreases args.len() - j,
                {
                    proof {
                        assert(av.take(j + 1).drop_last() =~= av.take(j as int));
                        assert(av.take(j + 1).last() == args@[j as int]@);
                    }
                    if j == 0 {
                        joined = args[j].to_string();
                        assert(av.take(1) =~= seq![args@[0]@]);
                    } else {
                        joined = concat3(joined.as_str(), " ", args[j]);
                    }
                    j += 1;
                }
                assert(av.take(args.len() as int) =~= av);
                concat3(command, " ", joined.as_str())
            },
        }
    }
}

} // verus!
