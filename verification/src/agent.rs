//! Starting the agent process and reporting whether it can be run.
use vstd::prelude::*;
use crate::config::{goose_launch_env, pairs_view, spec_launch_env, AgentEnv, GooseConfig};
use crate::text::{push_str, string_of, trim, trimmed};

verus! {

/// What the desktop app is told about the agent executable.
#[derive(Clone, Debug)]
pub struct GooseStatus {
    pub available: bool,
    pub path: Option<String>,
    pub version: Option<String>,
    pub error: Option<String>,
}

/// A status as values: availability, path, version and error.
pub open spec fn status_view(s: GooseStatus) -> (bool, Option<Seq<char>>, Option<Seq<char>>, Option<Seq<char>>) {
    (s.available, crate::config::opt_view(s.path), crate::config::opt_view(s.version), crate::config::opt_view(s.error))
}

/// How running the executable with `--version` went.
#[derive(Clone, Debug)]
pub enum VersionProbe {
    /// It ran and exited successfully, printing `stdout`.
    Succeeded { stdout: String },
    /// It ran and failed, printing `stderr`.
    Failed { stderr: String },
    /// It could not be started; `error` describes why.
    NotRun { error: String },
}

/// The message for an executable that could not be started.
pub open spec fn spec_command_error(command: Seq<char>, err: Seq<char>) -> Seq<char> {
    "Unable to start Goose at '"@ + command
        + "'. Put the Goose agent executable in src-tauri/bin for packaging, or set NEXTCHAT_GOOSE_AGENT_BIN. Original error: "@
        + err
}

/// The message for an executable that could not be started, with the
/// operating system's description of the error.
pub fn command_error(command: &str, err: &str) -> (r: String)
    ensures
        r@ == spec_command_error(command@, err@),
{
    let mut out: Vec<char> = Vec::new();
    push_str(&mut out, "Unable to start Goose at '");
    push_str(&mut out, command);
    push_str(
        &mut out,
        "'. Put the Goose agent executable in src-tauri/bin for packaging, or set NEXTCHAT_GOOSE_AGENT_BIN. Original error: ",
    );
    push_str(&mut out, err);
    assert(out@ =~= spec_command_error(command@, err@));
    string_of(out.as_slice())
}

/// The status when no executable was found.
pub open spec fn spec_status_not_found() -> (bool, Option<Seq<char>>, Option<Seq<char>>, Option<Seq<char>>) {
    (false, None, None, Some("Goose agent executable was not found"@))
}

/// The status when no executable was found.
pub fn goose_status_not_found() -> (r: GooseStatus)
    ensures
        status_view(r) == spec_status_not_found(),
{
    GooseStatus {
        available: false,
        path: None,
        version: None,
        error: Some("Goose agent executable was not found".to_owned()),
    }
}

/// The status of the executable at `path` after the version probe: available
/// with its trimmed version (none when that is empty) when the probe
/// succeeded; otherwise unavailable, with the trimmed error output, or with
/// the start error.
pub open spec fn spec_status_from_probe(path: Seq<char>, probe: VersionProbe) -> (bool, Option<Seq<char>>, Option<Seq<char>>, Option<Seq<char>>) {
    match probe {
        VersionProbe::Succeeded { stdout } => (true, Some(path), if trim(stdout@).len() == 0 {
            None
        } else {
            Some(trim(stdout@))
        }, None),
        VersionProbe::Failed { stderr } => (false, Some(path), None, Some(trim(stderr@))),
        VersionProbe::NotRun { error } => (false, Some(path), None, Some(
            spec_command_error(path, error@),
        )),
    }
}

/// The status of the executable at `path` after the version probe.
pub fn goose_status_from_probe(path: String, probe: VersionProbe) -> (r: GooseStatus)
    ensures
        status_view(r) == spec_status_from_probe(path@, probe),
{
    match probe {
        VersionProbe::Succeeded { stdout } => {
            let v = trimmed(stdout.as_str());
            GooseStatus {
                available: true,
                path: Some(path),
                version: if v.len() == 0 {
                    None
                } else {
                    Some(string_of(v.as_slice()))
                },
                error: None,
            }
        },
        VersionProbe::Failed { stderr } => {
            let e = trimmed(stderr.as_str());
            GooseStatus {
                available: false,
                path: Some(path),
                version: None,
                error: Some(string_of(e.as_slice())),
            }
        },
        VersionProbe::NotRun { error } => {
            let msg = command_error(path.as_str(), error.as_str());
            GooseStatus { available: false, path: Some(path), version: None, error: Some(msg) }
        },
    }
}

/// How to start the agent: the program, its arguments and its environment.
#[derive(Clone, Debug)]
pub struct AgentLaunch {
    pub program: String,
    pub args: Vec<String>,
    pub env: Vec<(String, String)>,
}

/// The agent is started as `<program> agent` with the launch environment.
pub fn goose_agent_launch(program: &str, config: &GooseConfig, env: &AgentEnv) -> (r: AgentLaunch)
    ensures
        r.program@ == program@,
        r.args@.len() == 1,
        r.args@[0]@ == "agent"@,
        pairs_view(r.env@) == spec_launch_env(*config, *env),
{
    let mut args: Vec<String> = Vec::new();
    args.push("agent".to_owned());
    AgentLaunch { program: program.to_owned(), args, env: goose_launch_env(config, env) }
}


/// What a request to start the agent at `path` comes to.
#[derive(Clone, Debug)]
pub enum AgentStartAction {
    /// The agent started earlier still runs: nothing is started.
    AlreadyRunning { path: String },
    /// A new agent process is started.
    Launch { path: String },
}

/// A running agent is kept; otherwise a new one is launched.
pub fn agent_start_action(path: String, running: bool) -> (r: AgentStartAction)
    ensures
        match r {
            AgentStartAction::AlreadyRunning { path: p } => running && p@ == path@,
            AgentStartAction::Launch { path: p } => !running && p@ == path@,
        },
{
    if running {
        AgentStartAction::AlreadyRunning { path }
    } else {
        AgentStartAction::Launch { path }
    }
}

} // verus!
