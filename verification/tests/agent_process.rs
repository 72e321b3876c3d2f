use nextchat::agent::{
    agent_start_action, command_error, AgentStartAction, goose_agent_launch, goose_status_from_probe, goose_status_not_found,
    VersionProbe,
};
use nextchat::config::{AgentEnv, GooseConfig};

#[test]
fn command_error_message() {
    assert_eq!(
        command_error("/bin/goosed", "No such file or directory (os error 2)"),
        "Unable to start Goose at '/bin/goosed'. Put the Goose agent executable in src-tauri/bin for packaging, or set NEXTCHAT_GOOSE_AGENT_BIN. Original error: No such file or directory (os error 2)"
    );
}

#[test]
fn status_when_not_found() {
    let s = goose_status_not_found();
    assert!(!s.available);
    assert_eq!(s.path, None);
    assert_eq!(s.version, None);
    assert_eq!(s.error, Some("Goose agent executable was not found".to_string()));
}

#[test]
fn status_from_version_probe() {
    let ok = goose_status_from_probe("/g".to_string(), VersionProbe::Succeeded { stdout: " goose 1.2.0\n".to_string() });
    assert!(ok.available);
    assert_eq!(ok.path, Some("/g".to_string()));
    assert_eq!(ok.version, Some("goose 1.2.0".to_string()));
    assert_eq!(ok.error, None);

    let quiet = goose_status_from_probe("/g".to_string(), VersionProbe::Succeeded { stdout: "\n".to_string() });
    assert!(quiet.available);
    assert_eq!(quiet.version, None);

    let failed = goose_status_from_probe("/g".to_string(), VersionProbe::Failed { stderr: "bad flag\n".to_string() });
    assert!(!failed.available);
    assert_eq!(failed.path, Some("/g".to_string()));
    assert_eq!(failed.version, None);
    assert_eq!(failed.error, Some("bad flag".to_string()));

    let not_run = goose_status_from_probe("/g".to_string(), VersionProbe::NotRun { error: "denied".to_string() });
    assert!(!not_run.available);
    assert_eq!(not_run.error, Some(command_error("/g", "denied")));
}

#[test]
fn launch_runs_agent_subcommand() {
    let mut c = GooseConfig::default();
    c.port = Some(40000);
    let l = goose_agent_launch("/g", &c, &AgentEnv { host: None, port: None });
    assert_eq!(l.program, "/g");
    assert_eq!(l.args, vec!["agent".to_string()]);
    assert_eq!(l.env[1], ("GOOSE_PORT".to_string(), "40000".to_string()));
    assert_eq!(l.env.len(), 4);
}

#[test]
fn running_agent_is_kept() {
    assert!(matches!(agent_start_action("/g".to_string(), true), AgentStartAction::AlreadyRunning { path } if path == "/g"));
    assert!(matches!(agent_start_action("/g".to_string(), false), AgentStartAction::Launch { path } if path == "/g"));
}
