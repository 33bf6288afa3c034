use pym2::cli::{
    add_app_to_config, add_cmd, add_fastapi, add_parsed_cmd, append_app, build_fastapi_command,
    check_schedule, client_from_config, doctor, inspect, inspect_app, inspect_payload,
    lint_config, lint_errors, log_paths_for_app, logs_lines, logs_payload, parse_command_string,
    ping, ping_payload, print_status, run, run_client_command, save_outcome, show_log_line,
    simple_action, status_apps, status_payload, ClientAction, Commands, ConfigCommands, Findings,
};
use pym2::config::ConfigSource;
use pym2::error::{IoFailure, IoKind, PyopsError};
use pym2::ipc::WireResponse;
use pym2::model::{
    AgentConfig, AppDetails, AppRuntimeState, AppSpec, AppStatus, AppSummary, ConfigFile,
    IpcRequest, LogSource, PingData, RestartPolicy, StreamLogEvent,
};

fn cmd_app(name: &str, command: &str) -> AppSpec {
    add_cmd(
        name.to_string(),
        "/srv/api".to_string(),
        command.to_string(),
        None,
        None,
        true,
        RestartPolicy::OnFailure,
    )
    .unwrap_or_else(|e| panic!("{}", e.to_string()))
}

fn config(apps: Vec<AppSpec>) -> ConfigFile {
    ConfigFile {
        agent: AgentConfig::default(),
        apps,
    }
}

fn wire(ok: bool, data: Option<u32>, error: Option<&str>) -> WireResponse<u32> {
    WireResponse {
        ok,
        data,
        error: error.map(|e| e.to_string()),
    }
}

#[test]
fn build_fastapi_command_uses_venv_python() {
    let cmd = build_fastapi_command(".venv", "app.main:app", "0.0.0.0", 8000);
    assert_eq!(cmd[0], ".venv/bin/python");
    assert_eq!(cmd[1], "-m");
    assert_eq!(cmd[2], "uvicorn");
    assert_eq!(cmd[3], "app.main:app");
    assert_eq!(&cmd[4..], ["--host", "0.0.0.0", "--port", "8000"]);
}

#[test]
fn parse_command_string_handles_quotes() {
    let parsed = parse_command_string("python -m http.server \"9000\"").expect("parse command");
    assert_eq!(
        parsed,
        vec![
            "python".to_string(),
            "-m".to_string(),
            "http.server".to_string(),
            "9000".to_string()
        ]
    );
}

#[test]
fn command_strings_without_quotes_are_split_at_blanks() {
    let parsed = parse_command_string("  python\t-m \n http.server ").expect("parse command");
    assert_eq!(parsed, vec!["python", "-m", "http.server"]);
    assert!(parse_command_string("").expect("empty").is_empty());
    assert_eq!(parse_command_string("a\\ b").expect("escaped"), vec!["a b"]);
}

#[test]
fn an_open_quote_is_an_error() {
    assert_eq!(
        parse_command_string("python \"x").unwrap_err().to_string(),
        "config error: invalid --command value: missing closing quote"
    );
}

#[test]
fn a_command_app_needs_a_word() {
    let app = cmd_app("api", "python app.py");
    assert_eq!(app.command, vec!["python", "app.py"]);
    assert_eq!(app.venv, "");
    assert_eq!(app.stop_signal, "SIGTERM");
    assert_eq!(app.kill_timeout_ms, 8000);
    let none = add_parsed_cmd(
        "api".to_string(),
        "/".to_string(),
        Ok(Vec::new()),
        None,
        None,
        true,
        RestartPolicy::Never,
    );
    match none {
        Err(e) => assert_eq!(
            e.to_string(),
            "config error: --command must contain at least one executable"
        ),
        Ok(_) => panic!("no word"),
    }
}

#[test]
fn a_fastapi_app_needs_an_environment() {
    let make = |venv: &str| {
        add_fastapi(
            "api".to_string(),
            "/srv".to_string(),
            "app:app".to_string(),
            "127.0.0.1".to_string(),
            8000,
            venv.to_string(),
            Some(".env".to_string()),
            None,
            false,
            RestartPolicy::Always,
        )
    };
    match make(".venv///") {
        Ok(app) => {
            assert_eq!(app.command[0], ".venv/bin/python");
            assert_eq!(app.entry, "app:app");
            assert_eq!(app.env_file.as_deref(), Some(".env"));
            assert!(!app.autostart);
        }
        Err(_) => panic!("good"),
    }
    match make(" ") {
        Err(e) => assert_eq!(
            e.to_string(),
            "config error: --venv cannot be empty for add-fastapi"
        ),
        Ok(_) => panic!("blank"),
    }
}

#[test]
fn commands_are_for_linux_except_the_diagnosis() {
    assert!(run(true, Commands::Ping).is_ok());
    assert!(run(false, Commands::Doctor).is_ok());
    match run(false, Commands::Ping) {
        Err(e) => assert_eq!(e.to_string(), "config error: pym2 is Linux-only"),
        Ok(_) => panic!("elsewhere"),
    }
}

#[test]
fn commands_ask_the_agent() {
    let start = run_client_command(Commands::Start {
        name: "api".to_string(),
    });
    assert!(matches!(start, ClientAction::Simple(IpcRequest::Start { name }) if name == "api"));
    let logs = Commands::Logs {
        name: "api".to_string(),
        tail: 7,
        follow: false,
        source: LogSource::Stderr,
    };
    assert!(matches!(
        run_client_command(logs),
        ClientAction::Logs(IpcRequest::TailLogs { tail: 7, source: LogSource::Stderr, .. })
    ));
    let logs = Commands::Logs {
        name: "api".to_string(),
        tail: 7,
        follow: true,
        source: LogSource::Both,
    };
    assert!(matches!(
        run_client_command(logs),
        ClientAction::FollowLogs(IpcRequest::StreamLogs { tail: 7, follow_interval_ms: 400, .. })
    ));
    assert!(matches!(
        run_client_command(Commands::Events { follow: false }),
        ClientAction::Nothing
    ));
    assert!(matches!(
        run_client_command(Commands::Config { action: ConfigCommands::Lint }),
        ClientAction::Nothing
    ));
}

#[test]
fn replies_and_refusals() {
    assert_eq!(simple_action(wire(true, Some(1), None)).unwrap(), Some(1));
    assert_eq!(
        simple_action(wire(false, None, None)).unwrap_err().to_string(),
        "ipc error: operation failed"
    );
    assert_eq!(
        status_payload(wire(false, None, Some("no"))).unwrap_err().to_string(),
        "ipc error: no"
    );
    assert_eq!(
        status_payload(wire(true, None, None)).unwrap_err().to_string(),
        "ipc error: status returned empty payload"
    );
    assert_eq!(
        status_apps::<u32>(None).unwrap_err().to_string(),
        "ipc error: status payload missing 'apps'"
    );
    assert_eq!(
        inspect_payload(wire(false, None, None)).unwrap_err().to_string(),
        "ipc error: inspect failed"
    );
    assert_eq!(
        inspect_app::<u32>(None).unwrap_err().to_string(),
        "ipc error: inspect payload missing 'app'"
    );
    assert_eq!(
        logs_payload(wire(true, None, None)).unwrap_err().to_string(),
        "ipc error: logs returned empty payload"
    );
    assert_eq!(logs_lines(Some(4)).unwrap(), 4);
    assert_eq!(ping_payload(wire(true, Some(9), None)).unwrap(), 9);
}

fn summary(name: &str, command: &[&str], entry: &str) -> AppSummary {
    AppSummary {
        name: name.to_string(),
        cwd: "/srv".to_string(),
        command: command.iter().map(|s| s.to_string()).collect(),
        entry: entry.to_string(),
        restart: RestartPolicy::OnFailure,
        runtime: AppRuntimeState::default(),
    }
}

#[test]
fn the_list_is_in_the_order_of_the_names() {
    let mut worker = summary("worker", &["python", "w.py"], "");
    worker.runtime.status = AppStatus::Running;
    worker.runtime.pid = Some(42);
    worker.runtime.last_reason = Some("running".to_string());
    let mut api = summary("api", &[], "app:app");
    api.runtime.last_error = Some("boom".to_string());
    api.runtime.restart_count = 3;
    let bare = summary("bare", &[], "");
    let lines = print_status(vec![worker, bare, api]);
    assert_eq!(
        lines,
        vec![
            "api | Stopped | pid=- | restarts=3 | reason=boom | legacy:app:app",
            "bare | Stopped | pid=- | restarts=0 | reason=- | -",
            "worker | Running | pid=42 | restarts=0 | reason=running | python w.py",
        ]
    );
}

#[test]
fn one_app_in_detail() {
    let mut app = AppDetails {
        spec: cmd_app("api", "python app.py"),
        runtime: AppRuntimeState::default(),
    };
    app.runtime.status = AppStatus::Errored;
    app.runtime.last_exit_code = Some(-1);
    app.runtime.last_exit_signal = Some("SIGKILL".to_string());
    app.runtime.last_start_attempt_at = Some(100);
    let lines = inspect(&app, false, "/l/api.out.log", "/l/api.err.log");
    assert_eq!(
        lines,
        vec![
            "name: api",
            "status: Errored",
            "pid: -",
            "cwd: /srv/api",
            "command: python app.py",
            "env_file: -",
            "last_start: 100",
            "started_at: -",
            "last_exit: code=-1 signal=SIGKILL",
            "restart: OnFailure | count: 0 | next_schedule: -",
            "reason: -",
            "stdout_log: /l/api.out.log",
            "stderr_log: /l/api.err.log",
        ]
    );
}

#[test]
fn log_lines_say_where_they_come_from() {
    let event = |source| StreamLogEvent {
        source,
        line: "hi".to_string(),
    };
    assert_eq!(show_log_line(event(LogSource::Stdout)), ("[OUT] hi".to_string(), false));
    assert_eq!(show_log_line(event(LogSource::Stderr)), ("[ERR] hi".to_string(), true));
    assert_eq!(show_log_line(event(LogSource::Both)), ("hi".to_string(), false));
}

#[test]
fn ping_tells_version_and_process() {
    let info = PingData {
        version: " 1.2.0\n".to_string(),
        agent_pid: 7,
    };
    assert_eq!(ping(&info), "ok version=1.2.0 agent_pid=7");
}

fn findings() -> Findings {
    Findings {
        os: "linux".to_string(),
        config_path: "/etc/pym2/config.toml".to_string(),
        config: Ok(config(Vec::new())),
        home: None,
        socket_exists: true,
        agent: Ok(PingData {
            version: "1.2.0".to_string(),
            agent_pid: 7,
        }),
        state_dir_writable: true,
        config_dir: Some(("/etc/pym2".to_string(), false)),
    }
}

#[test]
fn the_diagnosis_of_a_healthy_machine() {
    let report = doctor(findings());
    assert!(report.result.is_ok());
    assert_eq!(
        report.lines,
        vec![
            "OS: ok (linux)",
            "Config path: /etc/pym2/config.toml",
            "Socket: ok (/run/pym2/pym2.sock)",
            "Agent connect: ok (version=1.2.0, pid=7)",
            "State dir writable: ok (/var/lib/pym2)",
            "Config dir writable: warn (/etc/pym2) (run as root to edit system config)",
            "Web UI: disabled on 127.0.0.1:17877",
        ]
    );
}

#[test]
fn the_diagnosis_of_a_sick_machine() {
    let mut found = findings();
    found.os = "macos".to_string();
    found.socket_exists = false;
    found.agent = Err(PyopsError::Ipc("refused".to_string()));
    let report = doctor(found);
    assert_eq!(report.lines[0], "OS: fail (macos; pym2 is Linux-only)");
    assert_eq!(
        report.lines[2],
        "Socket: warn (/run/pym2/pym2.sock) missing; agent may be stopped"
    );
    assert_eq!(report.lines[3], "Agent connect: fail (ipc error: refused)");
    assert_eq!(
        report.result.unwrap_err().to_string(),
        "config error: doctor found critical issues"
    );

    let mut found = findings();
    found.config = Err(PyopsError::TomlDe("bad".to_string()));
    let report = doctor(found);
    assert_eq!(report.lines.len(), 2);
    assert_eq!(report.result.unwrap_err().to_string(), "toml parse error: bad");
}

#[test]
fn apps_are_added_once() {
    let cfg = config(vec![cmd_app("api", "python a.py")]);
    let cfg = match append_app(cfg, cmd_app("worker", "python w.py")) {
        Ok(cfg) => cfg,
        Err(_) => panic!("new"),
    };
    assert_eq!(cfg.apps.len(), 2);
    assert_eq!(cfg.apps[1].name, "worker");
    match append_app(cfg, cmd_app("api", "python b.py")) {
        Err(e) => assert_eq!(e.to_string(), "config error: app 'api' already exists"),
        Ok(_) => panic!("taken"),
    }
    let mut late = cmd_app("late", "x");
    late.restart_schedule = Some("hourly".to_string());
    assert!(check_schedule(&late).is_err());
    match append_app(config(Vec::new()), late) {
        Err(e) => assert_eq!(
            e.to_string(),
            "config error: unsupported restart_schedule 'hourly'; use daily@HH:MM or weekly@sun HH:MM"
        ),
        Ok(_) => panic!("schedule"),
    }
}

/// A rendering that shows which apps there are.
fn names_of(cfg: &ConfigFile) -> Result<String, String> {
    let names: Vec<String> = cfg.apps.iter().map(|a| a.name.clone()).collect();
    Ok(names.join(" "))
}

#[test]
fn an_app_is_added_to_the_file() {
    let there = || ConfigSource::Parsed(config(vec![cmd_app("api", "python a.py")]));
    let new = || cmd_app("worker", "python w.py");
    let path = Some("/c.toml");

    let added = add_app_to_config(new(), path, true, there(), names_of);
    assert!(added.warnings.is_empty());
    let (to, text) = added.save.unwrap();
    assert_eq!(to, "/c.toml");
    assert_eq!(text, "api worker");

    // A name that is taken, a schedule that cannot be read, an app that does not
    // pass its checks, a rendering that fails: nothing is to be written.
    let taken = add_app_to_config(cmd_app("api", "x"), path, true, there(), names_of);
    assert_eq!(
        taken.save.unwrap_err().to_string(),
        "config error: app 'api' already exists"
    );
    let mut late = new();
    late.restart_schedule = Some("hourly".to_string());
    assert!(add_app_to_config(late, path, true, there(), names_of).save.is_err());
    let mut nameless = new();
    nameless.name.clear();
    assert!(add_app_to_config(nameless, path, true, there(), names_of).save.is_err());
    let failed = add_app_to_config(new(), path, true, there(), |_| Err("no".to_string()));
    assert_eq!(
        failed.save.unwrap_err().to_string(),
        "config error: failed to serialize config /c.toml: no"
    );
}

#[test]
fn an_app_is_added_where_there_is_no_file() {
    let gone = || ConfigSource::Unreadable("not found".to_string());
    let added = add_app_to_config(cmd_app("api", "x"), None, false, gone(), names_of);
    let (path, text) = added.save.unwrap();
    assert_eq!(path, "/etc/pym2/config.toml");
    assert_eq!(text, "api");

    // A file that is there has to be readable.
    let added = add_app_to_config(cmd_app("api", "x"), Some("/c"), true, gone(), names_of);
    assert_eq!(
        added.save.unwrap_err().to_string(),
        "config error: failed to read config /c: not found"
    );
}

#[test]
fn adding_an_app_warns_of_legacy_ones() {
    let mut old = cmd_app("old", "x");
    old.command.clear();
    old.venv = ".venv".to_string();
    old.entry = "app:app".to_string();
    let source = ConfigSource::Parsed(config(vec![old]));
    let added = add_app_to_config(cmd_app("api", "x"), Some("/c"), true, source, names_of);
    assert_eq!(
        added.warnings,
        vec![
            "warning: app 'old' uses legacy venv/entry config; this is deprecated, prefer command=[...]"
        ]
    );
    assert!(added.save.is_ok());
}

#[test]
fn saves_that_are_not_allowed() {
    let denied = |kind| {
        Err(PyopsError::Io(IoFailure {
            kind,
            message: "no".to_string(),
        }))
    };
    assert_eq!(save_outcome("/c", Ok(())).unwrap(), "saved /c");
    assert_eq!(
        save_outcome("/c", denied(IoKind::PermissionDenied)).unwrap_err().to_string(),
        "config error: cannot write /c (permission denied). run as root or edit /etc/pym2/config.toml"
    );
    assert_eq!(
        save_outcome("/c", denied(IoKind::Other)).unwrap_err().to_string(),
        "io error: no"
    );
}

#[test]
fn lint_finds_all_that_is_wrong() {
    let mut nameless = cmd_app("x", "x");
    nameless.name = " ".to_string();
    let mut empty = cmd_app("api", "x");
    empty.cwd = "".to_string();
    empty.command = vec!["".to_string()];
    let mut legacy = cmd_app("api", "x");
    legacy.command.clear();
    legacy.restart_schedule = Some("daily@x".to_string());
    let cfg = config(vec![nameless, empty, legacy]);
    assert_eq!(
        lint_errors(&cfg),
        vec![
            "app name cannot be empty",
            "app 'api' has empty cwd",
            "app 'api' command executable is empty",
            "duplicate app name 'api'",
            "app 'api' missing command and legacy fields (need command[] or venv+entry)",
            "app 'api' invalid restart_schedule 'daily@x': config error: invalid time 'x': expected HH:MM",
        ]
    );
    let (out, err, result) = lint_config("/c", ConfigSource::Parsed(cfg)).unwrap();
    assert!(out.is_empty());
    assert_eq!(err[0], "config lint FAILED: /c");
    assert_eq!(err[1], "- app name cannot be empty");
    assert_eq!(err.len(), 7);
    assert_eq!(result.unwrap_err().to_string(), "config error: config lint failed");
}

#[test]
fn lint_of_a_good_configuration() {
    let cfg = config(vec![cmd_app("api", "x")]);
    let (out, err, result) = lint_config("/c", ConfigSource::Parsed(cfg)).unwrap();
    assert_eq!(out, vec!["config lint OK: /c"]);
    assert!(err.is_empty() && result.is_ok());
    match lint_config("/c", ConfigSource::Malformed("m".to_string())) {
        Err(e) => assert_eq!(e.to_string(), "config error: failed to parse config /c: m"),
        Ok(_) => panic!("malformed"),
    }
    match lint_config("/c", ConfigSource::Unreadable("m".to_string())) {
        Err(e) => assert_eq!(e.to_string(), "config error: failed to read config /c: m"),
        Ok(_) => panic!("unreadable"),
    }
}

#[test]
fn paths_of_a_client() {
    let mut cfg = config(Vec::new());
    assert_eq!(
        log_paths_for_app("api", &cfg, None).unwrap(),
        (
            "/var/lib/pym2/logs/api.out.log".to_string(),
            "/var/lib/pym2/logs/api.err.log".to_string()
        )
    );
    cfg.agent.socket = "~/s.sock".to_string();
    assert_eq!(client_from_config(&cfg, Some("/h")).unwrap().socket_path, "/h/s.sock");
    assert!(client_from_config(&cfg, None).is_err());
}
