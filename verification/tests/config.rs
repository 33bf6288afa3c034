use pym2::config::{
    default_config_path, ensure_state_dirs, expand_tilde, is_loopback_host, load_config,
    load_config_from, load_config_or_defaults_for_client, save_config_to, validate_config,
    ConfigSource,
};
use pym2::error::{IoFailure, IoKind, PyopsError};
use pym2::model::{AgentConfig, AppSpec, ConfigFile, RestartPolicy, WebConfig};
use pym2::names::NameMap;

fn base_config() -> ConfigFile {
    ConfigFile {
        agent: AgentConfig {
            socket: "/run/pym2/pym2.sock".to_string(),
            state_dir: "/var/lib/pym2".to_string(),
            web: WebConfig {
                enabled: false,
                host: "127.0.0.1".to_string(),
                port: 17877,
                password: None,
            },
        },
        apps: vec![AppSpec {
            name: "api".to_string(),
            cwd: "/srv/api".to_string(),
            command: Vec::new(),
            venv: ".venv".to_string(),
            entry: "app.main:app".to_string(),
            args: vec![],
            autostart: true,
            restart: RestartPolicy::OnFailure,
            stop_signal: "SIGTERM".to_string(),
            kill_timeout_ms: 8000,
            restart_schedule: None,
            env_file: None,
            env: NameMap::new(),
        }],
    }
}

fn refusal(cfg: &ConfigFile) -> String {
    match validate_config(cfg) {
        Ok(()) => panic!("the configuration should be refused"),
        Err(e) => e.to_string(),
    }
}

#[test]
fn non_loopback_web_requires_password() {
    let mut cfg = base_config();
    cfg.agent.web.enabled = true;
    cfg.agent.web.host = "0.0.0.0".to_string();
    cfg.agent.web.password = None;

    let err = validate_config(&cfg).expect_err("config should fail without password");
    assert!(err.to_string().contains("Refusing to bind Web UI"));
}

#[test]
fn loopback_web_allows_missing_password() {
    let mut cfg = base_config();
    cfg.agent.web.enabled = true;
    cfg.agent.web.host = "127.0.0.1".to_string();
    cfg.agent.web.password = None;

    validate_config(&cfg).expect("loopback host should allow no password");
}

#[test]
fn web_checks_run_even_when_no_apps() {
    let mut cfg = base_config();
    cfg.apps.clear();
    cfg.agent.web.enabled = true;
    cfg.agent.web.host = "0.0.0.0".to_string();
    cfg.agent.web.password = None;

    let err = validate_config(&cfg).expect_err("web checks must still run");
    assert!(err.to_string().contains("Refusing to bind Web UI"));
}

#[test]
fn command_mode_does_not_require_legacy_fields() {
    let mut cfg = base_config();
    cfg.apps[0].command = vec![
        "python".to_string(),
        "-m".to_string(),
        "http.server".to_string(),
    ];
    cfg.apps[0].venv.clear();
    cfg.apps[0].entry.clear();

    validate_config(&cfg).expect("command mode should allow empty venv/entry");
}

fn strings(items: &[String]) -> toml::Value {
    toml::Value::Array(items.iter().map(|s| toml::Value::String(s.clone())).collect())
}

fn rendered(cfg: &ConfigFile) -> Result<String, String> {
    let mut apps = Vec::new();
    for app in &cfg.apps {
        let mut table = toml::Table::new();
        table.insert("name".to_string(), toml::Value::String(app.name.clone()));
        table.insert("cwd".to_string(), toml::Value::String(app.cwd.clone()));
        table.insert("command".to_string(), strings(&app.command));
        if let Some(file) = &app.env_file {
            table.insert("env_file".to_string(), toml::Value::String(file.clone()));
        }
        apps.push(toml::Value::Table(table));
    }
    let mut root = toml::Table::new();
    root.insert("apps".to_string(), toml::Value::Array(apps));
    toml::to_string_pretty(&root).map_err(|e| e.to_string())
}

fn parsed(text: &str) -> ConfigFile {
    let root: toml::Table = toml::from_str(text).expect("parse toml");
    let mut cfg = base_config();
    let app = root["apps"].as_array().expect("apps")[0].as_table().expect("app").clone();
    cfg.apps[0].venv.clear();
    cfg.apps[0].entry.clear();
    cfg.apps[0].command = app["command"]
        .as_array()
        .expect("command")
        .iter()
        .map(|v| v.as_str().expect("word").to_string())
        .collect();
    cfg.apps[0].env_file = app.get("env_file").map(|v| v.as_str().expect("file").to_string());
    cfg
}

#[test]
fn save_and_load_roundtrip_command_mode() {
    let mut cfg = base_config();
    cfg.apps[0].command = vec![
        "python".to_string(),
        "-m".to_string(),
        "uvicorn".to_string(),
        "app.main:app".to_string(),
    ];
    cfg.apps[0].env_file = Some("/srv/api/.env".to_string());
    cfg.apps[0].venv.clear();
    cfg.apps[0].entry.clear();

    let path = "pym2-config-test.toml";
    let text = save_config_to(path, &cfg, rendered(&cfg)).expect("save config");
    let loaded = load_config_from(path, ConfigSource::Parsed(parsed(&text)))
        .map(|l| l.config)
        .unwrap_or_else(|_| panic!("load config"));

    assert_eq!(loaded.apps.len(), 1);
    assert_eq!(loaded.apps[0].command, cfg.apps[0].command);
    assert_eq!(loaded.apps[0].env_file, cfg.apps[0].env_file);
}

#[test]
fn command_mode_rejects_empty_executable() {
    let mut cfg = base_config();
    cfg.apps[0].command = vec![" ".to_string(), "-m".to_string(), "uvicorn".to_string()];
    cfg.apps[0].venv.clear();
    cfg.apps[0].entry.clear();

    let err = validate_config(&cfg).expect_err("empty executable should fail");
    assert!(err.to_string().contains("command executable"));
}

#[test]
fn rejects_empty_env_file_path() {
    let mut cfg = base_config();
    cfg.apps[0].env_file = Some(" ".to_string());

    let err = validate_config(&cfg).expect_err("empty env_file should fail");
    assert!(err.to_string().contains("env_file"));
}

#[test]
fn every_check_names_what_is_wrong() {
    let mut cfg = base_config();
    cfg.apps[0].name = "  ".to_string();
    assert_eq!(refusal(&cfg), "config error: app name cannot be empty");

    let mut cfg = base_config();
    cfg.apps[0].cwd = "".to_string();
    assert_eq!(refusal(&cfg), "config error: app 'api' cwd cannot be empty");

    let mut cfg = base_config();
    cfg.apps[0].venv = "".to_string();
    assert_eq!(
        refusal(&cfg),
        "config error: app 'api' venv cannot be empty when command is not set"
    );

    let mut cfg = base_config();
    cfg.apps[0].entry = "".to_string();
    assert_eq!(
        refusal(&cfg),
        "config error: app 'api' is missing command and legacy fields; set command=[\"python\",\"-m\",\"uvicorn\",\"app.main:app\"] or provide venv+entry"
    );

    let mut cfg = base_config();
    cfg.apps[0].restart_schedule = Some("daily@25:00".to_string());
    assert_eq!(
        refusal(&cfg),
        "config error: invalid time '25:00': hour must be 0..23 and minute 0..59"
    );

    let mut cfg = base_config();
    cfg.agent.web.host = " ".to_string();
    assert_eq!(refusal(&cfg), "config error: agent.web.host cannot be empty");

    let mut cfg = base_config();
    cfg.agent.web.port = 0;
    assert_eq!(refusal(&cfg), "config error: agent.web.port must be in range 1..65535");
}

#[test]
fn a_later_app_is_checked_too() {
    let mut cfg = base_config();
    let mut second = cfg.apps[0].clone();
    second.name = "worker".to_string();
    second.cwd = " ".to_string();
    cfg.apps.push(second);
    assert_eq!(refusal(&cfg), "config error: app 'worker' cwd cannot be empty");
}

#[test]
fn public_web_with_password_is_fine() {
    let mut cfg = base_config();
    cfg.agent.web.enabled = true;
    cfg.agent.web.host = "0.0.0.0".to_string();
    cfg.agent.web.password = Some("change-me".to_string());
    assert!(validate_config(&cfg).is_ok());
    cfg.agent.web.password = Some("   ".to_string());
    assert!(validate_config(&cfg).is_err());
}

#[test]
fn loopback_hosts() {
    assert!(is_loopback_host("127.0.0.1"));
    assert!(is_loopback_host("localhost"));
    assert!(is_loopback_host("::1"));
    assert!(is_loopback_host("[::1]"));
    assert!(!is_loopback_host("0.0.0.0"));
    assert!(!is_loopback_host("LOCALHOST"));
}

#[test]
fn config_path_from_the_environment() {
    assert_eq!(default_config_path(None).unwrap(), "/etc/pym2/config.toml");
    assert_eq!(default_config_path(Some("  ")).unwrap(), "/etc/pym2/config.toml");
    assert_eq!(default_config_path(Some(" /tmp/c.toml ")).unwrap(), "/tmp/c.toml");
}

#[test]
fn tilde_paths() {
    assert_eq!(expand_tilde("/var/lib", None).unwrap(), "/var/lib");
    assert_eq!(expand_tilde("~", Some("/home/u")).unwrap(), "/home/u");
    assert_eq!(expand_tilde("~/x/y", Some("/home/u")).unwrap(), "/home/u/x/y");
    assert_eq!(
        expand_tilde("~", None).unwrap_err().to_string(),
        "config error: HOME is not set; cannot resolve '~' paths"
    );
    assert_eq!(
        expand_tilde("~other/x", Some("/home/u")).unwrap_err().to_string(),
        "config error: unsupported '~' form: ~other/x"
    );
}

#[test]
fn state_paths_of_a_configuration() {
    let mut cfg = base_config();
    cfg.agent.state_dir = "~/state".to_string();
    let paths = ensure_state_dirs(&cfg, Some("/home/u")).unwrap_or_else(|_| panic!("paths"));
    assert_eq!(paths.state_dir, "/home/u/state");
    assert_eq!(paths.socket, "/run/pym2/pym2.sock");
    assert_eq!(paths.logs_dir, "/home/u/state/logs");
    assert!(ensure_state_dirs(&cfg, None).is_err());
}

#[test]
fn loading_reports_and_warns() {
    let unreadable = load_config(None, ConfigSource::Unreadable("gone".to_string()));
    match unreadable {
        Err(e) => assert_eq!(
            e.to_string(),
            "config error: failed to read config /etc/pym2/config.toml: gone"
        ),
        Ok(_) => panic!("unreadable"),
    }
    match load_config(None, ConfigSource::Malformed("line 1".to_string())) {
        Err(e) => assert_eq!(e.to_string(), "toml parse error: line 1"),
        Ok(_) => panic!("malformed"),
    }
    match load_config(Some("/c.toml"), ConfigSource::Parsed(base_config())) {
        Ok(loaded) => assert_eq!(
            loaded.warnings,
            vec!["warning: app 'api' uses legacy venv/entry config; this is deprecated, prefer command=[...]"]
        ),
        Err(_) => panic!("good"),
    }
}

#[test]
fn clients_do_without_a_usable_configuration() {
    let source = ConfigSource::Unreadable("gone".to_string());
    match load_config_or_defaults_for_client(None, source) {
        Ok(loaded) => {
            assert_eq!(loaded.config.agent.socket, "/run/pym2/pym2.sock");
            assert_eq!(loaded.config.agent.state_dir, "/var/lib/pym2");
            assert_eq!(loaded.config.agent.web.port, 17877);
            assert!(loaded.config.apps.is_empty());
        }
        Err(_) => panic!("defaults"),
    }
    let source = ConfigSource::Malformed("bad".to_string());
    assert!(load_config_or_defaults_for_client(None, source).is_err());
}

#[test]
fn saving_checks_and_reports() {
    let mut cfg = base_config();
    let failed = save_config_to("/c.toml", &cfg, Err("no".to_string()));
    assert_eq!(
        failed.unwrap_err().to_string(),
        "config error: failed to serialize config /c.toml: no"
    );
    cfg.apps[0].name.clear();
    assert!(save_config_to("/c.toml", &cfg, Ok("text".to_string())).is_err());
}

#[test]
fn errors_are_worded() {
    let failure = IoFailure {
        kind: IoKind::PermissionDenied,
        message: "denied".to_string(),
    };
    assert_eq!(PyopsError::Io(failure).to_string(), "io error: denied");
    assert_eq!(PyopsError::TomlDe("m".to_string()).to_string(), "toml parse error: m");
    assert_eq!(PyopsError::Json("m".to_string()).to_string(), "json error: m");
    assert_eq!(PyopsError::Config("m".to_string()).to_string(), "config error: m");
    assert_eq!(PyopsError::Ipc("m".to_string()).to_string(), "ipc error: m");
    assert_eq!(PyopsError::Supervisor("m".to_string()).to_string(), "supervisor error: m");
}
