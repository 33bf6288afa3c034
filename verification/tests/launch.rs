use pym2::launch::{build_app_env, build_command, env_file_path, load_env_file};
use pym2::model::{effective_command, uvicorn_path, AppSpec, RestartPolicy};
use pym2::names::NameMap;

fn base_spec() -> AppSpec {
    AppSpec {
        name: "api".to_string(),
        cwd: "/tmp".to_string(),
        command: Vec::new(),
        venv: ".venv".to_string(),
        entry: "app.main:app".to_string(),
        args: vec!["--port".to_string(), "8000".to_string()],
        autostart: true,
        restart: RestartPolicy::OnFailure,
        stop_signal: "SIGTERM".to_string(),
        kill_timeout_ms: 8000,
        restart_schedule: None,
        env_file: None,
        env: NameMap::new(),
    }
}

#[test]
fn build_command_uses_command_mode_when_present() {
    let mut spec = base_spec();
    spec.command = vec![
        "python".to_string(),
        "-m".to_string(),
        "http.server".to_string(),
        "9000".to_string(),
    ];
    let (exec, args) = build_command(&spec, false).expect("build command");
    assert_eq!(exec, "python");
    assert_eq!(args, vec!["-m", "http.server", "9000"]);
}

#[test]
fn build_command_uses_legacy_python_fallback() {
    let mut spec = base_spec();
    let root = "/tmp/pym2-supervisor-test-1";
    spec.cwd = root.to_string();
    let (exec, args) = build_command(&spec, false).expect("build command");

    assert_eq!(exec, format!("{}/{}", root, ".venv/bin/python"));
    assert_eq!(
        args,
        vec![
            "-m".to_string(),
            "uvicorn".to_string(),
            "app.main:app".to_string(),
            "--port".to_string(),
            "8000".to_string()
        ]
    );
}

#[test]
fn effective_command_prefers_uvicorn_binary_in_legacy_mode() {
    let mut spec = base_spec();
    spec.cwd = "/tmp/pym2-model-test-1".to_string();
    assert!(uvicorn_path(&spec).ends_with("/.venv/bin/uvicorn"));
    let cmd = effective_command(&spec, true);

    assert!(cmd[0].ends_with("/.venv/bin/uvicorn"));
    assert_eq!(cmd[1], "app.main:app");
}

#[test]
fn an_absolute_venv_stays_where_it_is() {
    let mut spec = base_spec();
    spec.venv = "/opt/venv".to_string();
    assert_eq!(uvicorn_path(&spec), "/opt/venv/bin/uvicorn");
    assert_eq!(
        effective_command(&spec, false),
        vec![
            "/opt/venv/bin/python",
            "-m",
            "uvicorn",
            "app.main:app",
            "--port",
            "8000"
        ]
    );
}

#[test]
fn the_command_line_is_the_program_and_its_arguments() {
    for uvicorn in [false, true] {
        let spec = base_spec();
        let (program, args) = build_command(&spec, uvicorn).expect("build command");
        let mut line = vec![program];
        line.extend(args);
        assert_eq!(line, effective_command(&spec, uvicorn));
    }
}

#[test]
fn load_env_file_parses_simple_lines() {
    let env = load_env_file("# comment\nA=1\nB =  two \ninvalid\n =skip\nEMPTY=\n");
    assert_eq!(env.get("A").map(String::as_str), Some("1"));
    assert_eq!(env.get("B").map(String::as_str), Some("two"));
    assert_eq!(env.get("EMPTY").map(String::as_str), Some(""));
    assert!(!env.contains_key("invalid"));
    assert_eq!(env.len(), 3);
}

#[test]
fn a_later_line_and_a_value_with_equals_signs() {
    let env = load_env_file("A=1\r\nURL=a=b=c\r\nA=2\r\n");
    assert_eq!(env.get("A").map(String::as_str), Some("2"));
    assert_eq!(env.get("URL").map(String::as_str), Some("a=b=c"));
}

#[test]
fn build_app_env_prefers_inline_env_over_env_file() {
    let mut spec = base_spec();
    spec.env_file = Some("app.env".to_string());
    spec.env.insert("B".to_string(), "inline".to_string());
    spec.env.insert("C".to_string(), "inline".to_string());

    let merged = build_app_env(&spec, Some("A=file\nB=file\n"));
    assert_eq!(merged.get("A").map(String::as_str), Some("file"));
    assert_eq!(merged.get("B").map(String::as_str), Some("inline"));
    assert_eq!(merged.get("C").map(String::as_str), Some("inline"));
}

#[test]
fn the_environment_file_is_looked_for_from_the_working_directory() {
    let mut spec = base_spec();
    assert_eq!(env_file_path(&spec), None);
    spec.env_file = Some("app.env".to_string());
    assert_eq!(env_file_path(&spec).as_deref(), Some("/tmp/app.env"));
    spec.env_file = Some("/etc/app.env".to_string());
    assert_eq!(env_file_path(&spec).as_deref(), Some("/etc/app.env"));
}
