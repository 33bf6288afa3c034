use pym2::managed::{
    backoff_seconds, ExitStatus, ManagedApp, Moment, MAX_RESTARTS_IN_WINDOW, SUCCESS_AFTER_SECS,
};
use pym2::model::{AppRuntimeState, AppSpec, AppStatus, RestartPolicy};
use pym2::names::NameMap;
use pym2::supervisor::Supervisor;
use std::collections::VecDeque;

const SECOND: u64 = 1_000_000_000;

fn base_spec() -> AppSpec {
    AppSpec {
        name: "api".to_string(),
        cwd: "/tmp".to_string(),
        command: Vec::new(),
        venv: ".venv".to_string(),
        entry: "app.main:app".to_string(),
        args: vec!["--port".to_string(), "8000".to_string()],
        autostart: true,
        restart: RestartPolicy::OnFailure,
        stop_signal: "SIGTERM".to_string(),
        kill_timeout_ms: 8000,
        restart_schedule: None,
        env_file: None,
        env: NameMap::new(),
    }
}

fn fresh() -> ManagedApp {
    ManagedApp {
        spec: base_spec(),
        schedule: None,
        state: AppRuntimeState::default(),
        child: false,
        recent_restarts: VecDeque::new(),
        consecutive_restarts: 0,
    }
}

fn at(epoch: u64, mono: u64) -> Moment {
    Moment { epoch, mono }
}

#[test]
fn schedule_restart_blocks_after_limit() {
    let mut app = fresh();

    let now = at(1_000, 5 * SECOND);
    for _ in 0..MAX_RESTARTS_IN_WINDOW {
        assert!(Supervisor::schedule_restart(&mut app, now));
    }
    assert!(!Supervisor::schedule_restart(&mut app, now));
    assert_eq!(app.state.status, AppStatus::Errored);
    assert_eq!(
        app.state.last_reason.as_deref(),
        Some("max_restarts_exceeded")
    );
    assert_eq!(
        app.state.last_error.as_deref(),
        Some("crash loop protection triggered (>5 restarts in 60s)")
    );
    assert_eq!(app.state.backoff_until, None);
    assert_eq!(app.state.restart_count, 6);
}

#[test]
fn record_exit_resets_restart_counters_after_success_grace() {
    let mut app = fresh();
    app.state.started_at = Some(100);
    app.recent_restarts.push_back(1);
    app.consecutive_restarts = 3;

    let status = ExitStatus {
        code: Some(1),
        signal: None,
    };
    Supervisor::record_exit(&mut app, status, 100 + SUCCESS_AFTER_SECS);

    assert_eq!(app.consecutive_restarts, 0);
    assert!(app.recent_restarts.is_empty());
    assert_eq!(app.state.last_reason.as_deref(), Some("exit_code=1"));
}

#[test]
fn record_exit_sets_last_exit_signal() {
    let mut app = fresh();
    app.state.started_at = Some(100);

    let status = ExitStatus {
        code: None,
        signal: Some(15),
    };
    Supervisor::record_exit(&mut app, status, 101);

    assert_eq!(app.state.last_exit_signal.as_deref(), Some("SIGTERM"));
    assert_eq!(app.state.last_reason.as_deref(), Some("signal=SIGTERM"));
}

#[test]
fn an_early_exit_keeps_the_counters() {
    let mut app = fresh();
    app.state.started_at = Some(100);
    app.recent_restarts.push_back(1);
    app.consecutive_restarts = 3;
    let status = ExitStatus {
        code: Some(0),
        signal: None,
    };
    Supervisor::record_exit(&mut app, status, 109);
    assert_eq!(app.consecutive_restarts, 3);
    assert_eq!(app.recent_restarts.len(), 1);
    assert_eq!(app.state.last_exit_code, Some(0));
    assert_eq!(app.state.pid, None);
    assert_eq!(app.state.started_at, None);
}

#[test]
fn restarts_of_long_ago_do_not_count() {
    let mut app = fresh();
    for i in 0..5 {
        assert!(Supervisor::schedule_restart(&mut app, at(1_000, i * SECOND)));
    }
    // The first lies sixty seconds back and still counts.
    assert!(!Supervisor::schedule_restart(&mut app, at(1_060, 60 * SECOND)));
    // Three of those six lie further back than that.
    assert!(Supervisor::schedule_restart(&mut app, at(1_063, 62 * SECOND + 1)));
    assert_eq!(app.recent_restarts.len(), 4);
}

#[test]
fn delays_double_up_to_thirty_seconds() {
    let mut app = fresh();
    let mut waits = Vec::new();
    for i in 0..8 {
        let now = at(1_000, i * 100 * SECOND);
        assert!(Supervisor::schedule_restart(&mut app, now));
        waits.push(app.state.backoff_until.unwrap() - 1_000);
    }
    assert_eq!(waits, vec![1, 2, 4, 8, 16, 30, 30, 30]);
    assert_eq!(backoff_seconds(u32::MAX), 30);
}

#[test]
fn counters_do_not_overflow() {
    let mut app = fresh();
    app.state.restart_count = u32::MAX;
    app.consecutive_restarts = u32::MAX;
    assert!(Supervisor::schedule_restart(&mut app, at(u64::MAX, 0)));
    assert_eq!(app.state.restart_count, u32::MAX);
    assert_eq!(app.state.backoff_until, Some(u64::MAX));
}

#[test]
fn policies() {
    let ended = |code| ExitStatus { code, signal: None };
    assert!(Supervisor::is_failure(ended(Some(1))));
    assert!(Supervisor::is_failure(ended(None)));
    assert!(!Supervisor::is_failure(ended(Some(0))));
    assert!(!Supervisor::should_restart(RestartPolicy::Never, true));
    assert!(Supervisor::should_restart(RestartPolicy::OnFailure, true));
    assert!(!Supervisor::should_restart(RestartPolicy::OnFailure, false));
    assert!(Supervisor::should_restart(RestartPolicy::Always, false));
}
