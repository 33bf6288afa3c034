use pym2::error::{IoFailure, IoKind, PyopsError};
use pym2::lifecycle::{Action, Reply};
use pym2::managed::{ExitStatus, Moment};
use pym2::model::{
    AgentConfig, AppRuntimeState, AppSpec, AppStatus, ConfigFile, LogSource, RestartPolicy,
};
use pym2::names::NameMap;
use pym2::signals::SignalAnswer;
use pym2::supervisor::{
    states_path, Job, LogText, PersistedRuntimeState, RuntimeSource, Supervisor,
};

const SECOND: u64 = 1_000_000_000;

fn spec(name: &str) -> AppSpec {
    AppSpec {
        name: name.to_string(),
        cwd: "/srv".to_string(),
        command: vec!["python".to_string(), "app.py".to_string()],
        venv: String::new(),
        entry: String::new(),
        args: Vec::new(),
        autostart: true,
        restart: RestartPolicy::OnFailure,
        stop_signal: "SIGINT".to_string(),
        kill_timeout_ms: 100,
        restart_schedule: None,
        env_file: None,
        env: NameMap::new(),
    }
}

fn supervisor(apps: Vec<AppSpec>) -> Supervisor {
    let cfg = ConfigFile {
        agent: AgentConfig::default(),
        apps,
    };
    Supervisor::new(
        cfg,
        "/state".to_string(),
        "/state/logs".to_string(),
        RuntimeSource::Missing,
        &Vec::new(),
    )
}

/// The outside, as the tests need it: a clock, processes that are alive, and
/// how they react.
struct World {
    now: Moment,
    next_pid: u32,
    /// The exits that are found, by app.
    exits: Vec<(String, ExitStatus)>,
    /// Whether a stop signal ends a process.
    obedient: bool,
    alive: Vec<u32>,
    spawn_error: Option<String>,
    save_error: Option<String>,
    next_due: Option<u64>,
    /// What was done.
    done: Vec<String>,
}

impl World {
    fn new() -> World {
        World {
            now: Moment {
                epoch: 1_000,
                mono: 0,
            },
            next_pid: 100,
            exits: Vec::new(),
            obedient: true,
            alive: Vec::new(),
            spawn_error: None,
            save_error: None,
            next_due: None,
            done: Vec::new(),
        }
    }

    fn pass(&mut self, seconds: u64) {
        self.now.epoch += seconds;
        self.now.mono += seconds * SECOND;
    }

    fn perform(&mut self, action: Action) -> Reply {
        match action {
            Action::ProbePid(pid) => {
                self.done.push(format!("probe {}", pid));
                if self.alive.contains(&pid) {
                    Reply::Pid { rc: 0, errno: None }
                } else {
                    Reply::Pid {
                        rc: -1,
                        errno: Some(3),
                    }
                }
            }
            Action::ProbeGroup(pid) => {
                self.done.push(format!("probe group {}", pid));
                if self.alive.contains(&pid) {
                    Reply::Pid { rc: 0, errno: None }
                } else {
                    Reply::Pid {
                        rc: -1,
                        errno: Some(3),
                    }
                }
            }
            Action::ProbePath(path) => {
                self.done.push(format!("exists {}", path));
                Reply::Path(false)
            }
            Action::OpenLogs { stdout, stderr } => {
                self.done.push(format!("open {} {}", stdout, stderr));
                Reply::Opened
            }
            Action::ReadFile(path) => {
                self.done.push(format!("read {}", path));
                Reply::Text("KEY=value".to_string())
            }
            Action::Spawn { name, plan } => {
                self.done
                    .push(format!("spawn {}: {} {}", name, plan.program, plan.args.join(" ")));
                match self.spawn_error.clone() {
                    Some(m) => Reply::NotSpawned(m),
                    None => {
                        self.next_pid += 1;
                        self.alive.push(self.next_pid);
                        Reply::Spawned(self.next_pid)
                    }
                }
            }
            Action::Signal { pid, signal } => {
                self.done.push(format!("signal {} {}", pid, signal));
                if signal == 9 || self.obedient {
                    self.alive.retain(|p| *p != pid);
                }
                Reply::Signalled(SignalAnswer {
                    rc: 0,
                    errno: None,
                    message: String::new(),
                })
            }
            Action::PollChild(name) => {
                if let Some(at) = self.exits.iter().position(|(n, _)| *n == name) {
                    return Reply::ChildExited(self.exits.remove(at).1);
                }
                if self.obedient && self.done.last().is_some_and(|d| d.starts_with("signal")) {
                    return Reply::ChildExited(ExitStatus {
                        code: None,
                        signal: Some(2),
                    });
                }
                Reply::ChildRunning
            }
            Action::Sleep(ms) => {
                self.done.push(format!("sleep {}", ms));
                self.now.mono += ms * 1_000_000;
                Reply::Slept
            }
            Action::Reap(name) => {
                self.done.push(format!("reap {}", name));
                Reply::Reaped
            }
            Action::NextOccurrence(_, from) => {
                self.done.push(format!("next after {}", from));
                Reply::Due(self.next_due)
            }
            Action::Persist => {
                self.done.push("persist".to_string());
                Reply::Persisted(self.save_error.clone().map(PyopsError::Json))
            }
            Action::Proceed => Reply::Proceed,
            Action::Finish(_) => panic!("nothing to do"),
        }
    }

    fn run(&mut self, sup: &mut Supervisor, begun: (Job, Action)) -> Result<Vec<String>, PyopsError> {
        let (mut job, mut action) = begun;
        for _ in 0..1_000 {
            if let Action::Finish(result) = action {
                return result;
            }
            let reply = self.perform(action);
            let now = self.now;
            (job, action) = sup.step(job, reply, now);
        }
        panic!("no end");
    }
}

fn state(sup: &Supervisor, name: &str) -> AppRuntimeState {
    match sup.get_app(name) {
        Ok(app) => app.runtime,
        Err(e) => panic!("{}", e.to_string()),
    }
}

#[test]
fn a_start_runs_the_process() {
    let mut sup = supervisor(vec![spec("api")]);
    let mut world = World::new();
    let begun = sup.start("api", world.now);
    assert_eq!(world.run(&mut sup, begun).unwrap(), vec!["api"]);
    assert_eq!(
        world.done,
        vec![
            "open /state/logs/api.out.log /state/logs/api.err.log",
            "spawn api: python app.py",
            "persist"
        ]
    );
    let s = state(&sup, "api");
    assert_eq!(s.status, AppStatus::Running);
    assert_eq!(s.pid, Some(101));
    assert_eq!(s.started_at, Some(1_000));
    assert_eq!(s.last_start_attempt_at, Some(1_000));
    assert_eq!(s.last_reason.as_deref(), Some("running"));

    // A second start does nothing but write the state again.
    world.done.clear();
    let begun = sup.start("api", world.now);
    world.run(&mut sup, begun).unwrap();
    assert_eq!(world.done, vec!["persist"]);
}

#[test]
fn a_start_of_a_legacy_app_with_an_environment_file() {
    let mut legacy = spec("api");
    legacy.command.clear();
    legacy.venv = ".venv".to_string();
    legacy.entry = "app:app".to_string();
    legacy.env_file = Some(".env".to_string());
    let mut sup = supervisor(vec![legacy]);
    let mut world = World::new();
    let begun = sup.start("api", world.now);
    world.run(&mut sup, begun).unwrap();
    assert_eq!(
        world.done,
        vec![
            "exists /srv/.venv/bin/uvicorn",
            "open /state/logs/api.out.log /state/logs/api.err.log",
            "read /srv/.env",
            "spawn api: /srv/.venv/bin/python -m uvicorn app:app",
            "persist"
        ]
    );
}

#[test]
fn a_start_that_fails() {
    let mut sup = supervisor(vec![spec("api")]);
    let mut world = World::new();
    world.spawn_error = Some("no such file".to_string());
    let begun = sup.start("api", world.now);
    let err = world.run(&mut sup, begun).unwrap_err();
    assert_eq!(
        err.to_string(),
        "supervisor error: failed to start 'api': no such file"
    );
    let s = state(&sup, "api");
    assert_eq!(s.status, AppStatus::Errored);
    assert_eq!(s.last_error.as_deref(), Some("spawn failed: no such file"));
    assert_eq!(s.last_reason.as_deref(), Some("spawn_failed"));
    assert!(!world.done.contains(&"persist".to_string()));
}

#[test]
fn logs_that_cannot_be_opened() {
    let mut sup = supervisor(vec![spec("api")]);
    let now = World::new().now;
    let (job, _) = sup.start("api", now);
    let (job, _) = sup.step(job, Reply::Proceed, now);
    let (job, action) = sup.step(job, Reply::Proceed, now);
    assert!(matches!(action, Action::OpenLogs { .. }));
    let failure = IoFailure {
        kind: IoKind::PermissionDenied,
        message: "denied".to_string(),
    };
    let (_, action) = sup.step(job, Reply::Failed(failure), now);
    match action {
        Action::Finish(Err(e)) => assert_eq!(e.to_string(), "io error: denied"),
        _ => panic!("failure"),
    }
    assert_eq!(state(&sup, "api").last_start_attempt_at, None);
}

#[test]
fn a_reply_to_something_else_ends_the_job() {
    let mut sup = supervisor(vec![spec("api")]);
    let now = World::new().now;
    let (job, _) = sup.start("api", now);
    let (_, action) = sup.step(job, Reply::Slept, now);
    match action {
        Action::Finish(Err(e)) => assert_eq!(
            e.to_string(),
            "supervisor error: the reply does not answer the pending action"
        ),
        _ => panic!("stray"),
    }
}

#[test]
fn unknown_apps_are_refused() {
    let mut sup = supervisor(vec![spec("api")]);
    let mut world = World::new();
    for begun in [
        sup.start("db", world.now),
        sup.stop("db", world.now),
        sup.restart("db", world.now),
    ] {
        let err = world.run(&mut sup, begun).unwrap_err();
        assert_eq!(err.to_string(), "supervisor error: unknown app 'db'");
    }
    assert!(world.done.is_empty());
    assert!(sup.get_app("db").is_err());
    assert!(sup.log_paths("db").is_err());
}

#[test]
fn a_stop_that_is_obeyed() {
    let mut sup = supervisor(vec![spec("api")]);
    let mut world = World::new();
    let begun = sup.start("api", world.now);
    world.run(&mut sup, begun).unwrap();
    world.done.clear();
    let begun = sup.stop("all", world.now);
    assert_eq!(world.run(&mut sup, begun).unwrap(), vec!["api"]);
    assert_eq!(world.done, vec!["signal 101 2", "persist"]);
    let s = state(&sup, "api");
    assert_eq!(s.status, AppStatus::Stopped);
    assert_eq!(s.pid, None);
    assert_eq!(s.last_reason.as_deref(), Some("manual_stop"));
    assert_eq!(s.last_exit_signal.as_deref(), Some("SIGINT"));
}

#[test]
fn a_stop_that_has_to_be_enforced() {
    let mut sup = supervisor(vec![spec("api")]);
    let mut world = World::new();
    let begun = sup.start("api", world.now);
    world.run(&mut sup, begun).unwrap();
    world.obedient = false;
    world.done.clear();
    let begun = sup.stop("api", world.now);
    world.run(&mut sup, begun).unwrap();
    assert_eq!(
        world.done,
        vec![
            "signal 101 2",
            "sleep 50",
            "sleep 50",
            "signal 101 9",
            "reap api",
            "persist"
        ]
    );
    let s = state(&sup, "api");
    assert_eq!(s.status, AppStatus::Stopped);
    assert_eq!(s.pid, None);
    assert_eq!(s.started_at, None);
}

#[test]
fn a_stop_of_what_does_not_run() {
    let mut sup = supervisor(vec![spec("api")]);
    let mut world = World::new();
    let begun = sup.stop("api", world.now);
    world.run(&mut sup, begun).unwrap();
    assert_eq!(world.done, vec!["persist"]);
    assert_eq!(state(&sup, "api").last_reason.as_deref(), Some("manual_stop"));
}

#[test]
fn a_signal_that_cannot_be_sent() {
    let mut sup = supervisor(vec![spec("api")]);
    let mut world = World::new();
    let begun = sup.start("api", world.now);
    world.run(&mut sup, begun).unwrap();
    let now = world.now;
    let (job, _) = sup.stop("api", now);
    let (job, _) = sup.step(job, Reply::Proceed, now);
    let (job, action) = sup.step(job, Reply::Proceed, now);
    assert!(matches!(action, Action::Signal { pid: 101, signal: 2 }));
    let answer = SignalAnswer {
        rc: -1,
        errno: Some(1),
        message: "not permitted".to_string(),
    };
    let (_, action) = sup.step(job, Reply::Signalled(answer), now);
    match action {
        Action::Finish(Err(e)) => assert_eq!(
            e.to_string(),
            "supervisor error: failed to send signal 2 to pgid 101: not permitted"
        ),
        _ => panic!("refused"),
    }
    assert_eq!(state(&sup, "api").status, AppStatus::Running);
}

#[test]
fn a_restart_stops_and_starts() {
    let mut sup = supervisor(vec![spec("api"), spec("worker")]);
    let mut world = World::new();
    let begun = sup.start("all", world.now);
    world.run(&mut sup, begun).unwrap();
    world.done.clear();
    let begun = sup.restart("all", world.now);
    assert_eq!(world.run(&mut sup, begun).unwrap(), vec!["api", "worker"]);
    assert_eq!(state(&sup, "api").pid, Some(103));
    assert_eq!(state(&sup, "worker").pid, Some(104));
    assert_eq!(world.done.iter().filter(|d| *d == "persist").count(), 1);
}

#[test]
fn a_state_that_cannot_be_written() {
    let mut sup = supervisor(vec![spec("api")]);
    let mut world = World::new();
    world.save_error = Some("full".to_string());
    let begun = sup.start("api", world.now);
    assert_eq!(
        world.run(&mut sup, begun).unwrap_err().to_string(),
        "json error: full"
    );
    let begun = sup.shutdown_all(world.now);
    assert!(world.run(&mut sup, begun).unwrap().is_empty());
}

#[test]
fn only_some_apps_start_with_the_agent() {
    let mut manual = spec("manual");
    manual.autostart = false;
    let mut sup = supervisor(vec![spec("api"), manual, spec("worker")]);
    let mut world = World::new();
    let begun = sup.start_autostart(world.now);
    world.run(&mut sup, begun).unwrap();
    assert_eq!(state(&sup, "api").status, AppStatus::Running);
    assert_eq!(state(&sup, "manual").status, AppStatus::Stopped);
    assert_eq!(state(&sup, "worker").status, AppStatus::Running);

    let mut sup = supervisor(vec![spec("api"), spec("worker")]);
    let mut world = World::new();
    world.spawn_error = Some("no".to_string());
    let begun = sup.start_autostart(world.now);
    assert!(world.run(&mut sup, begun).is_ok());
    assert_eq!(state(&sup, "worker").status, AppStatus::Errored);
}

#[test]
fn an_app_whose_name_stands_for_all_starts_them_all() {
    let manual = |name: &str| {
        let mut app = spec(name);
        app.autostart = false;
        app
    };
    let mut sup = supervisor(vec![manual("api"), spec("all"), manual("worker")]);
    let mut world = World::new();
    let begun = sup.start_autostart(world.now);
    world.run(&mut sup, begun).unwrap();
    for name in ["api", "all", "worker"] {
        assert_eq!(state(&sup, name).status, AppStatus::Running);
    }
    assert_eq!(world.done.iter().filter(|d| *d == "persist").count(), 1);

    // The first that fails is the last that is tried.
    let mut sup = supervisor(vec![manual("api"), spec("all"), spec("worker")]);
    let mut world = World::new();
    world.spawn_error = Some("no".to_string());
    let begun = sup.start_autostart(world.now);
    world.run(&mut sup, begun).unwrap();
    assert_eq!(state(&sup, "api").status, AppStatus::Errored);
    assert_eq!(state(&sup, "all").status, AppStatus::Stopped);
    assert_eq!(state(&sup, "worker").status, AppStatus::Errored);
    assert!(!world.done.contains(&"persist".to_string()));
}

fn tick(world: &mut World, sup: &mut Supervisor) {
    let begun = sup.tick(world.now);
    world.run(sup, begun).unwrap();
}

fn crash(world: &mut World, name: &str) {
    world.exits.push((
        name.to_string(),
        ExitStatus {
            code: Some(1),
            signal: None,
        },
    ));
}

#[test]
fn a_crashed_app_comes_back_after_its_delay() {
    let mut sup = supervisor(vec![spec("api")]);
    let mut world = World::new();
    let begun = sup.start("api", world.now);
    world.run(&mut sup, begun).unwrap();
    world.pass(2);
    crash(&mut world, "api");
    world.done.clear();
    tick(&mut world, &mut sup);
    assert_eq!(world.done, vec!["persist"]);
    let s = state(&sup, "api");
    assert_eq!(s.status, AppStatus::Stopped);
    assert_eq!(s.backoff_until, Some(1_003));
    assert_eq!(s.last_reason.as_deref(), Some("exit_code=1"));

    world.done.clear();
    tick(&mut world, &mut sup);
    assert!(world.done.is_empty());

    world.pass(1);
    tick(&mut world, &mut sup);
    let s = state(&sup, "api");
    assert_eq!(s.status, AppStatus::Running);
    assert_eq!(s.backoff_until, None);
    assert_eq!(s.restart_count, 1);
}

#[test]
fn a_crash_loop_is_ended() {
    let mut sup = supervisor(vec![spec("api")]);
    let mut world = World::new();
    let begun = sup.start("api", world.now);
    world.run(&mut sup, begun).unwrap();
    for _ in 0..5 {
        crash(&mut world, "api");
        tick(&mut world, &mut sup);
        let wait = state(&sup, "api").backoff_until.unwrap() - world.now.epoch;
        world.pass(wait);
        tick(&mut world, &mut sup);
        assert_eq!(state(&sup, "api").status, AppStatus::Running);
    }
    crash(&mut world, "api");
    tick(&mut world, &mut sup);
    let s = state(&sup, "api");
    assert_eq!(s.status, AppStatus::Errored);
    assert_eq!(s.last_reason.as_deref(), Some("max_restarts_exceeded"));
    world.pass(1_000);
    tick(&mut world, &mut sup);
    assert_eq!(state(&sup, "api").status, AppStatus::Errored);
}

#[test]
fn a_clean_exit_is_left_alone() {
    let mut sup = supervisor(vec![spec("api")]);
    let mut world = World::new();
    let begun = sup.start("api", world.now);
    world.run(&mut sup, begun).unwrap();
    world.exits.push((
        "api".to_string(),
        ExitStatus {
            code: Some(0),
            signal: None,
        },
    ));
    tick(&mut world, &mut sup);
    let s = state(&sup, "api");
    assert_eq!(s.status, AppStatus::Stopped);
    assert_eq!(s.backoff_until, None);
}

#[test]
fn a_child_that_cannot_be_watched() {
    let mut sup = supervisor(vec![spec("api")]);
    let mut world = World::new();
    let begun = sup.start("api", world.now);
    world.run(&mut sup, begun).unwrap();
    let now = world.now;
    let (job, _) = sup.tick(now);
    let (job, _) = sup.step(job, Reply::Proceed, now);
    let (job, action) = sup.step(job, Reply::Proceed, now);
    assert!(matches!(action, Action::PollChild(name) if name == "api"));
    let (job, _) = sup.step(job, Reply::ChildLost("gone".to_string()), now);
    let (_, action) = sup.step(job, Reply::Proceed, now);
    assert!(matches!(action, Action::Persist));
    let s = state(&sup, "api");
    assert_eq!(s.status, AppStatus::Errored);
    assert_eq!(s.last_error.as_deref(), Some("try_wait failed: gone"));
    assert_eq!(s.last_reason.as_deref(), Some("try_wait_failed"));
}

#[test]
fn scheduled_restarts() {
    let mut daily = spec("api");
    daily.restart_schedule = Some("daily@03:00".to_string());
    let mut sup = supervisor(vec![daily]);
    let mut world = World::new();
    world.next_due = Some(1_500);
    let begun = sup.start("api", world.now);
    world.run(&mut sup, begun).unwrap();
    assert_eq!(state(&sup, "api").next_scheduled_restart_at, Some(1_500));

    world.pass(499);
    world.done.clear();
    tick(&mut world, &mut sup);
    assert!(world.done.is_empty());

    world.pass(1);
    world.next_due = Some(90_000);
    tick(&mut world, &mut sup);
    assert_eq!(state(&sup, "api").pid, Some(102));
    assert_eq!(state(&sup, "api").next_scheduled_restart_at, Some(90_000));
    assert!(world.done.contains(&"signal 101 2".to_string()));
}

#[test]
fn a_schedule_does_not_start_what_is_stopped() {
    let mut daily = spec("api");
    daily.restart_schedule = Some("daily@03:00".to_string());
    let mut sup = supervisor(vec![daily]);
    let mut world = World::new();
    world.next_due = Some(1_000);
    let begun = sup.refresh_all_schedule_targets(world.now);
    world.run(&mut sup, begun).unwrap();
    world.next_due = Some(2_000);
    world.done.clear();
    tick(&mut world, &mut sup);
    assert_eq!(world.done, vec!["next after 1000"]);
    let s = state(&sup, "api");
    assert_eq!(s.status, AppStatus::Stopped);
    assert_eq!(s.next_scheduled_restart_at, Some(2_000));
}

fn persisted(name: &str, state: AppRuntimeState, version: u32) -> PersistedRuntimeState {
    let mut apps = NameMap::new();
    apps.insert(name.to_string(), state);
    PersistedRuntimeState {
        schema_version: version,
        apps,
    }
}

fn running(pid: Option<u32>) -> AppRuntimeState {
    AppRuntimeState {
        status: AppStatus::Running,
        pid,
        started_at: Some(5),
        restart_count: 2,
        ..AppRuntimeState::default()
    }
}

#[test]
fn scheduled_restarts_are_found_anew() {
    let mut daily = spec("api");
    daily.restart_schedule = Some("daily@03:00".to_string());
    let mut sup = supervisor(vec![daily, spec("worker")]);
    let mut kept = persisted("api", running(Some(7)), 1);
    kept.apps.insert("worker".to_string(), AppRuntimeState::default());
    for name in ["api", "worker"] {
        let mut state = kept.apps.get(name).unwrap().clone();
        state.next_scheduled_restart_at = Some(9);
        kept.apps.insert(name.to_string(), state);
    }
    sup.restore_runtime_state(RuntimeSource::Parsed(kept), &vec![7]).unwrap();
    assert_eq!(state(&sup, "worker").next_scheduled_restart_at, Some(9));

    let mut world = World::new();
    world.next_due = Some(2_000);
    let begun = sup.refresh_all_schedule_targets(world.now);
    assert!(world.run(&mut sup, begun).unwrap().is_empty());
    assert_eq!(world.done, vec!["next after 1000"]);
    assert_eq!(state(&sup, "api").next_scheduled_restart_at, Some(2_000));
    assert_eq!(state(&sup, "worker").next_scheduled_restart_at, None);
    assert_eq!((state(&sup, "api").status, state(&sup, "api").pid), (AppStatus::Running, Some(7)));
}

#[test]
fn states_survive_the_agent() {
    let mut sup = supervisor(vec![spec("api"), spec("worker")]);
    let mut world = World::new();
    let begun = sup.start("api", world.now);
    world.run(&mut sup, begun).unwrap();
    let kept = sup.persisted_state();
    assert_eq!(kept.schema_version, 1);
    assert_eq!(kept.running_pids(), vec![101]);

    let mut fresh = supervisor(vec![spec("api"), spec("worker")]);
    assert!(fresh
        .restore_runtime_state(RuntimeSource::Parsed(kept), &vec![101])
        .is_ok());
    assert!(state(&fresh, "api").same_as(&state(&sup, "api")));
    assert!(state(&fresh, "worker").same_as(&state(&sup, "worker")));

    // A process that is no child is looked for, and missed when it is gone.
    tick(&mut world, &mut fresh);
    assert_eq!(state(&fresh, "api").status, AppStatus::Running);
    world.alive.clear();
    tick(&mut world, &mut fresh);
    assert_eq!(state(&fresh, "api").status, AppStatus::Stopped);
    assert_eq!(state(&fresh, "api").last_reason.as_deref(), Some("pid_not_alive"));
}

#[test]
fn what_is_stopped_stays_stopped() {
    let mut sup = supervisor(vec![spec("api")]);
    let mut world = World::new();
    let begun = sup.start("api", world.now);
    world.run(&mut sup, begun).unwrap();
    let begun = sup.stop("api", world.now);
    world.run(&mut sup, begun).unwrap();
    world.done.clear();
    for _ in 0..3 {
        world.pass(100);
        tick(&mut world, &mut sup);
    }
    assert!(world.done.is_empty());
    assert_eq!(state(&sup, "api").status, AppStatus::Stopped);
}

#[test]
fn a_stop_without_a_process_leaves_a_restart_ahead() {
    let mut sup = supervisor(vec![spec("api")]);
    let mut world = World::new();
    let begun = sup.start("api", world.now);
    world.run(&mut sup, begun).unwrap();
    crash(&mut world, "api");
    tick(&mut world, &mut sup);
    let ahead = state(&sup, "api").backoff_until;
    assert!(ahead.is_some());

    let begun = sup.stop("api", world.now);
    world.run(&mut sup, begun).unwrap();
    let s = state(&sup, "api");
    assert_eq!(s.status, AppStatus::Stopped);
    assert_eq!(s.last_reason.as_deref(), Some("manual_stop"));
    assert_eq!(s.backoff_until, ahead);
    world.pass(100);
    tick(&mut world, &mut sup);
    assert_eq!(state(&sup, "api").status, AppStatus::Running);
}

/// A supervisor that has taken over a running process.
fn taken_over(world: &mut World) -> Supervisor {
    let mut sup = supervisor(vec![spec("api")]);
    let source = RuntimeSource::Parsed(persisted("api", running(Some(7)), 1));
    sup.restore_runtime_state(source, &vec![7]).unwrap();
    world.alive.push(7);
    sup
}

#[test]
fn a_stop_of_a_process_that_was_taken_over() {
    let mut world = World::new();
    let mut sup = taken_over(&mut world);
    let begun = sup.stop("api", world.now);
    assert_eq!(world.run(&mut sup, begun).unwrap(), vec!["api"]);
    assert_eq!(world.done, vec!["signal 7 2", "probe group 7", "persist"]);
    let s = state(&sup, "api");
    assert_eq!((s.status, s.pid, s.started_at), (AppStatus::Stopped, None, None));
    assert_eq!(s.last_reason.as_deref(), Some("manual_stop"));
}

#[test]
fn a_process_that_was_taken_over_and_ignores_the_signal_is_killed() {
    let mut world = World::new();
    let mut sup = taken_over(&mut world);
    world.obedient = false;
    let begun = sup.stop("api", world.now);
    assert_eq!(world.run(&mut sup, begun).unwrap(), vec!["api"]);
    assert_eq!(
        world.done,
        vec![
            "signal 7 2",
            "probe group 7",
            "sleep 50",
            "probe group 7",
            "sleep 50",
            "probe group 7",
            "signal 7 9",
            "persist"
        ]
    );
    let s = state(&sup, "api");
    assert_eq!((s.status, s.pid), (AppStatus::Stopped, None));
    assert!(world.alive.is_empty());
}

#[test]
fn a_restart_of_a_process_that_was_taken_over() {
    let mut world = World::new();
    let mut sup = taken_over(&mut world);
    let begun = sup.restart("api", world.now);
    world.run(&mut sup, begun).unwrap();
    assert_eq!(world.alive, vec![101]);
    assert_eq!(state(&sup, "api").pid, Some(101));
}

#[test]
fn a_supervisor_takes_over_what_it_finds() {
    let cfg = ConfigFile {
        agent: AgentConfig::default(),
        apps: vec![spec("api")],
    };
    let source = RuntimeSource::Parsed(persisted("api", running(Some(7)), 1));
    let sup = Supervisor::new(cfg, "/s".to_string(), "/l".to_string(), source, &vec![7]);
    assert_eq!(state(&sup, "api").pid, Some(7));
    assert_eq!(sup.runtime_state_path(), states_path("/s"));
}

#[test]
fn stale_processes_are_not_taken_over() {
    let mut sup = supervisor(vec![spec("api")]);
    let source = RuntimeSource::Parsed(persisted("api", running(Some(7)), 1));
    sup.restore_runtime_state(source, &vec![8]).unwrap();
    let s = state(&sup, "api");
    assert_eq!((s.status, s.pid, s.started_at), (AppStatus::Stopped, None, None));
    assert_eq!(s.restart_count, 2);

    let mut sup = supervisor(vec![spec("api")]);
    let source = RuntimeSource::Parsed(persisted("api", running(None), 1));
    sup.restore_runtime_state(source, &Vec::new()).unwrap();
    let s = state(&sup, "api");
    assert_eq!((s.status, s.started_at), (AppStatus::Stopped, Some(5)));
}

#[test]
fn other_versions_are_refused() {
    let mut sup = supervisor(vec![spec("api")]);
    let source = RuntimeSource::Parsed(persisted("api", running(Some(7)), 2));
    assert_eq!(
        sup.restore_runtime_state(source, &vec![7]).unwrap_err().to_string(),
        "supervisor error: unsupported runtime_state schema_version 2, expected 1"
    );
    assert_eq!(state(&sup, "api").pid, None);
    assert!(sup.restore_runtime_state(RuntimeSource::Missing, &Vec::new()).is_ok());
    let broken = RuntimeSource::Unreadable(PyopsError::Json("bad".to_string()));
    assert!(sup.restore_runtime_state(broken, &Vec::new()).is_err());
    let source = RuntimeSource::Parsed(persisted("other", running(Some(7)), 1));
    sup.restore_runtime_state(source, &vec![7]).unwrap();
    assert_eq!(sup.runtime_snapshot().len(), 1);
}

#[test]
fn lists_are_sorted_and_show_commands() {
    let mut legacy = spec("api");
    legacy.command.clear();
    legacy.venv = ".venv".to_string();
    legacy.entry = "app:app".to_string();
    let sup = supervisor(vec![spec("worker"), legacy]);
    assert_eq!(sup.uvicorn_paths()[1], "/srv/.venv/bin/uvicorn");
    let list = sup.list_apps(&vec!["/srv/.venv/bin/uvicorn".to_string()]);
    assert_eq!(list[0].name, "api");
    assert_eq!(list[0].command, vec!["/srv/.venv/bin/uvicorn", "app:app"]);
    assert_eq!(list[1].name, "worker");
    let list = sup.list_apps(&Vec::new());
    assert_eq!(list[0].command[0], "/srv/.venv/bin/python");
}

#[test]
fn of_two_apps_with_one_name_the_later_counts() {
    let mut second = spec("api");
    second.cwd = "/other".to_string();
    let sup = supervisor(vec![spec("api"), second]);
    let list = sup.list_apps(&Vec::new());
    assert_eq!(list.len(), 1);
    assert_eq!(list[0].cwd, "/other");
}

#[test]
fn the_ends_of_logs() {
    let sup = supervisor(vec![spec("api")]);
    let text = |s: &str| LogText::Text(s.to_string());
    assert_eq!(
        sup.tail_logs("api", LogSource::Both, 2, text("a\nb\nc\n"), text("x\n")).unwrap(),
        vec!["b", "c", "x"]
    );
    assert_eq!(
        sup.tail_logs("api", LogSource::Stderr, 2, text("a\n"), LogText::Missing).unwrap(),
        Vec::<String>::new()
    );
    let broken = LogText::Unreadable(IoFailure {
        kind: IoKind::Other,
        message: "bad".to_string(),
    });
    assert_eq!(
        sup.tail_logs("api", LogSource::Stdout, 2, broken, LogText::Missing)
            .unwrap_err()
            .to_string(),
        "io error: bad"
    );
    assert!(sup
        .tail_logs("db", LogSource::Stdout, 2, LogText::Missing, LogText::Missing)
        .is_err());
    assert_eq!(Supervisor::tail_file(text("a\r\nb"), 0).unwrap(), Vec::<String>::new());
    assert_eq!(Supervisor::tail_file(text("a\r\nb"), 9).unwrap(), vec!["a", "b"]);
    assert_eq!(sup.runtime_state_path(), "/state/runtime_state.json");
}
