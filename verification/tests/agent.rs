use pym2::agent::{
    accept_again, collect_state_change_events, dispatch, finish, follow_interval, handle_client,
    handle_ipc_like, list_reply, new_line, send_tail, stream_new_lines, tail_reply, tick_due,
    wants_log, watch_events, write_event, EventBus, Plan, Route,
};
use pym2::error::{IoFailure, IoKind, PyopsError};
use pym2::managed::Moment;
use pym2::model::{
    AgentConfig, AgentEvent, AgentEventKind, AppRuntimeState, AppSpec, AppStatus, ConfigFile,
    IpcRequest, LogSource, PingData, ResponseData, RestartPolicy,
};
use pym2::names::NameMap;
use pym2::supervisor::{LogText, RuntimeSource, Supervisor};

const NOW: Moment = Moment {
    epoch: 1_000,
    mono: 0,
};

fn supervisor() -> Supervisor {
    let app = AppSpec {
        name: "api".to_string(),
        cwd: "/srv".to_string(),
        command: vec!["python".to_string()],
        venv: String::new(),
        entry: String::new(),
        args: Vec::new(),
        autostart: true,
        restart: RestartPolicy::OnFailure,
        stop_signal: "SIGTERM".to_string(),
        kill_timeout_ms: 8000,
        restart_schedule: None,
        env_file: None,
        env: NameMap::new(),
    };
    let cfg = ConfigFile {
        agent: AgentConfig::default(),
        apps: vec![app],
    };
    Supervisor::new(
        cfg,
        "/state".to_string(),
        "/state/logs".to_string(),
        RuntimeSource::Missing,
        &Vec::new(),
    )
}

fn me() -> PingData {
    PingData {
        version: "1.2.0".to_string(),
        agent_pid: 7,
    }
}

fn states(items: &[(&str, AppStatus)]) -> NameMap<AppRuntimeState> {
    let mut map = NameMap::new();
    for (name, status) in items {
        let state = AppRuntimeState {
            status: *status,
            ..AppRuntimeState::default()
        };
        map.insert(name.to_string(), state);
    }
    map
}

#[test]
fn requests_are_routed() {
    assert!(matches!(handle_client(IpcRequest::WatchEvents), Route::WatchEvents));
    let req = IpcRequest::StreamLogs {
        name: "api".to_string(),
        tail: 5,
        source: LogSource::Both,
        follow_interval_ms: 1,
    };
    assert!(matches!(handle_client(req), Route::StreamLogs { tail: 5, .. }));
    assert!(matches!(
        handle_client(IpcRequest::Ping),
        Route::Dispatch(IpcRequest::Ping)
    ));
}

#[test]
fn a_ping_is_answered_with_version_and_process() {
    match dispatch(&supervisor(), IpcRequest::Ping, me(), NOW) {
        Plan::Answer(resp) => {
            assert!(resp.ok);
            match resp.data {
                Some(ResponseData::Ping(p)) => {
                    assert_eq!((p.version.as_str(), p.agent_pid), ("1.2.0", 7));
                }
                _ => panic!("data"),
            }
        }
        _ => panic!("answer"),
    }
}

#[test]
fn requests_are_planned() {
    let sup = supervisor();
    let named = |name: &str| IpcRequest::GetApp {
        name: name.to_string(),
    };
    assert!(matches!(dispatch(&sup, IpcRequest::ListApps, me(), NOW), Plan::List(_)));
    match dispatch(&sup, named("db"), me(), NOW) {
        Plan::Answer(resp) => {
            assert!(!resp.ok && resp.data.is_none());
            assert_eq!(resp.error.as_deref(), Some("supervisor error: unknown app 'db'"));
        }
        _ => panic!("answer"),
    }
    match dispatch(&sup, named("api"), me(), NOW) {
        Plan::Answer(resp) => assert!(matches!(resp.data, Some(ResponseData::App(_)))),
        _ => panic!("answer"),
    }
    let tail = IpcRequest::TailLogs {
        name: "api".to_string(),
        tail: 3,
        source: LogSource::Stdout,
    };
    match dispatch(&sup, tail, me(), NOW) {
        Plan::Tail { stdout, tail, .. } => {
            assert_eq!((stdout.as_str(), tail), ("/state/logs/api.out.log", 3));
        }
        _ => panic!("tail"),
    }
    match dispatch(&sup, IpcRequest::WatchEvents, me(), NOW) {
        Plan::Answer(resp) => assert_eq!(resp.error.as_deref(), Some("invalid dispatch route")),
        _ => panic!("answer"),
    }
    match handle_ipc_like(&sup, IpcRequest::WatchEvents, NOW) {
        Plan::Answer(resp) => {
            assert_eq!(resp.error.as_deref(), Some("unsupported request in web ui"));
        }
        _ => panic!("answer"),
    }
}

#[test]
fn jobs_are_answered_for_what_they_were() {
    let sup = supervisor();
    let req = IpcRequest::Stop {
        name: "all".to_string(),
    };
    let job = match dispatch(&sup, req, me(), NOW) {
        Plan::Run(job, _) => job,
        _ => panic!("job"),
    };
    let resp = finish(&job, Ok(vec!["api".to_string()]));
    assert!(matches!(resp.data, Some(ResponseData::Stopped(names)) if names == vec!["api"]));
    let resp = finish(&job, Err(PyopsError::Supervisor("no".to_string())));
    assert_eq!(resp.error.as_deref(), Some("supervisor error: no"));
}

#[test]
fn lists_and_logs_are_answered() {
    let sup = supervisor();
    match list_reply(&sup, &Vec::new()).data {
        Some(ResponseData::Apps(apps)) => assert_eq!(apps[0].name, "api"),
        _ => panic!("apps"),
    }
    let out = LogText::Text("a\nb\n".to_string());
    let resp = tail_reply(&sup, "api", LogSource::Both, 1, out, LogText::Missing);
    assert!(matches!(resp.data, Some(ResponseData::Lines(lines)) if lines == vec!["b"]));
    let resp = tail_reply(&sup, "db", LogSource::Both, 1, LogText::Missing, LogText::Missing);
    assert!(!resp.ok);
}

#[test]
fn changes_are_told() {
    let before = states(&[
        ("a", AppStatus::Running),
        ("b", AppStatus::Running),
        ("c", AppStatus::Stopped),
    ]);
    let mut after = states(&[
        ("a", AppStatus::Stopped),
        ("b", AppStatus::Running),
        ("c", AppStatus::Running),
        ("d", AppStatus::Stopped),
    ]);
    let mut broken = AppRuntimeState::default();
    broken.status = AppStatus::Errored;
    broken.last_error = Some("boom".to_string());
    after.insert("e".to_string(), broken);
    let events = collect_state_change_events(&before, &after, 9);
    let told: Vec<(&str, AgentEventKind)> =
        events.iter().map(|e| (e.app.as_str(), e.kind)).collect();
    assert_eq!(
        told,
        vec![
            ("a", AgentEventKind::ProcessStopped),
            ("c", AgentEventKind::ProcessStarted),
            ("d", AgentEventKind::StateChanged),
            ("e", AgentEventKind::ProcessErrored),
        ]
    );
    assert_eq!(events[3].message.as_deref(), Some("boom"));
    assert_eq!(events[0].ts, 9);
}

#[test]
fn no_change_is_not_told() {
    let one = states(&[("a", AppStatus::Running)]);
    let two = states(&[("a", AppStatus::Running)]);
    assert!(collect_state_change_events(&one, &two, 9).is_empty());
}

#[test]
fn watchers_first_hear_of_all_apps() {
    let events = watch_events(&states(&[("a", AppStatus::Running), ("b", AppStatus::Stopped)]), 3);
    assert_eq!(events.len(), 2);
    assert_eq!(events[1].app, "b");
    assert_eq!(events[1].kind, AgentEventKind::StateChanged);
    assert_eq!(events[1].message.as_deref(), Some("initial_snapshot"));
}

#[test]
fn watchers_that_are_gone() {
    let failed = |kind| {
        Err(PyopsError::Io(IoFailure {
            kind,
            message: "m".to_string(),
        }))
    };
    assert!(write_event(Ok(())).is_ok());
    assert_eq!(
        write_event(failed(IoKind::BrokenPipe)).unwrap_err().to_string(),
        "ipc error: watcher disconnected"
    );
    assert_eq!(
        write_event(failed(IoKind::ConnectionReset)).unwrap_err().to_string(),
        "ipc error: watcher disconnected"
    );
    assert_eq!(write_event(failed(IoKind::Other)).unwrap_err().to_string(), "io error: m");
}

#[test]
fn those_who_are_not_reached_are_dropped() {
    let mut bus: EventBus<u32> = EventBus::default();
    bus.subscribe(1);
    bus.subscribe(2);
    bus.subscribe(3);
    let event = AgentEvent {
        ts: 0,
        kind: AgentEventKind::StateChanged,
        app: "api".to_string(),
        runtime: AppRuntimeState::default(),
        message: None,
    };
    bus.broadcast(event.clone(), |s, e| *s != 2 && e.app == "api");
    assert_eq!(bus.subscribers, vec![1, 3]);
    bus.broadcast(event, |_, _| false);
    assert!(bus.subscribers.is_empty());
}

#[test]
fn followed_logs() {
    assert!(wants_log(LogSource::Both, LogSource::Stderr));
    assert!(wants_log(LogSource::Stdout, LogSource::Stdout));
    assert!(!wants_log(LogSource::Stdout, LogSource::Stderr));
    let log = LogText::Text("a\nb\nc".to_string());
    let events = send_tail(log, LogSource::Stderr, 2, LogSource::Both).unwrap();
    assert_eq!(events.len(), 2);
    assert_eq!((events[0].line.as_str(), events[0].source), ("b", LogSource::Stderr));
    let log = LogText::Text("a".to_string());
    assert!(send_tail(log, LogSource::Stderr, 2, LogSource::Stdout).unwrap().is_empty());
    assert_eq!(stream_new_lines(10, 4), (0, true));
    assert_eq!(stream_new_lines(10, 10), (10, false));
    assert_eq!(stream_new_lines(10, 12), (10, true));
    assert_eq!(stream_new_lines(10, 0), (0, false));
    assert_eq!(new_line(LogSource::Stdout, "x \n").line, "x ");
    assert_eq!(follow_interval(5), 100);
    assert_eq!(follow_interval(250), 250);
    assert!(accept_again(IoKind::WouldBlock));
    assert!(!accept_again(IoKind::Other));
}

#[test]
fn the_agent_looks_after_its_apps_once_per_second() {
    assert!(tick_due(None));
    assert!(!tick_due(Some(999)));
    assert!(tick_due(Some(1_000)));
    assert!(tick_due(Some(u64::MAX)));
}
