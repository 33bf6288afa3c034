use pym2::ipc::WireResponse;
use pym2::model::{
    AgentEvent, AgentEventKind, AppRuntimeState, AppStatus, AppSummary, IpcRequest, LogSource,
    RestartPolicy, StreamLogEvent,
};
use pym2::tui::{
    act_on_key, apply_event, apply_filter, can_render, can_truncate, clamp_selection,
    ensure_log_stream, fetch_apps, fetch_logs, fetched_apps, handle_key, is_found, move_down,
    move_up, next_log_source, plan_logs, push_log_line, render, run, selected_app, show_log_line,
    truncate, ActivePane, InputMode, LogPlan, UiState,
};
use std::collections::VecDeque;

fn app(name: &str, entry: &str) -> AppSummary {
    AppSummary {
        name: name.to_string(),
        cwd: "/srv".to_string(),
        command: Vec::new(),
        entry: entry.to_string(),
        restart: RestartPolicy::OnFailure,
        runtime: AppRuntimeState::default(),
    }
}

fn apps() -> Vec<AppSummary> {
    vec![
        app("Api", "app.main:app"),
        app("worker", "tasks:run"),
        app("mail", "Mail:app"),
    ]
}

fn names(apps: &[AppSummary]) -> Vec<&str> {
    apps.iter().map(|a| a.name.as_str()).collect()
}

fn press(keys: &str, ui: &mut UiState, shown: &mut Vec<AppSummary>, all: &Vec<AppSummary>) {
    for key in keys.bytes() {
        assert!(!handle_key(key, ui, shown, all));
    }
}

#[test]
fn the_screen_may_be_left_out() {
    assert!(run(true).is_ok());
    assert_eq!(
        run(false).unwrap_err().to_string(),
        "config error: tui disabled at build time"
    );
}

#[test]
fn filters_ignore_case() {
    let all = apps();
    assert_eq!(names(&apply_filter(&all, " ")), vec!["Api", "worker", "mail"]);
    assert_eq!(names(&apply_filter(&all, "API")), vec!["Api"]);
    assert_eq!(names(&apply_filter(&all, "app")), vec!["Api", "mail"]);
    assert_eq!(names(&apply_filter(&all, "MAIL:")), vec!["mail"]);
    assert!(apply_filter(&all, "none").is_empty());
    let greek = vec![app("\u{3a9}MEGA", "")];
    assert_eq!(apply_filter(&greek, "\u{3c9}mega").len(), 1);
    assert!(is_found("abc", "xyz", "yz"));
}

#[test]
fn keys_move_the_selection() {
    let all = apps();
    let mut shown = apps();
    let mut ui = UiState::default();
    press("jjj", &mut ui, &mut shown, &all);
    assert_eq!(ui.selected_app_index, 2);
    press("k", &mut ui, &mut shown, &all);
    assert_eq!(ui.selected_app_index, 1);
    press("\x1b[A", &mut ui, &mut shown, &all);
    assert_eq!((ui.selected_app_index, ui.esc_state), (0, 0));
    press("\x1b[B", &mut ui, &mut shown, &all);
    assert_eq!(ui.selected_app_index, 1);
    press("A", &mut ui, &mut shown, &all);
    assert_eq!(ui.selected_app_index, 1);
    assert!(handle_key(b'q', &mut ui, &mut shown, &all));
}

#[test]
fn keys_change_the_pane() {
    let all = apps();
    let mut shown = apps();
    let mut ui = UiState::default();
    press("\n", &mut ui, &mut shown, &all);
    assert_eq!(ui.active_pane, ActivePane::Details);
    press("\r", &mut ui, &mut shown, &all);
    assert_eq!(ui.active_pane, ActivePane::Logs);
    press("\r", &mut ui, &mut shown, &all);
    assert_eq!(ui.active_pane, ActivePane::List);
}

#[test]
fn keys_make_a_filter() {
    let all = apps();
    let mut shown = apps();
    let mut ui = UiState::default();
    press("jj/mq", &mut ui, &mut shown, &all);
    assert_eq!(ui.input_mode, InputMode::Filter);
    assert_eq!(ui.filter_query, "mq");
    assert!(shown.is_empty());
    assert_eq!(ui.selected_app_index, 0);
    press("\x7f\x01", &mut ui, &mut shown, &all);
    assert_eq!(ui.filter_query, "m");
    assert_eq!(names(&shown), vec!["Api", "mail"]);
    press("\r", &mut ui, &mut shown, &all);
    assert_eq!(ui.input_mode, InputMode::Normal);
    press("/\x7f\x7f\x1b", &mut ui, &mut shown, &all);
    assert_eq!((ui.filter_query.as_str(), ui.input_mode), ("", InputMode::Normal));
    assert_eq!(shown.len(), 3);
}

#[test]
fn keys_act_on_the_selected_app() {
    let shown = apps();
    let mut ui = UiState::default();
    ui.selected_app_index = 1;
    let asked = |key, ui: &mut UiState| act_on_key(key, ui, &shown);
    assert!(matches!(asked(b's', &mut ui), Some(IpcRequest::Start { name }) if name == "worker"));
    assert!(matches!(asked(b't', &mut ui), Some(IpcRequest::Stop { .. })));
    assert!(matches!(asked(b'r', &mut ui), Some(IpcRequest::Restart { .. })));
    assert!(asked(b'l', &mut ui).is_none());
    assert_eq!((ui.show_logs, ui.active_pane), (false, ActivePane::List));
    asked(b'l', &mut ui);
    assert_eq!((ui.show_logs, ui.active_pane), (true, ActivePane::Logs));
    asked(b'f', &mut ui);
    assert!(!ui.log_follow_enabled);
    asked(b'\t', &mut ui);
    assert_eq!(ui.log_source, LogSource::Stdout);
    ui.input_mode = InputMode::Filter;
    assert!(asked(b's', &mut ui).is_none());
    ui.input_mode = InputMode::Normal;
    ui.selected_app_index = 3;
    assert!(asked(b's', &mut ui).is_none());
    assert_eq!(next_log_source(LogSource::Stdout), LogSource::Stderr);
    assert_eq!(next_log_source(LogSource::Stderr), LogSource::Both);
}

#[test]
fn selections_stay_inside() {
    let mut ui = UiState::default();
    ui.selected_app_index = 5;
    clamp_selection(&mut ui, 2);
    assert_eq!(ui.selected_app_index, 1);
    clamp_selection(&mut ui, 0);
    assert_eq!(ui.selected_app_index, 0);
    ui.selected_app_index = 5;
    move_up(&mut ui, 0);
    assert_eq!(ui.selected_app_index, 0);
    ui.selected_app_index = 5;
    move_down(&mut ui, 0);
    assert_eq!(ui.selected_app_index, 0);
    assert!(selected_app(&apps(), 3).is_none());
}

#[test]
fn events_change_one_app() {
    let mut all = apps();
    let event = |app: &str| AgentEvent {
        ts: 0,
        kind: AgentEventKind::ProcessStarted,
        app: app.to_string(),
        runtime: AppRuntimeState {
            status: AppStatus::Running,
            ..AppRuntimeState::default()
        },
        message: None,
    };
    apply_event(&mut all, event("worker"));
    apply_event(&mut all, event("none"));
    let running: Vec<bool> = all.iter().map(|a| a.runtime.status == AppStatus::Running).collect();
    assert_eq!(running, vec![false, true, false]);
}

#[test]
fn old_log_lines_give_way() {
    let mut lines = VecDeque::new();
    for i in 0..30 {
        push_log_line(&mut lines, i.to_string());
    }
    assert_eq!(lines.len(), 25);
    assert_eq!(lines[0], "5");
    assert_eq!(lines[24], "29");
    let event = StreamLogEvent {
        source: LogSource::Stderr,
        line: "x".to_string(),
    };
    assert_eq!(show_log_line(&event), "[ERR] x");
}

#[test]
fn the_log_of_the_selected_app_is_followed() {
    let mut ui = UiState::default();
    assert!(matches!(plan_logs(&ui, None, None, 0), LogPlan::Stop));
    assert!(matches!(
        plan_logs(&ui, None, Some("api"), 0),
        LogPlan::Switch(IpcRequest::StreamLogs { name, tail: 60, follow_interval_ms: 250, .. })
            if name == "api"
    ));
    assert!(matches!(
        ensure_log_stream(Some(("api", LogSource::Both)), Some("api"), LogSource::Both),
        LogPlan::Keep
    ));
    assert!(matches!(
        ensure_log_stream(Some(("api", LogSource::Both)), Some("api"), LogSource::Stdout),
        LogPlan::Switch(_)
    ));
    ui.log_follow_enabled = false;
    assert!(matches!(plan_logs(&ui, None, Some("api"), 499), LogPlan::Stop));
    assert!(matches!(
        plan_logs(&ui, None, Some("api"), 500),
        LogPlan::Poll(Some(IpcRequest::TailLogs { tail: 25, .. }))
    ));
    assert!(matches!(plan_logs(&ui, None, None, 500), LogPlan::Poll(None)));
    ui.show_logs = false;
    assert!(matches!(plan_logs(&ui, None, Some("api"), 500), LogPlan::Stop));
}

#[test]
fn texts_are_cut() {
    assert_eq!(truncate("short", 24), "short");
    assert_eq!(truncate("abcdefghij", 8), "abcde...");
    assert_eq!(truncate("abcd", 2), "...");
    assert!(!can_truncate("aaaa\u{e9}aaaa", 8));
    assert!(can_truncate("aaa\u{e9}aaaa", 8));
}

#[test]
fn the_screen() {
    let mut list = vec![app("api", "a.very.long.module.name:application"), app("w", "")];
    list[1].runtime.status = AppStatus::Running;
    list[1].runtime.pid = Some(12);
    let mut ui = UiState::default();
    ui.selected_app_index = 1;
    ui.filter_query = "a".to_string();
    let logs = VecDeque::from(vec!["one".to_string()]);
    assert!(can_render(&list));
    let lines = render(&ui, &list, &logs);
    assert!(lines[0].starts_with("pym2 tui | pane=List | keys: "));
    assert_eq!(lines[1], "filter='a' mode=Normal logs=true follow=true source=Both");
    assert_eq!(lines[2], "");
    assert_eq!(
        lines[3],
        "   NAME                 STATUS     PID      REST     ENTRY                   "
    );
    assert_eq!(
        lines[4],
        "   api                  Stopped    -        0        a.very.long.module.na..."
    );
    assert_eq!(
        lines[5],
        ">  w                    Running    12       0                                "
    );
    assert_eq!(
        &lines[6..],
        [
            "",
            "details: w",
            "  cwd: /srv",
            "  entry: ",
            "  status: Running",
            "  pid: 12",
            "  restart_count: 0",
            "",
            "logs:",
            "one"
        ]
    );
    ui.show_logs = false;
    ui.selected_app_index = 9;
    let lines = render(&ui, &list, &logs);
    assert_eq!(lines.last().unwrap(), "details: no app selected");
}

#[test]
fn replies_for_the_screen() {
    let none: WireResponse<u8> = WireResponse {
        ok: true,
        data: None,
        error: None,
    };
    assert_eq!(
        fetch_apps(none).unwrap_err().to_string(),
        "ipc error: list_apps returned empty payload"
    );
    let refused = WireResponse {
        ok: false,
        data: Some(1),
        error: None,
    };
    assert_eq!(fetch_logs(refused), None);
    assert_eq!(
        fetched_apps::<u8>(None).unwrap_err().to_string(),
        "ipc error: list_apps payload missing 'apps'"
    );
}
