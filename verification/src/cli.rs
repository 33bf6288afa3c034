//! The command line: what each command asks of the agent, what it makes of the
//! reply, and what it tells the user.

use crate::config::{
    client_config, config_path, default_config_path, expand_tilde, load_config_from,
    load_config_or_defaults_for_client, loaded, opt_str, rendering, save_config_to,
    tilde_expanded, to_save, ConfigSource, LoadedConfig, LoadedView, SourceView,
};
use crate::error::{outcome, ErrorView, IoKind, PyopsError};
use crate::ipc::{is_part, part, refusal, IpcClient, WireResponse};
use crate::lifecycle::names_result;
use crate::listing::{by_name, sort_by_name};
use crate::model::{
    effective_command, specs_view, summaries_view, AppDetails, AppRuntimeState, AppSpec,
    AppSpecView, AppStatus, AppSummary, ConfigFile, ConfigView, DetailsView, IpcRequest, LogEventView,
    LogSource, PingData, PingView, RequestView, RestartPolicy, RuntimeView, StreamLogEvent,
    SummaryView,
};
use crate::names::NameMap;
use crate::paths::{join_path, joined, log_files, stderr_log, stdout_log};
use crate::schedule::{parse_restart_schedule, schedule_of};
use crate::text::{
    blank, cat2, cat3, cat4, cat5, decimal_int, has_infix, i32_text, is_blank, is_whitespace, join,
    join_seq, lemma_infix, opt_text, same, texts, trim, trim_end_of, trimmed, trimmed_end_of, u64_text, words,
};
use vstd::prelude::*;

verus! {

// ---- Commands ----

pub enum ConfigCommands {
    Lint,
}

pub enum Commands {
    Agent,
    Ping,
    Doctor,
    Start { name: String },
    Stop { name: String },
    Restart { name: String },
    Status { json: bool },
    Inspect { name: String, json: bool },
    Logs { name: String, tail: usize, follow: bool, source: LogSource },
    Tui,
    Events { follow: bool },
    AddFastapi {
        name: String,
        cwd: String,
        entry: String,
        host: String,
        port: u16,
        venv: String,
        env_file: Option<String>,
        restart_schedule: Option<String>,
        autostart: bool,
        restart: RestartPolicy,
    },
    AddCmd {
        name: String,
        cwd: String,
        command: String,
        env_file: Option<String>,
        restart_schedule: Option<String>,
        autostart: bool,
        restart: RestartPolicy,
    },
    Config { action: ConfigCommands },
}

/// The command that is to be run: every command is for Linux only, except the
/// one that finds out what is wrong.
pub fn run(on_linux: bool, command: Commands) -> (r: Result<Commands, PyopsError>)
    ensures
        match r {
            Ok(c) => (on_linux || command is Doctor) && c == command,
            Err(e) => !on_linux && !(command is Doctor) && e@ == ErrorView::Config(
                "pym2 is Linux-only"@,
            ),
        },
{
    let anywhere = match &command {
        Commands::Doctor => true,
        _ => false,
    };
    if !on_linux && !anywhere {
        return Err(PyopsError::Config("pym2 is Linux-only".to_string()));
    }
    Ok(command)
}

/// What a command asks of the agent.
pub enum ClientAction {
    /// Nothing.
    Nothing,
    /// To do something, and the reply is shown as it came.
    Simple(IpcRequest),
    /// For the list of apps.
    Status { request: IpcRequest, json: bool },
    /// For one app.
    Inspect { request: IpcRequest, json: bool },
    /// For the end of a log.
    Logs(IpcRequest),
    /// For a log, and what is added to it.
    FollowLogs(IpcRequest),
    /// For the events.
    Events,
}

pub enum ClientActionView {
    Nothing,
    Simple(RequestView),
    Status(RequestView, bool),
    Inspect(RequestView, bool),
    Logs(RequestView),
    FollowLogs(RequestView),
    Events,
}

impl View for ClientAction {
    type V = ClientActionView;

    open spec fn view(&self) -> ClientActionView {
        match self {
            ClientAction::Nothing => ClientActionView::Nothing,
            ClientAction::Simple(req) => ClientActionView::Simple(req@),
            ClientAction::Status { request, json } => ClientActionView::Status(request@, *json),
            ClientAction::Inspect { request, json } => ClientActionView::Inspect(request@, *json),
            ClientAction::Logs(req) => ClientActionView::Logs(req@),
            ClientAction::FollowLogs(req) => ClientActionView::FollowLogs(req@),
            ClientAction::Events => ClientActionView::Events,
        }
    }
}

/// What a command asks of the agent.
pub open spec fn client_action(command: Commands) -> ClientActionView {
    match command {
        Commands::Start { name } => ClientActionView::Simple(RequestView::Start(name@)),
        Commands::Stop { name } => ClientActionView::Simple(RequestView::Stop(name@)),
        Commands::Restart { name } => ClientActionView::Simple(RequestView::Restart(name@)),
        Commands::Status { json } => ClientActionView::Status(RequestView::ListApps, json),
        Commands::Inspect { name, json } => ClientActionView::Inspect(
            RequestView::GetApp(name@),
            json,
        ),
        Commands::Logs { name, tail, follow, source } => if follow {
            ClientActionView::FollowLogs(RequestView::StreamLogs(name@, tail, source, 400))
        } else {
            ClientActionView::Logs(RequestView::TailLogs(name@, tail, source))
        },
        Commands::Events { follow } => if follow {
            ClientActionView::Events
        } else {
            ClientActionView::Nothing
        },
        _ => ClientActionView::Nothing,
    }
}

/// What a command asks of the agent.
pub fn run_client_command(command: Commands) -> (r: ClientAction)
    ensures
        r@ == client_action(command),
{
    match command {
        Commands::Start { name } => ClientAction::Simple(IpcRequest::Start { name }),
        Commands::Stop { name } => ClientAction::Simple(IpcRequest::Stop { name }),
        Commands::Restart { name } => ClientAction::Simple(IpcRequest::Restart { name }),
        Commands::Status { json } => ClientAction::Status { request: IpcRequest::ListApps, json },
        Commands::Inspect { name, json } => ClientAction::Inspect {
            request: IpcRequest::GetApp { name },
            json,
        },
        Commands::Logs { name, tail, follow, source } => logs(name, tail, follow, source),
        Commands::Events { follow } => if follow {
            ClientAction::Events
        } else {
            ClientAction::Nothing
        },
        _ => ClientAction::Nothing,
    }
}

fn logs(name: String, tail: usize, follow: bool, source: LogSource) -> (r: ClientAction)
    ensures
        r@ == if follow {
            ClientActionView::FollowLogs(RequestView::StreamLogs(name@, tail, source, 400))
        } else {
            ClientActionView::Logs(RequestView::TailLogs(name@, tail, source))
        },
{
    if follow {
        ClientAction::FollowLogs(
            IpcRequest::StreamLogs { name, tail, source, follow_interval_ms: 400 },
        )
    } else {
        ClientAction::Logs(IpcRequest::TailLogs { name, tail, source })
    }
}

/// How a line of a followed log is shown.
pub open spec fn log_line(event: LogEventView) -> Seq<char> {
    match event.source {
        LogSource::Stdout => "[OUT] "@ + event.line,
        LogSource::Stderr => "[ERR] "@ + event.line,
        LogSource::Both => event.line,
    }
}

/// How a line of a followed log is shown, and whether among the errors.
pub fn show_log_line(event: StreamLogEvent) -> (r: (String, bool))
    ensures
        r.0@ == log_line(event@),
        r.1 == (event.source == LogSource::Stderr),
{
    match event.source {
        LogSource::Stdout => (cat2("[OUT] ", event.line.as_str()), false),
        LogSource::Stderr => (cat2("[ERR] ", event.line.as_str()), true),
        LogSource::Both => (event.line, false),
    }
}

/// The client of the agent of a configuration.
pub fn client_from_config(cfg: &ConfigFile, home: Option<&str>) -> (r: Result<
    IpcClient,
    PyopsError,
>)
    ensures
        match r {
            Ok(client) => tilde_expanded(cfg@.agent.socket, opt_str(home)) == Ok::<
                Seq<char>,
                ErrorView,
            >(client.socket_path@),
            Err(e) => tilde_expanded(cfg@.agent.socket, opt_str(home)) == Err::<
                Seq<char>,
                ErrorView,
            >(e@),
        },
{
    match expand_tilde(cfg.agent.socket.as_str(), home) {
        Ok(socket) => Ok(IpcClient::new(socket)),
        Err(e) => Err(e),
    }
}

// ---- Replies ----

/// What the reply to a request to do something carries.
pub fn simple_action<T>(resp: WireResponse<T>) -> (r: Result<Option<T>, PyopsError>)
    ensures
        match r {
            Ok(data) => resp.ok && data == resp.data,
            Err(e) => !resp.ok && e@ == refusal(opt_text(resp.error), "operation failed"@),
        },
{
    resp.accepted("operation failed")
}

/// What the reply to a ping carries.
pub fn ping_payload<T>(resp: WireResponse<T>) -> (r: Result<T, PyopsError>)
    ensures
        resp.carries("ping failed"@, "ping returned empty payload"@, r),
{
    resp.payload("ping failed", "ping returned empty payload")
}

/// What the reply to a request for the list of apps carries.
pub fn status_payload<T>(resp: WireResponse<T>) -> (r: Result<T, PyopsError>)
    ensures
        resp.carries("status failed"@, "status returned empty payload"@, r),
{
    resp.payload("status failed", "status returned empty payload")
}

/// The apps in that.
pub fn status_apps<T>(found: Option<T>) -> (r: Result<T, PyopsError>)
    ensures
        is_part(found, "status payload missing 'apps'"@, r),
{
    part(found, "status payload missing 'apps'")
}

/// What the reply to a request for one app carries.
pub fn inspect_payload<T>(resp: WireResponse<T>) -> (r: Result<T, PyopsError>)
    ensures
        resp.carries("inspect failed"@, "inspect returned empty payload"@, r),
{
    resp.payload("inspect failed", "inspect returned empty payload")
}

/// The app in that.
pub fn inspect_app<T>(found: Option<T>) -> (r: Result<T, PyopsError>)
    ensures
        is_part(found, "inspect payload missing 'app'"@, r),
{
    part(found, "inspect payload missing 'app'")
}

/// What the reply to a request for the end of a log carries.
pub fn logs_payload<T>(resp: WireResponse<T>) -> (r: Result<T, PyopsError>)
    ensures
        resp.carries("logs failed"@, "logs returned empty payload"@, r),
{
    resp.payload("logs failed", "logs returned empty payload")
}

/// The lines in that.
pub fn logs_lines<T>(found: Option<T>) -> (r: Result<T, PyopsError>)
    ensures
        is_part(found, "logs payload missing 'lines'"@, r),
{
    part(found, "logs payload missing 'lines'")
}

// ---- Showing apps ----

/// A number, or a dash.
pub open spec fn number_or_dash(n: Option<int>) -> Seq<char> {
    match n {
        Some(v) => decimal_int(v),
        None => "-"@,
    }
}

/// A text, or a dash.
pub open spec fn text_or_dash(t: Option<Seq<char>>) -> Seq<char> {
    match t {
        Some(s) => s,
        None => "-"@,
    }
}

fn u64_or_dash(n: Option<u64>) -> (r: String)
    ensures
        r@ == number_or_dash(
            match n {
                Some(v) => Some(v as int),
                None => None,
            },
        ),
{
    match n {
        Some(v) => u64_text(v),
        None => "-".to_string(),
    }
}

fn i32_or_dash(n: Option<i32>) -> (r: String)
    ensures
        r@ == number_or_dash(
            match n {
                Some(v) => Some(v as int),
                None => None,
            },
        ),
{
    match n {
        Some(v) => i32_text(v),
        None => "-".to_string(),
    }
}

fn text_or(t: &Option<String>) -> (r: String)
    ensures
        r@ == text_or_dash(opt_text(*t)),
{
    match t {
        Some(s) => s.clone(),
        None => "-".to_string(),
    }
}

/// The process id of a state, or a dash.
pub open spec fn pid_text(state: RuntimeView) -> Seq<char> {
    number_or_dash(
        match state.pid {
            Some(p) => Some(p as int),
            None => None,
        },
    )
}

pub fn show_pid(state: &AppRuntimeState) -> (r: String)
    ensures
        r@ == pid_text(state@),
{
    match state.pid {
        Some(pid) => u64_text(pid as u64),
        None => "-".to_string(),
    }
}

/// Why an app is in the state it is in: the reason, or else the error.
pub open spec fn reason_text(state: RuntimeView) -> Seq<char> {
    match state.last_reason {
        Some(r) => r,
        None => text_or_dash(state.last_error),
    }
}

fn reason(state: &AppRuntimeState) -> (r: String)
    ensures
        r@ == reason_text(state@),
{
    match &state.last_reason {
        Some(r) => r.clone(),
        None => text_or(&state.last_error),
    }
}

/// How the command of a listed app is shown.
pub open spec fn command_text(app: SummaryView) -> Seq<char> {
    if app.command.len() > 0 {
        join_seq(app.command, " "@)
    } else if app.entry.len() == 0 {
        "-"@
    } else {
        "legacy:"@ + app.entry
    }
}

/// The line for an app in the list.
pub open spec fn status_line(app: SummaryView) -> Seq<char> {
    app.name + " | "@ + app.runtime.status.label_text() + " | pid="@ + pid_text(app.runtime)
        + " | restarts="@ + decimal_int(app.runtime.restart_count as int) + " | reason="@
        + reason_text(app.runtime) + " | "@ + command_text(app)
}

fn show_status(app: &AppSummary) -> (r: String)
    ensures
        r@ == status_line(app@),
{
    assert(app@.command.len() == app.command@.len());
    let cmd = if app.command.is_empty() {
        if app.entry.as_str().is_empty() {
            "-".to_string()
        } else {
            cat2("legacy:", app.entry.as_str())
        }
    } else {
        join(&app.command, " ")
    };
    let pid = show_pid(&app.runtime);
    let restarts = u64_text(app.runtime.restart_count as u64);
    let why = reason(&app.runtime);
    let mut line = app.name.clone();
    line.append(" | ");
    line.append(app.runtime.status.label());
    line.append(" | pid=");
    line.append(pid.as_str());
    line.append(" | restarts=");
    line.append(restarts.as_str());
    line.append(" | reason=");
    line.append(why.as_str());
    line.append(" | ");
    line.append(cmd.as_str());
    line
}

/// The lines of the list of apps.
pub open spec fn status_lines(apps: Seq<SummaryView>) -> Seq<Seq<char>> {
    by_name(apps).map_values(|a: SummaryView| status_line(a))
}

/// The lines of the list of apps, in the order of their names.
pub fn print_status(apps: Vec<AppSummary>) -> (r: Vec<String>)
    ensures
        texts(r@) == status_lines(summaries_view(apps@)),
{
    let ghost want = status_lines(summaries_view(apps@));
    let sorted = sort_by_name(apps);
    let mut out: Vec<String> = Vec::new();
    let mut i: usize = 0;
    assert(texts(out@) =~= want.take(0));
    while i < sorted.len()
        invariant
            want == summaries_view(sorted@).map_values(|a: SummaryView| status_line(a)),
            i <= sorted@.len(),
            texts(out@) == want.take(i as int),
        decreases sorted@.len() - i,
    {
        let ghost before = texts(out@);
        out.push(show_status(&sorted[i]));
        assert(texts(out@) =~= before.push(want[i as int]));
        assert(want.take(i + 1) =~= before.push(want[i as int]));
        i += 1;
    }
    assert(want.take(i as int) =~= want);
    out
}

/// The lines that show one app, given whether its virtual environment has a
/// `uvicorn` and where its logs are.
pub open spec fn inspect_lines(
    app: DetailsView,
    uvicorn: bool,
    stdout: Seq<char>,
    stderr: Seq<char>,
) -> Seq<Seq<char>> {
    let state = app.runtime;
    let number = |n: Option<u64>|
        number_or_dash(
            match n {
                Some(v) => Some(v as int),
                None => None,
            },
        );
    seq![
        "name: "@ + app.spec.name,
        "status: "@ + state.status.label_text(),
        "pid: "@ + pid_text(state),
        "cwd: "@ + app.spec.cwd,
        "command: "@ + trim(join_seq(app.spec.command_line(uvicorn), " "@)),
        "env_file: "@ + text_or_dash(app.spec.env_file),
        "last_start: "@ + number(state.last_start_attempt_at),
        "started_at: "@ + number(state.started_at),
        "last_exit: code="@ + number_or_dash(
            match state.last_exit_code {
                Some(v) => Some(v as int),
                None => None,
            },
        ) + " signal="@ + text_or_dash(state.last_exit_signal),
        "restart: "@ + app.spec.restart.label_text() + " | count: "@ + decimal_int(
            state.restart_count as int,
        ) + (" | next_schedule: "@ + number(state.next_scheduled_restart_at)),
        "reason: "@ + reason_text(state),
        "stdout_log: "@ + stdout,
        "stderr_log: "@ + stderr,
    ]
}

/// The lines that show one app.
pub fn inspect(app: &AppDetails, uvicorn: bool, stdout: &str, stderr: &str) -> (r: Vec<String>)
    ensures
        texts(r@) == inspect_lines(app@, uvicorn, stdout@, stderr@),
{
    let state = &app.runtime;
    let line = effective_command(&app.spec, uvicorn);
    let joined_line = join(&line, " ");
    let command = trimmed(joined_line.as_str());
    let pid = show_pid(state);
    let env_file = text_or(&app.spec.env_file);
    let last_start = u64_or_dash(state.last_start_attempt_at);
    let started = u64_or_dash(state.started_at);
    let code = i32_or_dash(state.last_exit_code);
    let signal = text_or(&state.last_exit_signal);
    let count = u64_text(state.restart_count as u64);
    let next = u64_or_dash(state.next_scheduled_restart_at);
    let next_part = cat2(" | next_schedule: ", next.as_str());
    let why = reason(state);
    let mut out: Vec<String> = Vec::new();
    out.push(cat2("name: ", app.spec.name.as_str()));
    out.push(cat2("status: ", state.status.label()));
    out.push(cat2("pid: ", pid.as_str()));
    out.push(cat2("cwd: ", app.spec.cwd.as_str()));
    out.push(cat2("command: ", command.as_str()));
    out.push(cat2("env_file: ", env_file.as_str()));
    out.push(cat2("last_start: ", last_start.as_str()));
    out.push(cat2("started_at: ", started.as_str()));
    out.push(cat4("last_exit: code=", code.as_str(), " signal=", signal.as_str()));
    out.push(
        cat5(
            "restart: ",
            app.spec.restart.label(),
            " | count: ",
            count.as_str(),
            next_part.as_str(),
        ),
    );
    out.push(cat2("reason: ", why.as_str()));
    out.push(cat2("stdout_log: ", stdout));
    out.push(cat2("stderr_log: ", stderr));
    assert(texts(out@) =~= inspect_lines(app@, uvicorn, stdout@, stderr@));
    out
}

/// Where the output of the app `name` is logged, by a client's configuration.
pub fn log_paths_for_app(name: &str, cfg: &ConfigFile, home: Option<&str>) -> (r: Result<
    (String, String),
    PyopsError,
>)
    ensures
        outcome(r) == match tilde_expanded(cfg@.agent.state_dir, opt_str(home)) {
            Ok(dir) => Ok::<(Seq<char>, Seq<char>), ErrorView>(
                (stdout_log(joined(dir, "logs"@), name@), stderr_log(joined(dir, "logs"@), name@)),
            ),
            Err(e) => Err(e),
        },
{
    match expand_tilde(cfg.agent.state_dir.as_str(), home) {
        Ok(dir) => {
            let logs_dir = join_path(dir.as_str(), "logs");
            Ok(log_files(logs_dir.as_str(), name))
        },
        Err(e) => Err(e),
    }
}

// ---- Diagnostics ----

/// What the user is told of an agent that answers.
pub fn ping(info: &PingData) -> (r: String)
    ensures
        r@ == "ok version="@ + trim(info@.version) + " agent_pid="@ + decimal_int(
            info@.agent_pid as int,
        ),
{
    let version = trimmed(info.version.as_str());
    let pid = u64_text(info.agent_pid as u64);
    cat4("ok version=", version.as_str(), " agent_pid=", pid.as_str())
}

/// What was found out about a machine.
pub struct Findings {
    pub os: String,
    pub config_path: String,
    pub config: Result<ConfigFile, PyopsError>,
    pub home: Option<String>,
    pub socket_exists: bool,
    pub agent: Result<PingData, PyopsError>,
    pub state_dir_writable: bool,
    /// The directory of the configuration, where it has one, and whether it can
    /// be written to.
    pub config_dir: Option<(String, bool)>,
}

pub struct FindingsView {
    pub os: Seq<char>,
    pub config_path: Seq<char>,
    pub config: Result<ConfigView, ErrorView>,
    pub home: Option<Seq<char>>,
    pub socket_exists: bool,
    pub agent: Result<PingView, ErrorView>,
    pub state_dir_writable: bool,
    pub config_dir: Option<(Seq<char>, bool)>,
}

impl View for Findings {
    type V = FindingsView;

    open spec fn view(&self) -> FindingsView {
        FindingsView {
            os: self.os@,
            config_path: self.config_path@,
            config: outcome(self.config),
            home: opt_text(self.home),
            socket_exists: self.socket_exists,
            agent: outcome(self.agent),
            state_dir_writable: self.state_dir_writable,
            config_dir: match self.config_dir {
                Some((dir, writable)) => Some((dir@, writable)),
                None => None,
            },
        }
    }
}

/// A report: its lines, and whether all is well.
pub struct Report {
    pub lines: Vec<String>,
    pub result: Result<(), PyopsError>,
}

pub struct ReportView {
    pub lines: Seq<Seq<char>>,
    pub result: Result<(), ErrorView>,
}

impl View for Report {
    type V = ReportView;

    open spec fn view(&self) -> ReportView {
        ReportView { lines: texts(self.lines@), result: outcome(self.result) }
    }
}

impl FindingsView {
    pub open spec fn os_line(self) -> Seq<char> {
        if self.os == "linux"@ {
            "OS: ok (linux)"@
        } else {
            "OS: fail ("@ + self.os + "; pym2 is Linux-only)"@
        }
    }

    pub open spec fn socket_line(self, socket: Seq<char>) -> Seq<char> {
        if self.socket_exists {
            "Socket: ok ("@ + socket + ")"@
        } else {
            "Socket: warn ("@ + socket + ") missing; agent may be stopped"@
        }
    }

    pub open spec fn agent_line(self) -> Seq<char> {
        match self.agent {
            Ok(p) => "Agent connect: ok (version="@ + p.version + ", pid="@ + decimal_int(
                p.agent_pid as int,
            ) + ")"@,
            Err(e) => "Agent connect: fail ("@ + e.text() + ")"@,
        }
    }

    pub open spec fn state_dir_line(self, dir: Seq<char>) -> Seq<char> {
        if self.state_dir_writable {
            "State dir writable: ok ("@ + dir + ")"@
        } else {
            "State dir writable: warn ("@ + dir + ")"@
        }
    }

    pub open spec fn config_dir_lines(self) -> Seq<Seq<char>> {
        match self.config_dir {
            None => Seq::empty(),
            Some((dir, true)) => seq!["Config dir writable: ok ("@ + dir + ")"@],
            Some((dir, false)) => seq![
                "Config dir writable: warn ("@ + dir + ") (run as root to edit system config)"@,
            ],
        }
    }

    /// Whether something is wrong that has to be mended.
    pub open spec fn critical(self) -> bool {
        self.os != "linux"@ || self.agent is Err
    }

    /// What the user is told: line by line up to the first thing that cannot be
    /// found out.
    pub open spec fn report(self) -> ReportView {
        let one = seq![self.os_line(), "Config path: "@ + self.config_path];
        match self.config {
            Err(e) => ReportView { lines: one, result: Err(e) },
            Ok(cfg) => match tilde_expanded(cfg.agent.socket, self.home) {
                Err(e) => ReportView { lines: one, result: Err(e) },
                Ok(socket) => {
                    let two = one + seq![self.socket_line(socket), self.agent_line()];
                    match tilde_expanded(cfg.agent.state_dir, self.home) {
                        Err(e) => ReportView { lines: two, result: Err(e) },
                        Ok(dir) => ReportView {
                            lines: two + seq![self.state_dir_line(dir)] + self.config_dir_lines()
                                + seq![web_line(cfg)],
                            result: if self.critical() {
                                Err(ErrorView::Config("doctor found critical issues"@))
                            } else {
                                Ok(())
                            },
                        },
                    }
                },
            },
        }
    }
}

/// The line on the web interface of a configuration.
pub open spec fn web_line(cfg: ConfigView) -> Seq<char> {
    "Web UI: "@ + if cfg.agent.web.enabled {
        "enabled"@
    } else {
        "disabled"@
    } + " on "@ + cfg.agent.web.host + (":"@ + decimal_int(cfg.agent.web.port as int))
}

fn show_web(cfg: &ConfigFile) -> (r: String)
    ensures
        r@ == web_line(cfg@),
{
    let port = u64_text(cfg.agent.web.port as u64);
    let at = cat2(":", port.as_str());
    cat5(
        "Web UI: ",
        if cfg.agent.web.enabled {
            "enabled"
        } else {
            "disabled"
        },
        " on ",
        cfg.agent.web.host.as_str(),
        at.as_str(),
    )
}

/// What the user is told of what was found out about a machine.
pub fn doctor(found: Findings) -> (r: Report)
    ensures
        r@ == found@.report(),
{
    let ghost view = found@;
    let mut lines: Vec<String> = Vec::new();
    let mut has_error = false;
    if same(found.os.as_str(), "linux") {
        lines.push("OS: ok (linux)".to_string());
    } else {
        lines.push(cat3("OS: fail (", found.os.as_str(), "; pym2 is Linux-only)"));
        has_error = true;
    }
    lines.push(cat2("Config path: ", found.config_path.as_str()));
    let ghost one = seq![view.os_line(), "Config path: "@ + view.config_path];
    assert(texts(lines@) =~= one);
    let cfg = match found.config {
        Ok(cfg) => cfg,
        Err(e) => return Report { lines, result: Err(e) },
    };
    let home: Option<&str> = match &found.home {
        Some(h) => Some(h.as_str()),
        None => None,
    };
    let socket = match expand_tilde(cfg.agent.socket.as_str(), home) {
        Ok(socket) => socket,
        Err(e) => return Report { lines, result: Err(e) },
    };
    if found.socket_exists {
        lines.push(cat3("Socket: ok (", socket.as_str(), ")"));
    } else {
        lines.push(
            cat3("Socket: warn (", socket.as_str(), ") missing; agent may be stopped"),
        );
    }
    match &found.agent {
        Ok(info) => {
            let pid = u64_text(info.agent_pid as u64);
            lines.push(
                cat5(
                    "Agent connect: ok (version=",
                    info.version.as_str(),
                    ", pid=",
                    pid.as_str(),
                    ")",
                ),
            );
        },
        Err(e) => {
            let why = e.to_string();
            lines.push(cat3("Agent connect: fail (", why.as_str(), ")"));
            has_error = true;
        },
    }
    let ghost two = one + seq![view.socket_line(socket@), view.agent_line()];
    assert(texts(lines@) =~= two);
    let dir = match expand_tilde(cfg.agent.state_dir.as_str(), home) {
        Ok(dir) => dir,
        Err(e) => return Report { lines, result: Err(e) },
    };
    if found.state_dir_writable {
        lines.push(cat3("State dir writable: ok (", dir.as_str(), ")"));
    } else {
        lines.push(cat3("State dir writable: warn (", dir.as_str(), ")"));
    }
    assert(texts(lines@) =~= two + seq![view.state_dir_line(dir@)]);
    if let Some((parent, writable)) = &found.config_dir {
        if *writable {
            lines.push(cat3("Config dir writable: ok (", parent.as_str(), ")"));
        } else {
            lines.push(
                cat3(
                    "Config dir writable: warn (",
                    parent.as_str(),
                    ") (run as root to edit system config)",
                ),
            );
        }
    }
    assert(texts(lines@) =~= two + seq![view.state_dir_line(dir@)] + view.config_dir_lines());
    lines.push(show_web(&cfg));
    assert(texts(lines@) =~= two + seq![view.state_dir_line(dir@)] + view.config_dir_lines()
        + seq![web_line(cfg@)]);
    if has_error {
        return Report {
            lines,
            result: Err(PyopsError::Config("doctor found critical issues".to_string())),
        };
    }
    Report { lines, result: Ok(()) }
}

// ---- Adding apps ----

/// An app that is added by the command line.
pub open spec fn added_app(
    name: Seq<char>,
    cwd: Seq<char>,
    command: Seq<Seq<char>>,
    venv: Seq<char>,
    entry: Seq<char>,
    env_file: Option<Seq<char>>,
    restart_schedule: Option<Seq<char>>,
    autostart: bool,
    restart: RestartPolicy,
) -> AppSpecView {
    AppSpecView {
        name,
        cwd,
        command,
        venv,
        entry,
        args: Seq::empty(),
        autostart,
        restart,
        stop_signal: "SIGTERM"@,
        kill_timeout_ms: 8_000,
        restart_schedule,
        env_file,
        env: Seq::empty(),
    }
}

fn make_app(
    name: String,
    cwd: String,
    command: Vec<String>,
    venv: String,
    entry: String,
    env_file: Option<String>,
    restart_schedule: Option<String>,
    autostart: bool,
    restart: RestartPolicy,
) -> (r: AppSpec)
    ensures
        r@ == added_app(
            name@,
            cwd@,
            texts(command@),
            venv@,
            entry@,
            opt_text(env_file),
            opt_text(restart_schedule),
            autostart,
            restart,
        ),
{
    let app = AppSpec {
        name,
        cwd,
        command,
        venv,
        entry,
        args: Vec::new(),
        autostart,
        restart,
        stop_signal: "SIGTERM".to_string(),
        kill_timeout_ms: 8_000,
        restart_schedule,
        env_file,
        env: NameMap::new(),
    };
    assert(app@.args =~= Seq::empty());
    assert(app@.env =~= Seq::empty());
    app
}

/// The command that serves a FastAPI app.
pub open spec fn fastapi_command(
    venv: Seq<char>,
    entry: Seq<char>,
    host: Seq<char>,
    port: u16,
) -> Seq<Seq<char>> {
    seq![
        trim_end_of(venv, '/') + "/bin/python"@,
        "-m"@,
        "uvicorn"@,
        entry,
        "--host"@,
        host,
        "--port"@,
        decimal_int(port as int),
    ]
}

/// The command that serves a FastAPI app.
pub fn build_fastapi_command(venv: &str, entry: &str, host: &str, port: u16) -> (r: Vec<String>)
    ensures
        texts(r@) == fastapi_command(venv@, entry@, host@, port),
{
    let dir = trimmed_end_of(venv, '/');
    let mut out: Vec<String> = Vec::new();
    out.push(cat2(dir.as_str(), "/bin/python"));
    out.push("-m".to_string());
    out.push("uvicorn".to_string());
    out.push(entry.to_owned());
    out.push("--host".to_string());
    out.push(host.to_owned());
    out.push("--port".to_string());
    out.push(u64_text(port as u64));
    assert(texts(out@) =~= fastapi_command(venv@, entry@, host@, port));
    out
}

/// The FastAPI app that the options describe.
pub fn add_fastapi(
    name: String,
    cwd: String,
    entry: String,
    host: String,
    port: u16,
    venv: String,
    env_file: Option<String>,
    restart_schedule: Option<String>,
    autostart: bool,
    restart: RestartPolicy,
) -> (r: Result<AppSpec, PyopsError>)
    ensures
        outcome(r) == if blank(venv@) {
            Err(ErrorView::Config("--venv cannot be empty for add-fastapi"@))
        } else {
            Ok::<AppSpecView, ErrorView>(
                added_app(
                    name@,
                    cwd@,
                    fastapi_command(venv@, entry@, host@, port),
                    venv@,
                    entry@,
                    opt_text(env_file),
                    opt_text(restart_schedule),
                    autostart,
                    restart,
                ),
            )
        },
{
    if is_blank(venv.as_str()) {
        return Err(PyopsError::Config("--venv cannot be empty for add-fastapi".to_string()));
    }
    let command = build_fastapi_command(venv.as_str(), entry.as_str(), host.as_str(), port);
    Ok(make_app(name, cwd, command, venv, entry, env_file, restart_schedule, autostart, restart))
}

// ---- Command strings ----

/// The error of `shell_words::split`.
#[verifier::external_type_specification]
#[verifier::external_body]
pub struct ExSplitError(shell_words::ParseError);

/// The words of a command string as `shell_words::split` finds them, or `None`
/// where it finds an error.
pub uninterp spec fn shell_split(command: Seq<char>) -> Option<Seq<Seq<char>>>;

/// What `shell_words::split` returned.
pub open spec fn split_result(r: Result<Vec<String>, shell_words::ParseError>) -> Option<
    Seq<Seq<char>>,
> {
    match r {
        Ok(v) => Some(texts(v@)),
        Err(_) => None,
    }
}

/// Whether a command string holds no quotes, and so none that is not closed.
pub open spec fn unquoted(command: Seq<char>) -> bool {
    forall|i: int| 0 <= i < command.len() ==> command[i] != '\'' && command[i] != '"'
}

/// Whether a command string is made of words with blanks between them alone:
/// without quotes, backslashes and comments, and without other white space
/// than spaces, tabs and line breaks.
pub open spec fn plain(command: Seq<char>) -> bool {
    forall|i: int|
        0 <= i < command.len() ==> {
            let c = #[trigger] command[i];
            &&& c != '\'' && c != '"' && c != '\\' && c != '#'
            &&& is_whitespace(c) ==> c == ' ' || c == '\t' || c == '\n'
        }
}

/// `shell_words::split`: the words of a command string, by the rules of a Unix
/// shell for quotes, backslashes and comments. What they are is given a name.
/// Stated of it is that it finds an error only where there is a quote, and that
/// of a plain string it finds the words between the blanks.
pub assume_specification[ shell_words::split ](s: &str) -> (r: Result<
    Vec<String>,
    shell_words::ParseError,
>)
    ensures
        split_result(r) == shell_split(s@),
        unquoted(s@) ==> r is Ok,
        plain(s@) ==> split_result(r) == Some(words(s@)),
;

/// How `shell_words::ParseError` words itself, which is the same for each.
#[verifier::external_body]
fn split_error_text(e: &shell_words::ParseError) -> (r: String)
    ensures
        r@ == "missing closing quote"@,
{
    e.to_string()
}

/// The words of a command string, given how a shell splits it.
pub open spec fn parsed_command(split: Option<Seq<Seq<char>>>) -> Result<
    Seq<Seq<char>>,
    ErrorView,
> {
    match split {
        Some(parts) => Ok(parts),
        None => Err(
            ErrorView::Config("invalid --command value: "@ + "missing closing quote"@),
        ),
    }
}

/// The words of a command string.
pub fn parse_command_string(command: &str) -> (r: Result<Vec<String>, PyopsError>)
    ensures
        names_result(r) == parsed_command(shell_split(command@)),
        unquoted(command@) ==> r is Ok,
        plain(command@) ==> names_result(r) == Ok::<Seq<Seq<char>>, ErrorView>(words(command@)),
{
    match shell_words::split(command) {
        Ok(parts) => Ok(parts),
        Err(e) => {
            let why = split_error_text(&e);
            Err(PyopsError::Config(cat2("invalid --command value: ", why.as_str())))
        },
    }
}

/// The app that the words of its command and the other options describe.
pub open spec fn command_app(
    name: Seq<char>,
    cwd: Seq<char>,
    parsed: Result<Seq<Seq<char>>, ErrorView>,
    env_file: Option<Seq<char>>,
    restart_schedule: Option<Seq<char>>,
    autostart: bool,
    restart: RestartPolicy,
) -> Result<AppSpecView, ErrorView> {
    match parsed {
        Err(e) => Err(e),
        Ok(parts) => if parts.len() == 0 {
            Err(ErrorView::Config("--command must contain at least one executable"@))
        } else {
            Ok(
                added_app(
                    name,
                    cwd,
                    parts,
                    ""@,
                    ""@,
                    env_file,
                    restart_schedule,
                    autostart,
                    restart,
                ),
            )
        },
    }
}

/// The app that the words of its command and the other options describe.
pub fn add_parsed_cmd(
    name: String,
    cwd: String,
    parsed: Result<Vec<String>, PyopsError>,
    env_file: Option<String>,
    restart_schedule: Option<String>,
    autostart: bool,
    restart: RestartPolicy,
) -> (r: Result<AppSpec, PyopsError>)
    ensures
        outcome(r) == command_app(
            name@,
            cwd@,
            names_result(parsed),
            opt_text(env_file),
            opt_text(restart_schedule),
            autostart,
            restart,
        ),
{
    let parts = match parsed {
        Ok(parts) => parts,
        Err(e) => return Err(e),
    };
    assert(texts(parts@).len() == parts@.len());
    if parts.is_empty() {
        return Err(
            PyopsError::Config("--command must contain at least one executable".to_string()),
        );
    }
    Ok(
        make_app(
            name,
            cwd,
            parts,
            "".to_string(),
            "".to_string(),
            env_file,
            restart_schedule,
            autostart,
            restart,
        ),
    )
}

/// The app that a command string and the other options describe.
pub fn add_cmd(
    name: String,
    cwd: String,
    command: String,
    env_file: Option<String>,
    restart_schedule: Option<String>,
    autostart: bool,
    restart: RestartPolicy,
) -> (r: Result<AppSpec, PyopsError>)
    ensures
        outcome(r) == command_app(
            name@,
            cwd@,
            parsed_command(shell_split(command@)),
            opt_text(env_file),
            opt_text(restart_schedule),
            autostart,
            restart,
        ),
{
    let parsed = parse_command_string(command.as_str());
    add_parsed_cmd(name, cwd, parsed, env_file, restart_schedule, autostart, restart)
}

// ---- Changing the configuration ----

/// Whether an app to be added has a schedule that cannot be read, and why.
pub open spec fn schedule_problem(app: AppSpecView) -> Option<ErrorView> {
    match app.restart_schedule {
        Some(text) => match schedule_of(text) {
            Ok(_) => None,
            Err(e) => Some(e),
        },
        None => None,
    }
}

/// Checks the schedule of an app that is to be added.
pub fn check_schedule(app: &AppSpec) -> (r: Result<(), PyopsError>)
    ensures
        outcome(r) == match schedule_problem(app@) {
            Some(e) => Err::<(), ErrorView>(e),
            None => Ok(()),
        },
{
    match &app.restart_schedule {
        Some(text) => match parse_restart_schedule(text.as_str()) {
            Ok(_) => Ok(()),
            Err(e) => Err(e),
        },
        None => Ok(()),
    }
}

/// Whether an app of that name is among `apps`.
pub open spec fn named_in(apps: Seq<AppSpecView>, name: Seq<char>) -> bool {
    exists|i: int| 0 <= i < apps.len() && (#[trigger] apps[i]).name == name
}

/// The configuration with an app added to it.
pub open spec fn with_app(cfg: ConfigView, app: AppSpecView) -> Result<ConfigView, ErrorView> {
    match schedule_problem(app) {
        Some(e) => Err(e),
        None => if named_in(cfg.apps, app.name) {
            Err(ErrorView::Config("app '"@ + app.name + "' already exists"@))
        } else {
            Ok(ConfigView { apps: cfg.apps.push(app), ..cfg })
        },
    }
}

/// The configuration with an app added to it: a name can be taken once only.
pub fn append_app(cfg: ConfigFile, app: AppSpec) -> (r: Result<ConfigFile, PyopsError>)
    ensures
        outcome(r) == with_app(cfg@, app@),
{
    if let Err(e) = check_schedule(&app) {
        return Err(e);
    }
    let ghost apps = cfg@.apps;
    let mut i: usize = 0;
    while i < cfg.apps.len()
        invariant
            apps == specs_view(cfg.apps@),
            i <= cfg.apps@.len(),
            schedule_problem(app@) is None,
            forall|j: int| 0 <= j < i ==> (#[trigger] apps[j]).name != app@.name,
        decreases cfg.apps@.len() - i,
    {
        assert(apps[i as int] == cfg.apps@[i as int]@);
        if same(cfg.apps[i].name.as_str(), app.name.as_str()) {
            return Err(
                PyopsError::Config(cat3("app '", app.name.as_str(), "' already exists")),
            );
        }
        i += 1;
    }
    let ghost added = app@;
    let mut all = cfg.apps;
    all.push(app);
    assert(specs_view(all@) =~= apps.push(added));
    Ok(ConfigFile { agent: cfg.agent, apps: all })
}

/// The configuration that an app is to be added to: the one in the file at the
/// default path, which has to be in order; where there is no such file, the one
/// of a client.
pub open spec fn extensible(env: Option<Seq<char>>, exists: bool, source: SourceView) -> Result<
    LoadedView,
    ErrorView,
> {
    if exists {
        loaded(config_path(env), source)
    } else {
        client_config(loaded(config_path(env), source))
    }
}

fn load_extensible(env: Option<&str>, exists: bool, source: ConfigSource) -> (r: Result<
    LoadedConfig,
    PyopsError,
>)
    ensures
        outcome(r) == extensible(opt_str(env), exists, source@),
{
    if exists {
        match default_config_path(env) {
            Ok(path) => load_config_from(path.as_str(), source),
            Err(e) => Err(e),
        }
    } else {
        load_config_or_defaults_for_client(env, source)
    }
}

/// The configuration that the file at the default path is to hold once an app
/// was added.
pub open spec fn extended(
    app: AppSpecView,
    env: Option<Seq<char>>,
    exists: bool,
    source: SourceView,
) -> Result<ConfigView, ErrorView> {
    match schedule_problem(app) {
        Some(e) => Err(e),
        None => match extensible(env, exists, source) {
            Err(e) => Err(e),
            Ok(found) => with_app(found.config, app),
        },
    }
}

/// What the user is warned of when an app is added.
pub open spec fn extension_warnings(
    app: AppSpecView,
    env: Option<Seq<char>>,
    exists: bool,
    source: SourceView,
) -> Seq<Seq<char>> {
    match (schedule_problem(app), extensible(env, exists, source)) {
        (None, Ok(found)) => found.warnings,
        _ => Seq::empty(),
    }
}

/// The path and the text to write there so that an app is added, given how the
/// configuration with it renders as TOML.
pub open spec fn to_write(
    app: AppSpecView,
    env: Option<Seq<char>>,
    exists: bool,
    source: SourceView,
    rendered: Result<Seq<char>, Seq<char>>,
) -> Result<(Seq<char>, Seq<char>), ErrorView> {
    match extended(app, env, exists, source) {
        Err(e) => Err(e),
        Ok(cfg) => match to_save(config_path(env), cfg, rendered) {
            Err(e) => Err(e),
            Ok(text) => Ok((config_path(env), text)),
        },
    }
}

/// What comes of adding an app: what the user is warned of, and the path and the
/// text to write there, unless something is wrong.
pub struct Addition {
    pub warnings: Vec<String>,
    pub save: Result<(String, String), PyopsError>,
}

/// The path and the text to write there.
pub open spec fn pending(r: Result<(String, String), PyopsError>) -> Result<
    (Seq<char>, Seq<char>),
    ErrorView,
> {
    match r {
        Ok((path, text)) => Ok((path@, text@)),
        Err(e) => Err(e@),
    }
}

/// Whether `save` is what is to be written so that an app is added, with `render`
/// to turn the configuration with it into TOML.
pub open spec fn is_addition<R: Fn(&ConfigFile) -> Result<String, String>>(
    app: AppSpecView,
    env: Option<Seq<char>>,
    exists: bool,
    source: SourceView,
    render: R,
    save: Result<(Seq<char>, Seq<char>), ErrorView>,
) -> bool {
    match extended(app, env, exists, source) {
        Err(e) => save == Err::<(Seq<char>, Seq<char>), ErrorView>(e),
        Ok(cfg) => exists|c: &ConfigFile, text: Result<String, String>|
            c@ == cfg && #[trigger] call_ensures(render, (c,), text) && save == to_write(
                app,
                env,
                exists,
                source,
                rendering(text),
            ),
    }
}

/// Adds an app to the configuration at the default path, given whether that file
/// is there and what came of reading it; `render` turns a configuration into
/// TOML. Nothing is to be written where something is wrong.
pub fn add_app_to_config<R: Fn(&ConfigFile) -> Result<String, String>>(
    app: AppSpec,
    env: Option<&str>,
    exists: bool,
    source: ConfigSource,
    render: R,
) -> (r: Addition)
    requires
        forall|c: &ConfigFile| call_requires(render, (c,)),
    ensures
        texts(r.warnings@) == extension_warnings(app@, opt_str(env), exists, source@),
        is_addition(app@, opt_str(env), exists, source@, render, pending(r.save)),
{
    let none: Vec<String> = Vec::new();
    assert(texts(none@) =~= Seq::<Seq<char>>::empty());
    if let Err(e) = check_schedule(&app) {
        return Addition { warnings: none, save: Err(e) };
    }
    let LoadedConfig { config, warnings } = match load_extensible(env, exists, source) {
        Ok(found) => found,
        Err(e) => return Addition { warnings: none, save: Err(e) },
    };
    let cfg = match append_app(config, app) {
        Ok(cfg) => cfg,
        Err(e) => return Addition { warnings, save: Err(e) },
    };
    let path = match default_config_path(env) {
        Ok(path) => path,
        Err(e) => return Addition { warnings, save: Err(e) },
    };
    let rendered = render(&cfg);
    assert(call_ensures(render, (&cfg,), rendered));
    let save = match save_config_to(path.as_str(), &cfg, rendered) {
        Ok(text) => Ok((path, text)),
        Err(e) => Err(e),
    };
    Addition { warnings, save }
}

/// What the user is told of a save.
pub open spec fn saved(path: Seq<char>, r: Result<(), ErrorView>) -> Result<Seq<char>, ErrorView> {
    match r {
        Ok(()) => Ok("saved "@ + path),
        Err(ErrorView::Io(kind, _)) if kind == IoKind::PermissionDenied => Err(
            ErrorView::Config(
                "cannot write "@ + path
                    + " (permission denied). run as root or edit /etc/pym2/config.toml"@,
            ),
        ),
        Err(e) => Err(e),
    }
}

/// What the user is told of a save.
pub fn save_outcome(path: &str, result: Result<(), PyopsError>) -> (r: Result<String, PyopsError>)
    ensures
        outcome(r) == saved(path@, outcome(result)),
{
    match result {
        Ok(()) => Ok(cat2("saved ", path)),
        Err(PyopsError::Io(f)) => {
            if f.kind == IoKind::PermissionDenied {
                Err(
                    PyopsError::Config(
                        cat3(
                            "cannot write ",
                            path,
                            " (permission denied). run as root or edit /etc/pym2/config.toml",
                        ),
                    ),
                )
            } else {
                Err(PyopsError::Io(f))
            }
        },
        Err(e) => Err(e),
    }
}

// ---- Lint ----

/// What is wrong with the command of an app.
pub open spec fn command_faults(app: AppSpecView) -> Seq<Seq<char>> {
    if app.command.len() == 0 {
        if blank(app.venv) || blank(app.entry) {
            seq![
                "app '"@ + app.name
                    + "' missing command and legacy fields (need command[] or venv+entry)"@,
            ]
        } else {
            Seq::empty()
        }
    } else if blank(app.command[0]) {
        seq!["app '"@ + app.name + "' command executable is empty"@]
    } else {
        Seq::empty()
    }
}

/// What is wrong with the schedule of an app.
pub open spec fn schedule_faults(app: AppSpecView) -> Seq<Seq<char>> {
    match app.restart_schedule {
        None => Seq::empty(),
        Some(text) => match schedule_of(text) {
            Ok(_) => Seq::empty(),
            Err(e) => seq![
                "app '"@ + app.name + "' invalid restart_schedule '"@ + text + ("': "@ + e.text()),
            ],
        },
    }
}

/// What is wrong with the app at `i`.
pub open spec fn faults_at(apps: Seq<AppSpecView>, i: int) -> Seq<Seq<char>> {
    let app = apps[i];
    if blank(app.name) {
        seq!["app name cannot be empty"@]
    } else {
        (if named_in(apps.take(i), app.name) {
            seq!["duplicate app name '"@ + app.name + "'"@]
        } else {
            Seq::empty()
        }) + (if blank(app.cwd) {
            seq!["app '"@ + app.name + "' has empty cwd"@]
        } else {
            Seq::empty()
        }) + command_faults(app) + schedule_faults(app)
    }
}

/// What is wrong with the first `n` apps.
pub open spec fn faults(apps: Seq<AppSpecView>, n: int) -> Seq<Seq<char>>
    decreases n,
{
    if n <= 0 {
        Seq::empty()
    } else {
        faults(apps, n - 1) + faults_at(apps, n - 1)
    }
}

fn lint_command(app: &AppSpec, out: &mut Vec<String>)
    ensures
        texts(final(out)@) == texts(old(out)@) + command_faults(app@),
{
    let ghost before = texts(out@);
    assert(app@.command.len() == app.command@.len());
    if app.command.is_empty() {
        if is_blank(app.venv.as_str()) || is_blank(app.entry.as_str()) {
            out.push(
                cat3(
                    "app '",
                    app.name.as_str(),
                    "' missing command and legacy fields (need command[] or venv+entry)",
                ),
            );
        }
    } else if is_blank(app.command[0].as_str()) {
        out.push(cat3("app '", app.name.as_str(), "' command executable is empty"));
    }
    assert(texts(out@) =~= before + command_faults(app@));
}

fn lint_schedule(app: &AppSpec, out: &mut Vec<String>)
    ensures
        texts(final(out)@) == texts(old(out)@) + schedule_faults(app@),
{
    let ghost before = texts(out@);
    if let Some(text) = &app.restart_schedule {
        if let Err(e) = parse_restart_schedule(text.as_str()) {
            let why = e.to_string();
            let tail = cat2("': ", why.as_str());
            out.push(
                cat5(
                    "app '",
                    app.name.as_str(),
                    "' invalid restart_schedule '",
                    text.as_str(),
                    tail.as_str(),
                ),
            );
        }
    }
    assert(texts(out@) =~= before + schedule_faults(app@));
}

fn seen_before(apps: &Vec<AppSpec>, n: usize, name: &str) -> (r: bool)
    requires
        n <= apps@.len(),
    ensures
        r == named_in(specs_view(apps@).take(n as int), name@),
{
    let ghost front = specs_view(apps@).take(n as int);
    let mut i: usize = 0;
    while i < n
        invariant
            n <= apps@.len(),
            front == specs_view(apps@).take(n as int),
            i <= n,
            forall|j: int| 0 <= j < i ==> (#[trigger] front[j]).name != name@,
        decreases n - i,
    {
        assert(front[i as int] == apps@[i as int]@);
        if same(apps[i].name.as_str(), name) {
            return true;
        }
        i += 1;
    }
    false
}

/// All that is wrong with the apps of a configuration.
pub fn lint_errors(cfg: &ConfigFile) -> (r: Vec<String>)
    ensures
        texts(r@) == faults(cfg@.apps, cfg@.apps.len() as int),
{
    let ghost apps = cfg@.apps;
    let mut out: Vec<String> = Vec::new();
    let mut i: usize = 0;
    assert(texts(out@) =~= faults(apps, 0));
    while i < cfg.apps.len()
        invariant
            apps == specs_view(cfg.apps@),
            i <= cfg.apps@.len(),
            texts(out@) == faults(apps, i as int),
        decreases cfg.apps@.len() - i,
    {
        let app = &cfg.apps[i];
        let ghost before = texts(out@);
        assert(apps[i as int] == app@);
        if is_blank(app.name.as_str()) {
            out.push("app name cannot be empty".to_string());
            assert(texts(out@) =~= before + faults_at(apps, i as int));
        } else {
            if seen_before(&cfg.apps, i, app.name.as_str()) {
                out.push(cat3("duplicate app name '", app.name.as_str(), "'"));
            }
            let ghost dup = if named_in(apps.take(i as int), app@.name) {
                seq!["duplicate app name '"@ + app@.name + "'"@]
            } else {
                Seq::empty()
            };
            assert(texts(out@) =~= before + dup);
            if is_blank(app.cwd.as_str()) {
                out.push(cat3("app '", app.name.as_str(), "' has empty cwd"));
            }
            let ghost dir = if blank(app@.cwd) {
                seq!["app '"@ + app@.name + "' has empty cwd"@]
            } else {
                Seq::empty()
            };
            assert(texts(out@) =~= before + dup + dir);
            lint_command(app, &mut out);
            lint_schedule(app, &mut out);
            assert(texts(out@) =~= before + (dup + dir + command_faults(app@) + schedule_faults(
                app@,
            )));
        }
        i += 1;
    }
    out
}

/// What the user is told of a check of the configuration at `path`: the first
/// part goes out, the second among the errors.
pub fn lint_config(path: &str, source: ConfigSource) -> (r: Result<
    (Vec<String>, Vec<String>, Result<(), PyopsError>),
    PyopsError,
>)
    ensures
        match source {
            ConfigSource::Unreadable(m) => r matches Err(e) && e@ == ErrorView::Config(
                "failed to read config "@ + path@ + ": "@ + m@,
            ),
            ConfigSource::Malformed(m) => r matches Err(e) && e@ == ErrorView::Config(
                "failed to parse config "@ + path@ + ": "@ + m@,
            ),
            ConfigSource::Parsed(cfg) => {
                let found = faults(cfg@.apps, cfg@.apps.len() as int);
                &&& r matches Ok((out, err, result))
                &&& found.len() == 0 ==> texts(out@) == seq!["config lint OK: "@ + path@] && texts(
                    err@,
                ) == Seq::<Seq<char>>::empty() && result is Ok
                &&& found.len() > 0 ==> texts(out@) == Seq::<Seq<char>>::empty() && texts(err@)
                    == seq!["config lint FAILED: "@ + path@] + found.map_values(
                    |m: Seq<char>| "- "@ + m,
                ) && outcome(result) == Err::<(), ErrorView>(
                    ErrorView::Config("config lint failed"@),
                )
            },
        },
{
    let cfg = match source {
        ConfigSource::Unreadable(m) => return Err(
            PyopsError::Config(cat4("failed to read config ", path, ": ", m.as_str())),
        ),
        ConfigSource::Malformed(m) => return Err(
            PyopsError::Config(cat4("failed to parse config ", path, ": ", m.as_str())),
        ),
        ConfigSource::Parsed(cfg) => cfg,
    };
    let errors = lint_errors(&cfg);
    let ghost found = texts(errors@);
    let mut out: Vec<String> = Vec::new();
    let mut err: Vec<String> = Vec::new();
    assert(found.len() == errors@.len());
    if errors.is_empty() {
        out.push(cat2("config lint OK: ", path));
        assert(texts(out@) =~= seq!["config lint OK: "@ + path@]);
        assert(texts(err@) =~= Seq::<Seq<char>>::empty());
        return Ok((out, err, Ok(())));
    }
    err.push(cat2("config lint FAILED: ", path));
    let ghost head = seq!["config lint FAILED: "@ + path@];
    let ghost items = found.map_values(|m: Seq<char>| "- "@ + m);
    let mut i: usize = 0;
    assert(texts(err@) =~= head + items.take(0));
    while i < errors.len()
        invariant
            found == texts(errors@),
            items == found.map_values(|m: Seq<char>| "- "@ + m),
            i <= errors@.len(),
            texts(err@) == head + items.take(i as int),
        decreases errors@.len() - i,
    {
        let ghost before = texts(err@);
        err.push(cat2("- ", errors[i].as_str()));
        assert(texts(err@) =~= before.push(items[i as int]));
        assert(head + items.take(i + 1) =~= before.push(items[i as int]));
        i += 1;
    }
    assert(items.take(i as int) =~= items);
    assert(texts(out@) =~= Seq::<Seq<char>>::empty());
    Ok((out, err, Err(PyopsError::Config("config lint failed".to_string()))))
}

// ---- Laws ----

/// An app can be added to a configuration if and only if its schedule can be
/// read and its name is free; the apps that were there stay as they were, and
/// the new one comes last.
pub proof fn law_adding_keeps_the_others(cfg: ConfigView, app: AppSpecView)
    ensures
        with_app(cfg, app) is Ok <==> schedule_problem(app) is None && !named_in(
            cfg.apps,
            app.name,
        ),
        with_app(cfg, app) matches Ok(after) ==> {
            &&& after.agent == cfg.agent
            &&& after.apps.len() == cfg.apps.len() + 1
            &&& after.apps.drop_last() == cfg.apps
            &&& after.apps.last() == app
            &&& with_app(after, app) is Err
        },
{
    if with_app(cfg, app) is Ok {
        let after = with_app(cfg, app)->Ok_0;
        assert(after.apps.drop_last() =~= cfg.apps);
        assert(after.apps[cfg.apps.len() as int].name == app.name);
    }
}

/// What a file with that content holds after an app was added: the text that was
/// to be written, where there was one and it was written.
pub open spec fn file_after(
    content: Seq<char>,
    save: Result<(Seq<char>, Seq<char>), ErrorView>,
    written: Result<(), ErrorView>,
) -> Seq<char> {
    match (save, written) {
        (Ok((_, text)), Ok(_)) => text,
        _ => content,
    }
}

/// What the user is told when an app was to be added.
pub open spec fn told_of(
    save: Result<(Seq<char>, Seq<char>), ErrorView>,
    written: Result<(), ErrorView>,
) -> Result<Seq<char>, ErrorView> {
    match save {
        Err(e) => Err(e),
        Ok((path, _)) => saved(path, written),
    }
}

/// An app is added to the configuration in a file. A name that is taken is
/// refused. Where the user is told that it was saved, the file loads as the
/// configuration that was there with the app as the last one, provided that
/// `parse` reads the rendered text as what was rendered. Where the user is told
/// of an error, the file holds what it held, provided that a write that fails
/// leaves it so.
pub proof fn law_added_app_is_in_the_file(
    app: AppSpecView,
    env: Option<Seq<char>>,
    content: Seq<char>,
    cfg: ConfigView,
    parse: spec_fn(Seq<char>) -> SourceView,
    rendered: Result<Seq<char>, Seq<char>>,
    written: Result<(), ErrorView>,
)
    requires
        loaded(config_path(env), parse(content)) matches Ok(found) && found.config == cfg,
        rendered matches Ok(text) ==> parse(text) == SourceView::Parsed(
            (ConfigView { apps: cfg.apps.push(app), ..cfg }),
        ),
    ensures
        ({
            let save = to_write(app, env, true, parse(content), rendered);
            let file = file_after(content, save, written);
            let told = told_of(save, written);
            &&& schedule_problem(app) is None && named_in(cfg.apps, app.name) ==> told == Err::<
                Seq<char>,
                ErrorView,
            >(ErrorView::Config("app '"@ + app.name + "' already exists"@))
            &&& told is Ok ==> {
                &&& loaded(config_path(env), parse(file)) matches Ok(back)
                &&& back.config == (ConfigView { apps: cfg.apps.push(app), ..cfg })
            }
            &&& told is Err ==> file == content
        }),
{
}

/// A configuration without faults has apps with distinct names, each with a name,
/// a directory, something to run and a schedule that can be read, if any.
pub proof fn law_clean_lint(apps: Seq<AppSpecView>, i: int)
    requires
        faults(apps, apps.len() as int).len() == 0,
        0 <= i < apps.len(),
    ensures
        !blank(apps[i].name),
        !blank(apps[i].cwd),
        apps[i].command.len() > 0 ==> !blank(apps[i].command[0]),
        apps[i].command.len() == 0 ==> !blank(apps[i].venv) && !blank(apps[i].entry),
        schedule_problem(apps[i]) is None,
        forall|j: int| 0 <= j < i ==> (#[trigger] apps[j]).name != apps[i].name,
{
    lemma_faults_grow(apps, i + 1, apps.len() as int);
    assert(faults(apps, i + 1).len() == faults(apps, i).len() + faults_at(apps, i).len());
    assert(faults_at(apps, i).len() == 0);
    assert forall|j: int| 0 <= j < i implies (#[trigger] apps[j]).name != apps[i].name by {
        if apps[j].name == apps[i].name {
            assert(apps.take(i)[j].name == apps[i].name);
        }
    }
}

proof fn lemma_faults_grow(apps: Seq<AppSpecView>, a: int, b: int)
    requires
        0 <= a <= b,
    ensures
        faults(apps, a).len() <= faults(apps, b).len(),
    decreases b - a,
{
    if a < b {
        lemma_faults_grow(apps, a, b - 1);
    }
}

/// The commands that ask the agent something ask just that of it: for the list of
/// apps, for the app they name, for its log, or for the events.
pub proof fn law_questions_are_asked(
    name: String,
    json: bool,
    tail: usize,
    source: LogSource,
)
    ensures
        client_action(Commands::Status { json }) == ClientActionView::Status(
            RequestView::ListApps,
            json,
        ),
        client_action(Commands::Inspect { name, json }) == ClientActionView::Inspect(
            RequestView::GetApp(name@),
            json,
        ),
        client_action(Commands::Logs { name, tail, follow: false, source })
            == ClientActionView::Logs(RequestView::TailLogs(name@, tail, source)),
        client_action(Commands::Logs { name, tail, follow: true, source }) matches
            ClientActionView::FollowLogs(RequestView::StreamLogs(n, t, s, ms)) && n == name@ && t
            == tail && s == source && ms == 400,
        client_action(Commands::Events { follow: true }) == ClientActionView::Events,
        client_action(Commands::Events { follow: false }) == ClientActionView::Nothing,
{
}

/// A line of a followed log is shown with the log it comes from.
pub proof fn law_log_lines_name_their_log(line: Seq<char>)
    ensures
        log_line(LogEventView { source: LogSource::Stdout, line }) == "[OUT] "@ + line,
        log_line(LogEventView { source: LogSource::Stderr, line }) == "[ERR] "@ + line,
        log_line(LogEventView { source: LogSource::Both, line }) == line,
{
}

/// The line for an app in the list begins with its name and shows its status, its
/// process, how often it was restarted and why it is as it is, and ends with its
/// command.
pub proof fn law_status_lines_show_the_app(app: SummaryView)
    ensures
        ({
            let line = status_line(app);
            let state = app.runtime;
            &&& line.take(app.name.len() as int) == app.name
            &&& state.status == AppStatus::Running ==> has_infix(
                line,
                " | "@ + "Running"@ + " | pid="@,
            )
            &&& state.status == AppStatus::Stopped ==> has_infix(
                line,
                " | "@ + "Stopped"@ + " | pid="@,
            )
            &&& state.status == AppStatus::Errored ==> has_infix(
                line,
                " | "@ + "Errored"@ + " | pid="@,
            )
            &&& state.pid matches Some(pid) ==> has_infix(
                line,
                " | pid="@ + decimal_int(pid as int) + " | restarts="@,
            )
            &&& state.pid is None ==> has_infix(line, " | pid="@ + "-"@ + " | restarts="@)
            &&& has_infix(
                line,
                " | restarts="@ + decimal_int(state.restart_count as int) + " | reason="@,
            )
            &&& state.last_reason matches Some(why) ==> has_infix(
                line,
                " | reason="@ + why + " | "@,
            )
            &&& state.last_reason is None ==> (state.last_error matches Some(why) ==> has_infix(
                line,
                " | reason="@ + why + " | "@,
            ))
            &&& state.last_reason is None && state.last_error is None ==> has_infix(
                line,
                " | reason="@ + "-"@ + " | "@,
            )
            &&& app.command.len() > 0 ==> {
                let cmd = join_seq(app.command, " "@);
                line.skip(line.len() - cmd.len()) == cmd
            }
            &&& app.command.len() == 0 && app.entry.len() > 0 ==> {
                let cmd = "legacy:"@ + app.entry;
                line.skip(line.len() - cmd.len()) == cmd
            }
            &&& app.command.len() == 0 && app.entry.len() == 0 ==> line.skip(
                line.len() - "-"@.len(),
            ) == "-"@
        }),
{
    lemma_parts_stand_in_order(
        app.name,
        " | "@,
        app.runtime.status.label_text(),
        " | pid="@,
        pid_text(app.runtime),
        " | restarts="@,
        decimal_int(app.runtime.restart_count as int),
        " | reason="@,
        reason_text(app.runtime),
        command_text(app),
    );
}

proof fn lemma_parts_stand_in_order(
    name: Seq<char>,
    bar: Seq<char>,
    status: Seq<char>,
    p: Seq<char>,
    pid: Seq<char>,
    r: Seq<char>,
    count: Seq<char>,
    w: Seq<char>,
    why: Seq<char>,
    cmd: Seq<char>,
)
    ensures
        ({
            let line = name + bar + status + p + pid + r + count + w + why + bar + cmd;
            &&& line.take(name.len() as int) == name
            &&& has_infix(line, bar + status + p)
            &&& has_infix(line, p + pid + r)
            &&& has_infix(line, r + count + w)
            &&& has_infix(line, w + why + bar)
            &&& line.skip(line.len() - cmd.len()) == cmd
        }),
{
    let line = name + bar + status + p + pid + r + count + w + why + bar + cmd;
    assert(line.take(name.len() as int) =~= name);
    assert(line.skip(line.len() - cmd.len()) =~= cmd);
    let a = pid + r + count + w + why + bar + cmd;
    assert(line =~= name + (bar + status + p) + a);
    lemma_infix(name, bar + status + p, a);
    let b = count + w + why + bar + cmd;
    assert(line =~= (name + bar + status) + (p + pid + r) + b);
    lemma_infix(name + bar + status, p + pid + r, b);
    let c = why + bar + cmd;
    let d = name + bar + status + p + pid;
    assert(line =~= d + (r + count + w) + c);
    lemma_infix(d, r + count + w, c);
    let e = d + r + count;
    assert(line =~= e + (w + why + bar) + cmd);
    lemma_infix(e, w + why + bar, cmd);
}

/// What is shown of one app: each line says what it is named for.
pub proof fn law_inspection_shows_the_app(
    app: DetailsView,
    uvicorn: bool,
    stdout: Seq<char>,
    stderr: Seq<char>,
)
    ensures
        ({
            let lines = inspect_lines(app, uvicorn, stdout, stderr);
            let state = app.runtime;
            &&& lines.len() == 13
            &&& lines[0] == "name: "@ + app.spec.name
            &&& state.status == AppStatus::Running ==> lines[1] == "status: "@ + "Running"@
            &&& state.status == AppStatus::Stopped ==> lines[1] == "status: "@ + "Stopped"@
            &&& state.status == AppStatus::Errored ==> lines[1] == "status: "@ + "Errored"@
            &&& state.pid matches Some(pid) ==> lines[2] == "pid: "@ + decimal_int(pid as int)
            &&& state.pid is None ==> lines[2] == "pid: "@ + "-"@
            &&& lines[3] == "cwd: "@ + app.spec.cwd
            &&& lines[4] == "command: "@ + trim(
                join_seq(app.spec.command_line(uvicorn), " "@),
            )
            &&& app.spec.env_file matches Some(file) ==> lines[5] == "env_file: "@ + file
            &&& app.spec.env_file is None ==> lines[5] == "env_file: "@ + "-"@
            &&& state.last_start_attempt_at is None ==> lines[6] == "last_start: "@ + "-"@
            &&& state.started_at is None ==> lines[7] == "started_at: "@ + "-"@
            &&& state.last_reason is None && state.last_error is None ==> lines[10]
                == "reason: "@ + "-"@
            &&& state.last_start_attempt_at matches Some(at) ==> lines[6] == "last_start: "@
                + decimal_int(at as int)
            &&& state.started_at matches Some(at) ==> lines[7] == "started_at: "@ + decimal_int(
                at as int,
            )
            &&& state.last_exit_code matches Some(code) ==> has_infix(
                lines[8],
                "code="@ + decimal_int(code as int),
            )
            &&& state.last_exit_signal matches Some(sig) ==> has_infix(
                lines[8],
                "signal="@ + sig,
            )
            &&& has_infix(lines[9], "count: "@ + decimal_int(state.restart_count as int))
            &&& state.next_scheduled_restart_at matches Some(at) ==> has_infix(
                lines[9],
                "next_schedule: "@ + decimal_int(at as int),
            )
            &&& state.last_reason matches Some(why) ==> lines[10] == "reason: "@ + why
            &&& state.last_reason is None ==> (state.last_error matches Some(e) ==> lines[10]
                == "reason: "@ + e)
            &&& lines[11] == "stdout_log: "@ + stdout
            &&& lines[12] == "stderr_log: "@ + stderr
        }),
{
    let lines = inspect_lines(app, uvicorn, stdout, stderr);
    let state = app.runtime;
    reveal_strlit("last_exit: code=");
    reveal_strlit("code=");
    reveal_strlit(" signal=");
    reveal_strlit("signal=");
    reveal_strlit(" | count: ");
    reveal_strlit("count: ");
    reveal_strlit(" | next_schedule: ");
    reveal_strlit("next_schedule: ");
    let none = Seq::<char>::empty();
    if state.last_exit_code is Some {
        let code = decimal_int(state.last_exit_code->0 as int);
        let front = "last_exit: code="@.take(11);
        let back = " signal="@ + text_or_dash(state.last_exit_signal);
        assert(lines[8] =~= front + ("code="@ + code) + back);
        lemma_infix(front, "code="@ + code, back);
    }
    if state.last_exit_signal is Some {
        let sig = state.last_exit_signal->0;
        let front = lines[8].take(lines[8].len() - sig.len() - 7);
        assert(lines[8] =~= front + ("signal="@ + sig) + none);
        lemma_infix(front, "signal="@ + sig, none);
    }
    let count = decimal_int(state.restart_count as int);
    let front = "restart: "@ + app.spec.restart.label_text() + " | count: "@.take(3);
    let back = lines[9].skip(front.len() + 7 + count.len() as int);
    assert(lines[9] =~= front + ("count: "@ + count) + back);
    lemma_infix(front, "count: "@ + count, back);
    if state.next_scheduled_restart_at is Some {
        let at = decimal_int(state.next_scheduled_restart_at->0 as int);
        let front = lines[9].take(lines[9].len() - at.len() - 15);
        assert(lines[9] =~= front + ("next_schedule: "@ + at) + none);
        lemma_infix(front, "next_schedule: "@ + at, none);
    }
}

/// All is well if and only if the system is Linux, the configuration can be used,
/// its paths can be resolved and the agent answers.
pub proof fn law_diagnosis(found: FindingsView)
    ensures
        found.report().result is Ok <==> {
            &&& found.os == "linux"@
            &&& found.agent is Ok
            &&& found.config matches Ok(cfg) && tilde_expanded(cfg.agent.socket, found.home) is Ok
                && tilde_expanded(cfg.agent.state_dir, found.home) is Ok
        },
        found.report().lines.len() >= 2,
        found.report().lines[1] == "Config path: "@ + found.config_path,
        found.os == "linux"@ ==> found.report().lines[0] == "OS: ok (linux)"@,
        found.config matches Ok(cfg) ==> (tilde_expanded(cfg.agent.socket, found.home) matches Ok(
            socket,
        ) ==> found.report().lines.len() >= 4 && (found.socket_exists
            ==> found.report().lines[2] == "Socket: ok ("@ + socket + ")"@) && (
        !found.socket_exists ==> found.report().lines[2] == "Socket: warn ("@ + socket
            + ") missing; agent may be stopped"@)),
{
}

/// A FastAPI app is served by the `python` of its virtual environment, at its entry
/// point, its host and its port. An app is added as it was described, with the
/// command it is then started with, and with the usual way to be stopped.
pub proof fn law_added_apps(
    name: Seq<char>,
    cwd: Seq<char>,
    venv: Seq<char>,
    entry: Seq<char>,
    host: Seq<char>,
    port: u16,
    parts: Seq<Seq<char>>,
    env_file: Option<Seq<char>>,
    restart_schedule: Option<Seq<char>>,
    autostart: bool,
    restart: RestartPolicy,
)
    ensures
        ({
            let line = fastapi_command(venv, entry, host, port);
            &&& line.len() == 8
            &&& line[0] == trim_end_of(venv, '/') + "/bin/python"@
            &&& line[1] == "-m"@ && line[2] == "uvicorn"@ && line[3] == entry
            &&& line[4] == "--host"@ && line[5] == host
            &&& line[6] == "--port"@ && line[7] == decimal_int(port as int)
        }),
        ({
            let app = added_app(
                name,
                cwd,
                parts,
                venv,
                entry,
                env_file,
                restart_schedule,
                autostart,
                restart,
            );
            &&& app.name == name && app.cwd == cwd && app.command == parts
            &&& app.venv == venv && app.entry == entry && app.args.len() == 0
            &&& app.env_file == env_file && app.restart_schedule == restart_schedule
            &&& app.autostart == autostart && app.restart == restart
            &&& app.stop_signal == "SIGTERM"@ && app.kill_timeout_ms == 8000
            &&& app.env.len() == 0
        }),
        parts.len() == 0 ==> command_app(
            name,
            cwd,
            Ok(parts),
            env_file,
            restart_schedule,
            autostart,
            restart,
        ) is Err,
        parts.len() > 0 ==> (command_app(
            name,
            cwd,
            Ok(parts),
            env_file,
            restart_schedule,
            autostart,
            restart,
        ) matches Ok(app) && {
            &&& app.name == name && app.cwd == cwd && app.command == parts
            &&& app.env_file == env_file && app.restart_schedule == restart_schedule
            &&& app.autostart == autostart && app.restart == restart
            &&& app.stop_signal == "SIGTERM"@ && app.kill_timeout_ms == 8000
            &&& app.env.len() == 0
            &&& forall|exists_there: bool| #[trigger] app.command_line(exists_there) == parts
        }),
{
}

/// A lint finds nothing if and only if every app has a name that no app before it
/// has, a directory, something to run, and no schedule that cannot be read.
pub proof fn law_lint_finds_every_fault(apps: Seq<AppSpecView>)
    ensures
        faults(apps, apps.len() as int).len() == 0 <==> forall|i: int|
            #![trigger apps[i]]
            0 <= i < apps.len() ==> sound_at(apps, i),
{
    lemma_faults_all(apps, apps.len() as int);
}

/// Whether the app at `i` is in order.
pub open spec fn sound_at(apps: Seq<AppSpecView>, i: int) -> bool {
    &&& !blank(apps[i].name)
    &&& forall|j: int| 0 <= j < i ==> (#[trigger] apps[j]).name != apps[i].name
    &&& !blank(apps[i].cwd)
    &&& apps[i].command.len() > 0 ==> !blank(apps[i].command[0])
    &&& apps[i].command.len() == 0 ==> !blank(apps[i].venv) && !blank(apps[i].entry)
    &&& apps[i].restart_schedule matches Some(text) ==> schedule_of(text) is Ok
}

#[verifier::rlimit(50)]
#[verifier::spinoff_prover]
proof fn lemma_faults_all(apps: Seq<AppSpecView>, n: int)
    requires
        0 <= n <= apps.len(),
    ensures
        faults(apps, n).len() == 0 <==> forall|i: int|
            #![trigger apps[i]]
            0 <= i < n ==> sound_at(apps, i),
    decreases n,
{
    if n > 0 {
        lemma_faults_all(apps, n - 1);
        let i = n - 1;
        assert(faults(apps, n).len() == faults(apps, i).len() + faults_at(apps, i).len());
        let front = apps.take(i);
        if named_in(front, apps[i].name) {
            let j = choose|j: int| 0 <= j < front.len() && (#[trigger] front[j]).name
                == apps[i].name;
            assert(apps[j].name == apps[i].name);
        } else {
            assert forall|j: int| 0 <= j < i implies (#[trigger] apps[j]).name
                != apps[i].name by {
                assert(front[j] == apps[j]);
            }
        }
        assert(faults_at(apps, i).len() == 0 <==> sound_at(apps, i));
        assert(apps[i] == apps[i]);
    }
}

/// What the user is told of a save: where it went, or, where it was not allowed,
/// what to do about it.
pub proof fn law_saves_are_told(path: Seq<char>, kind: IoKind, m: Seq<char>)
    ensures
        saved(path, Ok(())) == Ok::<Seq<char>, ErrorView>("saved "@ + path),
        kind == IoKind::PermissionDenied ==> (saved(path, Err(ErrorView::Io(kind, m))) matches Err(
            ErrorView::Config(_),
        )),
        kind != IoKind::PermissionDenied ==> saved(path, Err(ErrorView::Io(kind, m))) == Err::<
            Seq<char>,
            ErrorView,
        >(ErrorView::Io(kind, m)),
{
}

/// Where there is no configuration file yet, an app is added to the built-in
/// configuration; where there is one that cannot be loaded, nothing is written.
pub proof fn law_first_app_is_added(
    app: AppSpecView,
    env: Option<Seq<char>>,
    why: Seq<char>,
    source: SourceView,
    rendered: Result<Seq<char>, Seq<char>>,
)
    ensures
        schedule_problem(app) is None ==> (extended(
            app,
            env,
            false,
            SourceView::Unreadable(why),
        ) matches Ok(cfg) && cfg.apps == seq![app] && cfg.agent.socket == "/run/pym2/pym2.sock"@
            && cfg.agent.state_dir == "/var/lib/pym2"@),
        loaded(config_path(env), source) is Err ==> to_write(app, env, true, source, rendered)
            is Err,
        schedule_problem(app) matches Some(e) ==> to_write(app, env, true, source, rendered)
            == Err::<(Seq<char>, Seq<char>), ErrorView>(e),
        to_write(app, env, true, source, rendered) matches Ok((path, text)) ==> path
            == config_path(env) && rendered == Ok::<Seq<char>, Seq<char>>(text),
{
    assert(Seq::<AppSpecView>::empty().push(app) =~= seq![app]);
}

/// The words that the shell's rules give are the command of an app, and where they
/// give none it is an error.
pub proof fn law_parsed_commands(parts: Seq<Seq<char>>)
    ensures
        parsed_command(Some(parts)) == Ok::<Seq<Seq<char>>, ErrorView>(parts),
        parsed_command(None) matches Err(ErrorView::Config(_)),
{
}

/// What the diagnosis tells of the agent, of the directories and of the interface.
pub proof fn law_diagnosis_in_detail(
    found: FindingsView,
    cfg: ConfigView,
    socket: Seq<char>,
    dir: Seq<char>,
)
    requires
        found.config == Ok::<ConfigView, ErrorView>(cfg),
        tilde_expanded(cfg.agent.socket, found.home) == Ok::<Seq<char>, ErrorView>(socket),
        tilde_expanded(cfg.agent.state_dir, found.home) == Ok::<Seq<char>, ErrorView>(dir),
    ensures
        ({
            let lines = found.report().lines;
            let web = cfg.agent.web;
            let place = " on "@ + web.host + (":"@ + decimal_int(web.port as int));
            &&& found.os != "linux"@ ==> lines[0] == "OS: fail ("@ + found.os
                + "; pym2 is Linux-only)"@
            &&& found.agent matches Ok(p) ==> lines[3] == "Agent connect: ok (version="@ + p.version
                + ", pid="@ + decimal_int(p.agent_pid as int) + ")"@
            &&& found.agent matches Err(e) ==> lines[3] == "Agent connect: fail ("@ + e.text()
                + ")"@
            &&& found.state_dir_writable ==> lines[4] == "State dir writable: ok ("@ + dir + ")"@
            &&& !found.state_dir_writable ==> lines[4] == "State dir writable: warn ("@ + dir
                + ")"@
            &&& found.config_dir is None ==> lines.len() == 6
            &&& found.config_dir matches Some((at, writable)) ==> {
                &&& lines.len() == 7
                &&& writable ==> lines[5] == "Config dir writable: ok ("@ + at + ")"@
                &&& !writable ==> lines[5] == "Config dir writable: warn ("@ + at
                    + ") (run as root to edit system config)"@
            }
            &&& web.enabled ==> lines.last() == "Web UI: "@ + "enabled"@ + place
            &&& !web.enabled ==> lines.last() == "Web UI: "@ + "disabled"@ + place
        }),
{
    let web = cfg.agent.web;
    let place = " on "@ + web.host + (":"@ + decimal_int(web.port as int));
    assert(found.report().lines.last() == web_line(cfg));
    if web.enabled {
        assert(web_line(cfg) =~= "Web UI: "@ + "enabled"@ + place);
    } else {
        assert(web_line(cfg) =~= "Web UI: "@ + "disabled"@ + place);
    }
}

/// The list of apps has a line for each, in the order of their names.
pub proof fn law_status_is_in_order(apps: Seq<SummaryView>)
    ensures
        exists|sorted: Seq<SummaryView>|
            #![trigger sorted.to_multiset()]
            {
                &&& crate::listing::ordered(sorted)
                &&& sorted.to_multiset() == apps.to_multiset()
                &&& status_lines(apps).len() == sorted.len()
                &&& forall|i: int|
                    0 <= i < sorted.len() ==> status_lines(apps)[i] == status_line(
                        #[trigger] sorted[i],
                    )
            },
{
    crate::listing::law_by_name_sorts(apps);
    let sorted = by_name(apps);
    assert(sorted.to_multiset() == apps.to_multiset());
}

/// Adding an app to a configuration warns of what loading it warns of.
pub proof fn law_additions_warn(app: AppSpecView, env: Option<Seq<char>>, source: SourceView)
    requires
        schedule_problem(app) is None,
    ensures
        loaded(config_path(env), source) matches Ok(found) ==> extension_warnings(
            app,
            env,
            true,
            source,
        ) == found.warnings,
{
}

/// Each fault of an app is told once and in its words: an empty name, a name that an
/// earlier app has, an empty working directory, nothing to run, and a schedule that
/// cannot be read.
pub proof fn law_faults_are_worded(apps: Seq<AppSpecView>, i: int)
    requires
        0 <= i < apps.len(),
    ensures
        ({
            let app = apps[i];
            let told = faults_at(apps, i);
            let twice = exists|j: int| 0 <= j < i && (#[trigger] apps[j]).name == app.name;
            let idle = if app.command.len() == 0 {
                blank(app.venv) || blank(app.entry)
            } else {
                blank(app.command[0])
            };
            let unread = app.restart_schedule matches Some(text) && schedule_of(text) is Err;
            &&& blank(app.name) ==> told == seq!["app name cannot be empty"@]
            &&& !blank(app.name) ==> {
                &&& told.len() == (if twice {
                    1int
                } else {
                    0
                }) + (if blank(app.cwd) {
                    1int
                } else {
                    0
                }) + (if idle {
                    1int
                } else {
                    0
                }) + (if unread {
                    1int
                } else {
                    0
                })
                &&& twice ==> told[0] == "duplicate app name '"@ + app.name + "'"@
                &&& blank(app.cwd) ==> told.contains("app '"@ + app.name + "' has empty cwd"@)
                &&& idle && app.command.len() == 0 ==> told.contains(
                    "app '"@ + app.name
                        + "' missing command and legacy fields (need command[] or venv+entry)"@,
                )
                &&& idle && app.command.len() > 0 ==> told.contains(
                    "app '"@ + app.name + "' command executable is empty"@,
                )
                &&& app.restart_schedule matches Some(text) ==> (schedule_of(text) matches Err(e)
                    ==> told.last() == "app '"@ + app.name + "' invalid restart_schedule '"@ + text
                    + ("': "@ + e.text()))
            }
        }),
{
    let app = apps[i];
    let front = apps.take(i);
    let told = faults_at(apps, i);
    if exists|j: int| 0 <= j < i && (#[trigger] apps[j]).name == app.name {
        let j = choose|j: int| 0 <= j < i && (#[trigger] apps[j]).name == app.name;
        assert(front[j].name == app.name);
        assert(named_in(front, app.name));
    } else if named_in(front, app.name) {
        let j = choose|j: int| 0 <= j < front.len() && (#[trigger] front[j]).name == app.name;
        assert(apps[j].name == app.name);
    }
    if !blank(app.name) {
        let a = if named_in(front, app.name) {
            1int
        } else {
            0
        };
        let b = if blank(app.cwd) {
            1int
        } else {
            0
        };
        if blank(app.cwd) {
            assert(told[a] == "app '"@ + app.name + "' has empty cwd"@);
        }
        if command_faults(app).len() > 0 {
            assert(told[a + b] == command_faults(app)[0]);
        }
    }
}

/// An app whose schedule cannot be read is not added, whatever the configuration.
pub proof fn law_unreadable_schedules_are_not_added(
    app: AppSpecView,
    cfg: ConfigView,
    env: Option<Seq<char>>,
    there: bool,
    source: SourceView,
)
    requires
        app.restart_schedule is Some,
        schedule_of(app.restart_schedule->0) is Err,
    ensures
        with_app(cfg, app) is Err,
        extended(app, env, there, source) == Err::<ConfigView, ErrorView>(
            schedule_of(app.restart_schedule->0)->Err_0,
        ),
{
}

} // verus!
