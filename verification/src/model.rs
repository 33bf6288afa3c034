//! The shared data: configuration, runtime state, requests and replies.

use crate::names::{filed, lemma_position_is, NameMap};
use crate::paths::{join_path, joined};
use crate::text::{opt_text, texts};
use vstd::prelude::*;

verus! {

// ---- Copies ----

/// A copy of `v`.
pub fn clone_strings(v: &Vec<String>) -> (r: Vec<String>)
    ensures
        r@ == v@,
{
    let mut out: Vec<String> = Vec::new();
    let mut i: usize = 0;
    while i < v.len()
        invariant
            i <= v@.len(),
            out@ == v@.take(i as int),
        decreases v@.len() - i,
    {
        out.push(v[i].clone());
        i += 1;
    }
    assert(v@.take(i as int) =~= v@);
    out
}

/// A copy of `o`.
pub fn clone_opt(o: &Option<String>) -> (r: Option<String>)
    ensures
        r == *o,
{
    match o {
        Some(s) => Some(s.clone()),
        None => None,
    }
}

/// A copy of `m`.
pub fn clone_env(m: &NameMap<String>) -> (r: NameMap<String>)
    ensures
        r@ == m@,
{
    let mut out: NameMap<String> = NameMap::new();
    let n = m.len();
    let mut i: usize = 0;
    while i < n
        invariant
            n == m@.len(),
            i <= n,
            crate::names::distinct(m@),
            out@ == m@.take(i as int),
        decreases n - i,
    {
        let ghost k = m@[i as int].0;
        proof {
            lemma_position_is(out@, k, i as int);
            assert(filed(out@, k, m@[i as int].1) =~= m@.take(i + 1));
        }
        out.insert(m.name_at(i).clone(), m.value_at(i).clone());
        i += 1;
    }
    assert(m@.take(i as int) =~= m@);
    out
}

/// The variables of an environment with their values.
pub open spec fn env_view(m: NameMap<String>) -> Seq<(Seq<char>, Seq<char>)> {
    m@.map_values(|e: (Seq<char>, String)| (e.0, e.1@))
}

// ---- Configuration ----

#[derive(Debug, Clone, Copy, PartialEq, Eq, Structural)]
pub enum RestartPolicy {
    Never,
    OnFailure,
    Always,
}

impl Default for RestartPolicy {
    fn default() -> (r: Self)
        ensures
            r == RestartPolicy::OnFailure,
    {
        RestartPolicy::OnFailure
    }
}

pub struct AppSpec {
    pub name: String,
    pub cwd: String,
    pub command: Vec<String>,
    pub venv: String,
    pub entry: String,
    pub args: Vec<String>,
    pub autostart: bool,
    pub restart: RestartPolicy,
    pub stop_signal: String,
    pub kill_timeout_ms: u64,
    pub restart_schedule: Option<String>,
    pub env_file: Option<String>,
    pub env: NameMap<String>,
}

pub struct AppSpecView {
    pub name: Seq<char>,
    pub cwd: Seq<char>,
    pub command: Seq<Seq<char>>,
    pub venv: Seq<char>,
    pub entry: Seq<char>,
    pub args: Seq<Seq<char>>,
    pub autostart: bool,
    pub restart: RestartPolicy,
    pub stop_signal: Seq<char>,
    pub kill_timeout_ms: u64,
    pub restart_schedule: Option<Seq<char>>,
    pub env_file: Option<Seq<char>>,
    pub env: Seq<(Seq<char>, Seq<char>)>,
}

impl View for AppSpec {
    type V = AppSpecView;

    open spec fn view(&self) -> AppSpecView {
        AppSpecView {
            name: self.name@,
            cwd: self.cwd@,
            command: texts(self.command@),
            venv: self.venv@,
            entry: self.entry@,
            args: texts(self.args@),
            autostart: self.autostart,
            restart: self.restart,
            stop_signal: self.stop_signal@,
            kill_timeout_ms: self.kill_timeout_ms,
            restart_schedule: opt_text(self.restart_schedule),
            env_file: opt_text(self.env_file),
            env: env_view(self.env),
        }
    }
}

impl Clone for AppSpec {
    fn clone(&self) -> (r: Self)
        ensures
            r@ == self@,
    {
        AppSpec {
            name: self.name.clone(),
            cwd: self.cwd.clone(),
            command: clone_strings(&self.command),
            venv: self.venv.clone(),
            entry: self.entry.clone(),
            args: clone_strings(&self.args),
            autostart: self.autostart,
            restart: self.restart,
            stop_signal: self.stop_signal.clone(),
            kill_timeout_ms: self.kill_timeout_ms,
            restart_schedule: clone_opt(&self.restart_schedule),
            env_file: clone_opt(&self.env_file),
            env: clone_env(&self.env),
        }
    }
}

#[derive(Debug)]
pub struct WebConfig {
    pub enabled: bool,
    pub host: String,
    pub port: u16,
    pub password: Option<String>,
}

pub struct WebView {
    pub enabled: bool,
    pub host: Seq<char>,
    pub port: u16,
    pub password: Option<Seq<char>>,
}

impl View for WebConfig {
    type V = WebView;

    open spec fn view(&self) -> WebView {
        WebView {
            enabled: self.enabled,
            host: self.host@,
            port: self.port,
            password: opt_text(self.password),
        }
    }
}

impl Clone for WebConfig {
    fn clone(&self) -> (r: Self)
        ensures
            r@ == self@,
    {
        WebConfig {
            enabled: self.enabled,
            host: self.host.clone(),
            port: self.port,
            password: clone_opt(&self.password),
        }
    }
}

pub open spec fn default_web() -> WebView {
    WebView { enabled: false, host: "127.0.0.1"@, port: 17877, password: None }
}

impl Default for WebConfig {
    fn default() -> (r: Self)
        ensures
            r@ == default_web(),
    {
        WebConfig {
            enabled: false,
            host: default_web_host(),
            port: default_web_port(),
            password: None,
        }
    }
}

#[derive(Debug)]
pub struct AgentConfig {
    pub socket: String,
    pub state_dir: String,
    pub web: WebConfig,
}

pub struct AgentView {
    pub socket: Seq<char>,
    pub state_dir: Seq<char>,
    pub web: WebView,
}

impl View for AgentConfig {
    type V = AgentView;

    open spec fn view(&self) -> AgentView {
        AgentView { socket: self.socket@, state_dir: self.state_dir@, web: self.web@ }
    }
}

impl Clone for AgentConfig {
    fn clone(&self) -> (r: Self)
        ensures
            r@ == self@,
    {
        AgentConfig {
            socket: self.socket.clone(),
            state_dir: self.state_dir.clone(),
            web: self.web.clone(),
        }
    }
}

pub open spec fn default_agent() -> AgentView {
    AgentView { socket: "/run/pym2/pym2.sock"@, state_dir: "/var/lib/pym2"@, web: default_web() }
}

impl Default for AgentConfig {
    fn default() -> (r: Self)
        ensures
            r@ == default_agent(),
    {
        AgentConfig {
            socket: default_socket(),
            state_dir: default_state_dir(),
            web: WebConfig::default(),
        }
    }
}

pub struct ConfigFile {
    pub agent: AgentConfig,
    pub apps: Vec<AppSpec>,
}

pub struct ConfigView {
    pub agent: AgentView,
    pub apps: Seq<AppSpecView>,
}

/// The views of a sequence of app specifications.
pub open spec fn specs_view(v: Seq<AppSpec>) -> Seq<AppSpecView> {
    v.map_values(|a: AppSpec| a@)
}

impl View for ConfigFile {
    type V = ConfigView;

    open spec fn view(&self) -> ConfigView {
        ConfigView { agent: self.agent@, apps: specs_view(self.apps@) }
    }
}

/// The configuration of a client that has no configuration file.
pub open spec fn default_config() -> ConfigView {
    ConfigView { agent: default_agent(), apps: Seq::empty() }
}

pub fn default_socket() -> (r: String)
    ensures
        r@ == "/run/pym2/pym2.sock"@,
{
    "/run/pym2/pym2.sock".to_string()
}

pub fn default_state_dir() -> (r: String)
    ensures
        r@ == "/var/lib/pym2"@,
{
    "/var/lib/pym2".to_string()
}

pub fn default_web_host() -> (r: String)
    ensures
        r@ == "127.0.0.1"@,
{
    "127.0.0.1".to_string()
}

pub fn default_web_port() -> (r: u16)
    ensures
        r == 17877,
{
    17877
}

pub fn default_true() -> (r: bool)
    ensures
        r,
{
    true
}

pub fn default_stop_signal() -> (r: String)
    ensures
        r@ == "SIGTERM"@,
{
    "SIGTERM".to_string()
}

pub fn default_kill_timeout_ms() -> (r: u64)
    ensures
        r == 8_000,
{
    8_000
}

pub fn default_tail() -> (r: usize)
    ensures
        r == 200,
{
    200
}

pub fn default_follow_interval_ms() -> (r: u64)
    ensures
        r == 400,
{
    400
}

// ---- Runtime state ----

#[derive(Debug, Clone, Copy, PartialEq, Eq, Structural)]
pub enum AppStatus {
    Running,
    Stopped,
    Errored,
}

impl AppStatus {
    /// The name of the status.
    pub open spec fn label_text(self) -> Seq<char> {
        match self {
            AppStatus::Running => "Running"@,
            AppStatus::Stopped => "Stopped"@,
            AppStatus::Errored => "Errored"@,
        }
    }

    /// The name of the status.
    pub fn label(self) -> (r: &'static str)
        ensures
            r@ == self.label_text(),
    {
        match self {
            AppStatus::Running => "Running",
            AppStatus::Stopped => "Stopped",
            AppStatus::Errored => "Errored",
        }
    }
}

impl RestartPolicy {
    /// The name of the policy.
    pub open spec fn label_text(self) -> Seq<char> {
        match self {
            RestartPolicy::Never => "Never"@,
            RestartPolicy::OnFailure => "OnFailure"@,
            RestartPolicy::Always => "Always"@,
        }
    }

    /// The name of the policy.
    pub fn label(self) -> (r: &'static str)
        ensures
            r@ == self.label_text(),
    {
        match self {
            RestartPolicy::Never => "Never",
            RestartPolicy::OnFailure => "OnFailure",
            RestartPolicy::Always => "Always",
        }
    }
}

#[derive(Debug)]
pub struct AppRuntimeState {
    pub status: AppStatus,
    pub pid: Option<u32>,
    pub started_at: Option<u64>,
    pub restart_count: u32,
    pub last_exit_code: Option<i32>,
    pub last_exit_signal: Option<String>,
    pub last_error: Option<String>,
    pub last_reason: Option<String>,
    pub last_start_attempt_at: Option<u64>,
    pub backoff_until: Option<u64>,
    pub next_scheduled_restart_at: Option<u64>,
}

pub struct RuntimeView {
    pub status: AppStatus,
    pub pid: Option<u32>,
    pub started_at: Option<u64>,
    pub restart_count: u32,
    pub last_exit_code: Option<i32>,
    pub last_exit_signal: Option<Seq<char>>,
    pub last_error: Option<Seq<char>>,
    pub last_reason: Option<Seq<char>>,
    pub last_start_attempt_at: Option<u64>,
    pub backoff_until: Option<u64>,
    pub next_scheduled_restart_at: Option<u64>,
}

impl View for AppRuntimeState {
    type V = RuntimeView;

    open spec fn view(&self) -> RuntimeView {
        RuntimeView {
            status: self.status,
            pid: self.pid,
            started_at: self.started_at,
            restart_count: self.restart_count,
            last_exit_code: self.last_exit_code,
            last_exit_signal: opt_text(self.last_exit_signal),
            last_error: opt_text(self.last_error),
            last_reason: opt_text(self.last_reason),
            last_start_attempt_at: self.last_start_attempt_at,
            backoff_until: self.backoff_until,
            next_scheduled_restart_at: self.next_scheduled_restart_at,
        }
    }
}

impl Clone for AppRuntimeState {
    fn clone(&self) -> (r: Self)
        ensures
            r == *self,
    {
        AppRuntimeState {
            status: self.status,
            pid: self.pid,
            started_at: self.started_at,
            restart_count: self.restart_count,
            last_exit_code: self.last_exit_code,
            last_exit_signal: clone_opt(&self.last_exit_signal),
            last_error: clone_opt(&self.last_error),
            last_reason: clone_opt(&self.last_reason),
            last_start_attempt_at: self.last_start_attempt_at,
            backoff_until: self.backoff_until,
            next_scheduled_restart_at: self.next_scheduled_restart_at,
        }
    }
}

/// The state of an app that was never started.
pub open spec fn fresh_runtime() -> RuntimeView {
    RuntimeView {
        status: AppStatus::Stopped,
        pid: None,
        started_at: None,
        restart_count: 0,
        last_exit_code: None,
        last_exit_signal: None,
        last_error: None,
        last_reason: None,
        last_start_attempt_at: None,
        backoff_until: None,
        next_scheduled_restart_at: None,
    }
}

impl Default for AppRuntimeState {
    fn default() -> (r: Self)
        ensures
            r@ == fresh_runtime(),
    {
        AppRuntimeState {
            status: AppStatus::Stopped,
            pid: None,
            started_at: None,
            restart_count: 0,
            last_exit_code: None,
            last_exit_signal: None,
            last_error: None,
            last_reason: None,
            last_start_attempt_at: None,
            backoff_until: None,
            next_scheduled_restart_at: None,
        }
    }
}

fn same_opt(a: &Option<String>, b: &Option<String>) -> (r: bool)
    ensures
        r == (opt_text(*a) == opt_text(*b)),
{
    match (a, b) {
        (Some(x), Some(y)) => *x == *y,
        (None, None) => true,
        _ => false,
    }
}

impl AppRuntimeState {
    /// Whether the two states are equal in every field.
    pub fn same_as(&self, other: &AppRuntimeState) -> (r: bool)
        ensures
            r == (self@ == other@),
    {
        self.status == other.status && self.pid == other.pid && self.started_at
            == other.started_at && self.restart_count == other.restart_count
            && self.last_exit_code == other.last_exit_code && same_opt(
            &self.last_exit_signal,
            &other.last_exit_signal,
        ) && same_opt(&self.last_error, &other.last_error) && same_opt(
            &self.last_reason,
            &other.last_reason,
        ) && self.last_start_attempt_at == other.last_start_attempt_at && self.backoff_until
            == other.backoff_until && self.next_scheduled_restart_at
            == other.next_scheduled_restart_at
    }
}

// ---- Requests, replies and events ----

pub struct AppSummary {
    pub name: String,
    pub cwd: String,
    pub command: Vec<String>,
    pub entry: String,
    pub restart: RestartPolicy,
    pub runtime: AppRuntimeState,
}

pub struct SummaryView {
    pub name: Seq<char>,
    pub cwd: Seq<char>,
    pub command: Seq<Seq<char>>,
    pub entry: Seq<char>,
    pub restart: RestartPolicy,
    pub runtime: RuntimeView,
}

impl View for AppSummary {
    type V = SummaryView;

    open spec fn view(&self) -> SummaryView {
        SummaryView {
            name: self.name@,
            cwd: self.cwd@,
            command: texts(self.command@),
            entry: self.entry@,
            restart: self.restart,
            runtime: self.runtime@,
        }
    }
}

impl Clone for AppSummary {
    fn clone(&self) -> (r: Self)
        ensures
            r@ == self@,
    {
        AppSummary {
            name: self.name.clone(),
            cwd: self.cwd.clone(),
            command: clone_strings(&self.command),
            entry: self.entry.clone(),
            restart: self.restart,
            runtime: self.runtime.clone(),
        }
    }
}

/// The views of a sequence of summaries.
pub open spec fn summaries_view(v: Seq<AppSummary>) -> Seq<SummaryView> {
    v.map_values(|a: AppSummary| a@)
}

pub struct AppDetails {
    pub spec: AppSpec,
    pub runtime: AppRuntimeState,
}

pub struct DetailsView {
    pub spec: AppSpecView,
    pub runtime: RuntimeView,
}

impl View for AppDetails {
    type V = DetailsView;

    open spec fn view(&self) -> DetailsView {
        DetailsView { spec: self.spec@, runtime: self.runtime@ }
    }
}

#[derive(Debug, Clone, Copy, PartialEq, Eq, Structural)]
pub enum LogSource {
    Stdout,
    Stderr,
    Both,
}

impl LogSource {
    /// The name of the source.
    pub open spec fn label_text(self) -> Seq<char> {
        match self {
            LogSource::Stdout => "Stdout"@,
            LogSource::Stderr => "Stderr"@,
            LogSource::Both => "Both"@,
        }
    }

    /// The name of the source.
    pub fn label(self) -> (r: &'static str)
        ensures
            r@ == self.label_text(),
    {
        match self {
            LogSource::Stdout => "Stdout",
            LogSource::Stderr => "Stderr",
            LogSource::Both => "Both",
        }
    }
}

impl Default for LogSource {
    fn default() -> (r: Self)
        ensures
            r == LogSource::Both,
    {
        LogSource::Both
    }
}

#[derive(Debug)]
pub enum IpcRequest {
    Ping,
    Start { name: String },
    Stop { name: String },
    Restart { name: String },
    ListApps,
    GetApp { name: String },
    TailLogs { name: String, tail: usize, source: LogSource },
    StreamLogs { name: String, tail: usize, source: LogSource, follow_interval_ms: u64 },
    WatchEvents,
}

pub enum RequestView {
    Ping,
    Start(Seq<char>),
    Stop(Seq<char>),
    Restart(Seq<char>),
    ListApps,
    GetApp(Seq<char>),
    TailLogs(Seq<char>, usize, LogSource),
    StreamLogs(Seq<char>, usize, LogSource, u64),
    WatchEvents,
}

impl View for IpcRequest {
    type V = RequestView;

    open spec fn view(&self) -> RequestView {
        match self {
            IpcRequest::Ping => RequestView::Ping,
            IpcRequest::Start { name } => RequestView::Start(name@),
            IpcRequest::Stop { name } => RequestView::Stop(name@),
            IpcRequest::Restart { name } => RequestView::Restart(name@),
            IpcRequest::ListApps => RequestView::ListApps,
            IpcRequest::GetApp { name } => RequestView::GetApp(name@),
            IpcRequest::TailLogs { name, tail, source } => RequestView::TailLogs(
                name@,
                *tail,
                *source,
            ),
            IpcRequest::StreamLogs { name, tail, source, follow_interval_ms } => {
                RequestView::StreamLogs(name@, *tail, *source, *follow_interval_ms)
            },
            IpcRequest::WatchEvents => RequestView::WatchEvents,
        }
    }
}

/// What the agent says of itself: its version and its process id.
#[derive(Debug)]
pub struct PingData {
    pub version: String,
    pub agent_pid: u32,
}

pub struct PingView {
    pub version: Seq<char>,
    pub agent_pid: u32,
}

impl View for PingData {
    type V = PingView;

    open spec fn view(&self) -> PingView {
        PingView { version: self.version@, agent_pid: self.agent_pid }
    }
}

#[derive(Debug)]
pub struct StreamLogEvent {
    pub source: LogSource,
    pub line: String,
}

pub struct LogEventView {
    pub source: LogSource,
    pub line: Seq<char>,
}

impl View for StreamLogEvent {
    type V = LogEventView;

    open spec fn view(&self) -> LogEventView {
        LogEventView { source: self.source, line: self.line@ }
    }
}

/// The views of a sequence of log events.
pub open spec fn log_events_view(v: Seq<StreamLogEvent>) -> Seq<LogEventView> {
    v.map_values(|e: StreamLogEvent| e@)
}

#[derive(Debug, Clone, Copy, PartialEq, Eq, Structural)]
pub enum AgentEventKind {
    StateChanged,
    ProcessStarted,
    ProcessStopped,
    ProcessErrored,
}

#[derive(Debug)]
pub struct AgentEvent {
    pub ts: u64,
    pub kind: AgentEventKind,
    pub app: String,
    pub runtime: AppRuntimeState,
    pub message: Option<String>,
}

pub struct EventView {
    pub ts: u64,
    pub kind: AgentEventKind,
    pub app: Seq<char>,
    pub runtime: RuntimeView,
    pub message: Option<Seq<char>>,
}

impl View for AgentEvent {
    type V = EventView;

    open spec fn view(&self) -> EventView {
        EventView {
            ts: self.ts,
            kind: self.kind,
            app: self.app@,
            runtime: self.runtime@,
            message: opt_text(self.message),
        }
    }
}

impl Clone for AgentEvent {
    fn clone(&self) -> (r: Self)
        ensures
            r@ == self@,
    {
        AgentEvent {
            ts: self.ts,
            kind: self.kind,
            app: self.app.clone(),
            runtime: self.runtime.clone(),
            message: clone_opt(&self.message),
        }
    }
}

/// The views of a sequence of agent events.
pub open spec fn events_view(v: Seq<AgentEvent>) -> Seq<EventView> {
    v.map_values(|e: AgentEvent| e@)
}

/// What a successful reply carries.
pub enum ResponseData {
    Ping(PingData),
    Started(Vec<String>),
    Stopped(Vec<String>),
    Restarted(Vec<String>),
    Apps(Vec<AppSummary>),
    App(AppDetails),
    Lines(Vec<String>),
    Log(StreamLogEvent),
    Event(AgentEvent),
}

pub enum DataView {
    Ping(PingView),
    Started(Seq<Seq<char>>),
    Stopped(Seq<Seq<char>>),
    Restarted(Seq<Seq<char>>),
    Apps(Seq<SummaryView>),
    App(DetailsView),
    Lines(Seq<Seq<char>>),
    Log(LogEventView),
    Event(EventView),
}

impl View for ResponseData {
    type V = DataView;

    open spec fn view(&self) -> DataView {
        match self {
            ResponseData::Ping(p) => DataView::Ping(p@),
            ResponseData::Started(v) => DataView::Started(texts(v@)),
            ResponseData::Stopped(v) => DataView::Stopped(texts(v@)),
            ResponseData::Restarted(v) => DataView::Restarted(texts(v@)),
            ResponseData::Apps(v) => DataView::Apps(summaries_view(v@)),
            ResponseData::App(d) => DataView::App(d@),
            ResponseData::Lines(v) => DataView::Lines(texts(v@)),
            ResponseData::Log(e) => DataView::Log(e@),
            ResponseData::Event(e) => DataView::Event(e@),
        }
    }
}

pub struct IpcResponse {
    pub ok: bool,
    pub data: Option<ResponseData>,
    pub error: Option<String>,
}

pub struct ResponseView {
    pub ok: bool,
    pub data: Option<DataView>,
    pub error: Option<Seq<char>>,
}

impl View for IpcResponse {
    type V = ResponseView;

    open spec fn view(&self) -> ResponseView {
        ResponseView {
            ok: self.ok,
            data: match self.data {
                Some(d) => Some(d@),
                None => None,
            },
            error: opt_text(self.error),
        }
    }
}

/// The reply that a request was carried out.
pub open spec fn ok_reply(data: DataView) -> ResponseView {
    ResponseView { ok: true, data: Some(data), error: None }
}

/// The reply that a request failed.
pub open spec fn err_reply(msg: Seq<char>) -> ResponseView {
    ResponseView { ok: false, data: None, error: Some(msg) }
}

impl IpcResponse {
    pub fn ok(data: ResponseData) -> (r: Self)
        ensures
            r@ == ok_reply(data@),
    {
        IpcResponse { ok: true, data: Some(data), error: None }
    }

    pub fn err(msg: String) -> (r: Self)
        ensures
            r@ == err_reply(msg@),
    {
        IpcResponse { ok: false, data: None, error: Some(msg) }
    }
}

// ---- Commands ----

impl AppSpecView {
    /// The directory of the virtual environment.
    pub open spec fn venv_dir(self) -> Seq<char> {
        joined(self.cwd, self.venv)
    }

    /// Where the virtual environment would keep its `uvicorn`.
    pub open spec fn uvicorn(self) -> Seq<char> {
        joined(self.venv_dir(), "bin/uvicorn"@)
    }

    /// The command line of the app, given whether the virtual environment has
    /// a `uvicorn` of its own.
    pub open spec fn command_line(self, uvicorn_exists: bool) -> Seq<Seq<char>> {
        if self.command.len() > 0 {
            self.command
        } else if uvicorn_exists {
            seq![self.uvicorn(), self.entry] + self.args
        } else {
            seq![joined(self.venv_dir(), "bin/python"@), "-m"@, "uvicorn"@, self.entry] + self.args
        }
    }
}

/// Where the virtual environment of the app would keep its `uvicorn`.
pub fn uvicorn_path(spec: &AppSpec) -> (r: String)
    ensures
        r@ == spec@.uvicorn(),
{
    let venv = venv_path(spec);
    join_path(venv.as_str(), "bin/uvicorn")
}

/// The directory of the app's virtual environment.
pub fn venv_path(spec: &AppSpec) -> (r: String)
    ensures
        r@ == spec@.venv_dir(),
{
    join_path(spec.cwd.as_str(), spec.venv.as_str())
}

/// The command line of the app, given whether a file exists at its
/// `uvicorn_path`.
pub fn effective_command(spec: &AppSpec, uvicorn_exists: bool) -> (r: Vec<String>)
    ensures
        texts(r@) == spec@.command_line(uvicorn_exists),
{
    if !spec.command.is_empty() {
        return clone_strings(&spec.command);
    }
    let mut cmd: Vec<String> = Vec::new();
    if uvicorn_exists {
        cmd.push(uvicorn_path(spec));
        cmd.push(spec.entry.clone());
    } else {
        let venv = venv_path(spec);
        cmd.push(join_path(venv.as_str(), "bin/python"));
        cmd.push("-m".to_string());
        cmd.push("uvicorn".to_string());
        cmd.push(spec.entry.clone());
    }
    let mut args = clone_strings(&spec.args);
    cmd.append(&mut args);
    assert(texts(cmd@) =~= spec@.command_line(uvicorn_exists));
    cmd
}

/// An app with a command of its own is started with just that. Any other is
/// started with the `uvicorn` of its virtual environment, or else with the
/// `python` there and its `uvicorn` module; either way the entry point follows,
/// and behind it all configured arguments in their order, and nothing else.
pub proof fn law_command_lines(app: AppSpecView, uvicorn_exists: bool)
    ensures
        app.command.len() > 0 ==> app.command_line(uvicorn_exists) == app.command,
        app.command.len() == 0 ==> {
            let line = app.command_line(uvicorn_exists);
            let at = line.len() - app.args.len();
            &&& line.len() == app.args.len() + if uvicorn_exists {
                2int
            } else {
                4
            }
            &&& line.skip(at) == app.args
            &&& line[at - 1] == app.entry
            &&& uvicorn_exists ==> line[0] == joined(joined(app.cwd, app.venv), "bin/uvicorn"@)
            &&& !uvicorn_exists ==> line[0] == joined(joined(app.cwd, app.venv), "bin/python"@)
                && line[1] == "-m"@ && line[2] == "uvicorn"@
        },
        app.uvicorn() == joined(joined(app.cwd, app.venv), "bin/uvicorn"@),
{
    if app.command.len() == 0 {
        let line = app.command_line(uvicorn_exists);
        assert(line.skip(line.len() - app.args.len()) =~= app.args);
    }
}

/// What is not configured stands as documented: where the agent listens and keeps
/// its state, and a web interface that is off, and for this machine alone.
pub proof fn law_defaults()
    ensures
        default_config().apps.len() == 0,
        default_config().agent.socket == "/run/pym2/pym2.sock"@,
        default_config().agent.state_dir == "/var/lib/pym2"@,
        !default_config().agent.web.enabled,
        default_config().agent.web.host == "127.0.0.1"@,
        default_config().agent.web.port == 17877,
        default_config().agent.web.password is None,
        fresh_runtime().status == AppStatus::Stopped,
        fresh_runtime().pid is None && fresh_runtime().started_at is None,
        fresh_runtime().restart_count == 0,
        fresh_runtime().backoff_until is None,
        fresh_runtime().next_scheduled_restart_at is None,
{
}

/// A reply says whether the request was carried out: with data, or with an error.
pub proof fn law_replies(data: DataView, message: Seq<char>)
    ensures
        ok_reply(data).ok && ok_reply(data).data == Some(data) && ok_reply(data).error is None,
        !err_reply(message).ok && err_reply(message).data is None && err_reply(message).error
            == Some(message),
{
}

/// No two statuses, policies or logs are shown under one name.
pub proof fn law_labels_differ(a: AppStatus, b: AppStatus, p: RestartPolicy, q: RestartPolicy)
    ensures
        a.label_text() == b.label_text() ==> a == b,
        p.label_text() == q.label_text() ==> p == q,
        a == AppStatus::Running <==> a.label_text() == "Running"@,
        a == AppStatus::Errored <==> a.label_text() == "Errored"@,
{
    reveal_strlit("Running");
    reveal_strlit("Stopped");
    reveal_strlit("Errored");
    reveal_strlit("Never");
    reveal_strlit("OnFailure");
    reveal_strlit("Always");
    assert("Running"@[0] == 'R' && "Stopped"@[0] == 'S' && "Errored"@[0] == 'E');
    assert("Never"@[0] == 'N' && "OnFailure"@[0] == 'O' && "Always"@[0] == 'A');
}

} // verus!
