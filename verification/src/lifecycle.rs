//! How one app is started, stopped and looked after: step by step, each step
//! naming the next thing to do outside, and each taking what came of it.

use crate::error::{outcome, ErrorView, IoFailure, PyopsError};
use crate::launch::{app_env, build_app_env, build_command, env_file_path};
use crate::managed::{exit_reason, failed, restarts, ExitStatus, ManagedApp, ManagedView, Moment};
use crate::model::{env_view, uvicorn_path, AppStatus, RestartPolicy, RuntimeView};
use crate::names::NameMap;
use crate::paths::{log_files, stderr_log, stdout_log};
use crate::schedule::RestartSchedule;
use crate::signals::{
    alive, is_pid_alive, kill_signal_number, send_signal_to_group, sent, stop_signal,
    stop_signal_number, SignalAnswer, SignalAnswerView,
};
use crate::supervisor::Supervisor;
use crate::text::{cat2, cat4, texts};
use vstd::prelude::*;

verus! {

/// What a process is started with.
pub struct LaunchPlan {
    pub program: String,
    pub args: Vec<String>,
    pub cwd: String,
    pub env: NameMap<String>,
}

pub struct PlanView {
    pub line: Seq<Seq<char>>,
    pub cwd: Seq<char>,
    pub env: Seq<(Seq<char>, Seq<char>)>,
}

impl View for LaunchPlan {
    type V = PlanView;

    open spec fn view(&self) -> PlanView {
        PlanView {
            line: seq![self.program@] + texts(self.args@),
            cwd: self.cwd@,
            env: env_view(self.env),
        }
    }
}

/// Something to do outside.
pub enum Action {
    /// Send the null signal to the process.
    ProbePid(u32),
    /// Send the null signal to the process group.
    ProbeGroup(u32),
    /// See whether something exists at the path.
    ProbePath(String),
    /// Create the directory of the logs and open both for appending.
    OpenLogs { stdout: String, stderr: String },
    /// Read the file as text.
    ReadFile(String),
    /// Start the app's process in a session of its own, with its output going
    /// to the logs that were opened.
    Spawn { name: String, plan: LaunchPlan },
    /// Send the signal to the process group.
    Signal { pid: u32, signal: i32 },
    /// See whether the app's process has ended.
    PollChild(String),
    /// Wait that many milliseconds.
    Sleep(u64),
    /// Wait for the app's process to end.
    Reap(String),
    /// Find when the schedule is next due after that moment.
    NextOccurrence(RestartSchedule, u64),
    /// Write the runtime state to disk.
    Persist,
    /// Nothing: go on.
    Proceed,
    /// Nothing: the job is over, with this result.
    Finish(Result<Vec<String>, PyopsError>),
}

pub enum ActionView {
    ProbePid(u32),
    ProbeGroup(u32),
    ProbePath(Seq<char>),
    OpenLogs { stdout: Seq<char>, stderr: Seq<char> },
    ReadFile(Seq<char>),
    Spawn { name: Seq<char>, plan: PlanView },
    Signal { pid: u32, signal: i32 },
    PollChild(Seq<char>),
    Sleep(u64),
    Reap(Seq<char>),
    NextOccurrence(RestartSchedule, u64),
    Persist,
    Proceed,
    Finish(Result<Seq<Seq<char>>, ErrorView>),
}

/// The names in a result, or its error.
pub open spec fn names_result(r: Result<Vec<String>, PyopsError>) -> Result<
    Seq<Seq<char>>,
    ErrorView,
> {
    match r {
        Ok(v) => Ok(texts(v@)),
        Err(e) => Err(e@),
    }
}

impl View for Action {
    type V = ActionView;

    open spec fn view(&self) -> ActionView {
        match self {
            Action::ProbePid(pid) => ActionView::ProbePid(*pid),
            Action::ProbeGroup(pid) => ActionView::ProbeGroup(*pid),
            Action::ProbePath(path) => ActionView::ProbePath(path@),
            Action::OpenLogs { stdout, stderr } => ActionView::OpenLogs {
                stdout: stdout@,
                stderr: stderr@,
            },
            Action::ReadFile(path) => ActionView::ReadFile(path@),
            Action::Spawn { name, plan } => ActionView::Spawn { name: name@, plan: plan@ },
            Action::Signal { pid, signal } => ActionView::Signal { pid: *pid, signal: *signal },
            Action::PollChild(name) => ActionView::PollChild(name@),
            Action::Sleep(ms) => ActionView::Sleep(*ms),
            Action::Reap(name) => ActionView::Reap(name@),
            Action::NextOccurrence(schedule, now) => ActionView::NextOccurrence(*schedule, *now),
            Action::Persist => ActionView::Persist,
            Action::Proceed => ActionView::Proceed,
            Action::Finish(r) => ActionView::Finish(names_result(*r)),
        }
    }
}

/// What came of something done outside.
pub enum Reply {
    /// To `Proceed`.
    Proceed,
    /// To `ProbePid` or `ProbeGroup`: the return code and the error number.
    Pid { rc: i32, errno: Option<i32> },
    /// To `ProbePath`.
    Path(bool),
    /// To `OpenLogs`: both are open.
    Opened,
    /// To `ReadFile`: the text.
    Text(String),
    /// To `OpenLogs` or `ReadFile`: it failed.
    Failed(IoFailure),
    /// To `Spawn`: the process id.
    Spawned(u32),
    /// To `Spawn`: it failed, and how the failure is worded.
    NotSpawned(String),
    /// To `Signal`.
    Signalled(SignalAnswer),
    /// To `PollChild`: it still runs.
    ChildRunning,
    /// To `PollChild`: it ended.
    ChildExited(ExitStatus),
    /// To `PollChild`: it failed, and how the failure is worded.
    ChildLost(String),
    /// To `Sleep`.
    Slept,
    /// To `Reap`.
    Reaped,
    /// To `NextOccurrence`.
    Due(Option<u64>),
    /// To `Persist`: what went wrong, if anything did.
    Persisted(Option<PyopsError>),
}

pub enum ReplyView {
    Proceed,
    Pid { rc: i32, errno: Option<i32> },
    Path(bool),
    Opened,
    Text(Seq<char>),
    Failed(ErrorView),
    Spawned(u32),
    NotSpawned(Seq<char>),
    Signalled(SignalAnswerView),
    ChildRunning,
    ChildExited(ExitStatus),
    ChildLost(Seq<char>),
    Slept,
    Reaped,
    Due(Option<u64>),
    Persisted(Option<ErrorView>),
}

impl View for Reply {
    type V = ReplyView;

    open spec fn view(&self) -> ReplyView {
        match self {
            Reply::Proceed => ReplyView::Proceed,
            Reply::Pid { rc, errno } => ReplyView::Pid { rc: *rc, errno: *errno },
            Reply::Path(exists) => ReplyView::Path(*exists),
            Reply::Opened => ReplyView::Opened,
            Reply::Text(text) => ReplyView::Text(text@),
            Reply::Failed(f) => ReplyView::Failed(ErrorView::Io(f.kind, f.message@)),
            Reply::Spawned(pid) => ReplyView::Spawned(*pid),
            Reply::NotSpawned(m) => ReplyView::NotSpawned(m@),
            Reply::Signalled(a) => ReplyView::Signalled(a@),
            Reply::ChildRunning => ReplyView::ChildRunning,
            Reply::ChildExited(status) => ReplyView::ChildExited(*status),
            Reply::ChildLost(m) => ReplyView::ChildLost(m@),
            Reply::Slept => ReplyView::Slept,
            Reply::Reaped => ReplyView::Reaped,
            Reply::Due(at) => ReplyView::Due(*at),
            Reply::Persisted(None) => ReplyView::Persisted(None),
            Reply::Persisted(Some(e)) => ReplyView::Persisted(Some(e@)),
        }
    }
}

/// The error of a reply that answers something else than what was asked for.
pub open spec fn stray() -> ErrorView {
    ErrorView::Supervisor("the reply does not answer the pending action"@)
}

/// The error of a reply that answers something else than what was asked for.
pub fn stray_reply() -> (r: PyopsError)
    ensures
        r@ == stray(),
{
    PyopsError::Supervisor("the reply does not answer the pending action".to_string())
}

/// What follows a step: something to do outside, after which the work goes on
/// in the given phase, or its end.
pub enum Progress<P> {
    Ask(P, Action),
    Done(Result<(), PyopsError>),
}

pub enum ProgressView<P> {
    Ask(P, ActionView),
    Done(Result<(), ErrorView>),
}

impl<P> View for Progress<P> {
    type V = ProgressView<P>;

    open spec fn view(&self) -> ProgressView<P> {
        match self {
            Progress::Ask(phase, action) => ProgressView::Ask(*phase, action@),
            Progress::Done(r) => ProgressView::Done(outcome(*r)),
        }
    }
}

// ---- Starting ----

/// How far a start has come: what it waits for.
#[derive(Debug, Clone, Copy)]
pub enum StartPhase {
    Begin,
    PidProbed,
    UvicornProbed,
    LogsOpened { uvicorn: bool },
    EnvRead { uvicorn: bool },
    Spawned,
    NextFound,
}

impl ManagedView {
    /// What the app is started with.
    pub open spec fn plan(self, uvicorn: bool, file: Option<Seq<char>>) -> PlanView {
        PlanView {
            line: self.spec.command_line(uvicorn),
            cwd: self.spec.cwd,
            env: app_env(self.spec, file),
        }
    }

    /// A start was decided on: the command line comes first.
    pub open spec fn resolving(self, logs_dir: Seq<char>) -> ProgressView<StartPhase> {
        if self.spec.command.len() > 0 {
            self.opening(logs_dir, false)
        } else {
            ProgressView::Ask(
                StartPhase::UvicornProbed,
                ActionView::ProbePath(self.spec.uvicorn()),
            )
        }
    }

    /// The command line is known: the logs come next.
    pub open spec fn opening(self, logs_dir: Seq<char>, uvicorn: bool) -> ProgressView<StartPhase> {
        ProgressView::Ask(
            StartPhase::LogsOpened { uvicorn },
            ActionView::OpenLogs {
                stdout: stdout_log(logs_dir, self.spec.name),
                stderr: stderr_log(logs_dir, self.spec.name),
            },
        )
    }

    /// All is ready: the attempt is noted, which ends any wait for it.
    pub open spec fn attempted(self, now: Moment) -> ManagedView {
        ManagedView {
            state: RuntimeView {
                last_start_attempt_at: Some(now.epoch),
                backoff_until: None,
                ..self.state
            },
            ..self
        }
    }

    /// The process is to be spawned.
    pub open spec fn spawning(self, uvicorn: bool, file: Option<Seq<char>>) -> ProgressView<
        StartPhase,
    > {
        ProgressView::Ask(
            StartPhase::Spawned,
            ActionView::Spawn { name: self.spec.name, plan: self.plan(uvicorn, file) },
        )
    }

    /// Its process runs.
    pub open spec fn running(self, pid: u32, now: Moment) -> ManagedView {
        ManagedView {
            child: true,
            state: RuntimeView {
                status: AppStatus::Running,
                pid: Some(pid),
                started_at: Some(now.epoch),
                last_error: None,
                last_reason: Some("running"@),
                ..self.state
            },
            ..self
        }
    }

    /// No process could be started.
    pub open spec fn not_started(self, message: Seq<char>) -> ManagedView {
        ManagedView {
            state: RuntimeView {
                status: AppStatus::Errored,
                last_error: Some("spawn failed: "@ + message),
                last_reason: Some("spawn_failed"@),
                ..self.state
            },
            ..self
        }
    }

    /// Its next scheduled restart is at `at`.
    pub open spec fn aimed(self, at: Option<u64>) -> ManagedView {
        ManagedView { state: RuntimeView { next_scheduled_restart_at: at, ..self.state }, ..self }
    }

    /// One step of a start.
    #[verifier::opaque]
    pub open spec fn start_step(
        self,
        logs_dir: Seq<char>,
        phase: StartPhase,
        reply: ReplyView,
        now: Moment,
    ) -> (ManagedView, ProgressView<StartPhase>) {
        match (phase, reply) {
            (StartPhase::Begin, ReplyView::Proceed) => if self.child {
                (self, ProgressView::Done(Ok(())))
            } else if self.state.status == AppStatus::Running && self.state.pid is Some {
                (
                    self,
                    ProgressView::Ask(
                        StartPhase::PidProbed,
                        ActionView::ProbePid(self.state.pid->0),
                    ),
                )
            } else {
                (self, self.resolving(logs_dir))
            },
            (StartPhase::PidProbed, ReplyView::Pid { rc, errno }) => if alive(rc, errno) {
                (self, ProgressView::Done(Ok(())))
            } else {
                (self, self.resolving(logs_dir))
            },
            (StartPhase::UvicornProbed, ReplyView::Path(exists)) => (
                self,
                self.opening(logs_dir, exists),
            ),
            (StartPhase::LogsOpened { uvicorn }, ReplyView::Opened) => match self.spec.env_path() {
                Some(path) => (
                    self,
                    ProgressView::Ask(StartPhase::EnvRead { uvicorn }, ActionView::ReadFile(path)),
                ),
                None => (self.attempted(now), self.spawning(uvicorn, None)),
            },
            (StartPhase::LogsOpened { .. }, ReplyView::Failed(e)) => (
                self,
                ProgressView::Done(Err(e)),
            ),
            (StartPhase::EnvRead { uvicorn }, ReplyView::Text(text)) => (
                self.attempted(now),
                self.spawning(uvicorn, Some(text)),
            ),
            (StartPhase::EnvRead { .. }, ReplyView::Failed(e)) => (
                self,
                ProgressView::Done(Err(e)),
            ),
            (StartPhase::Spawned, ReplyView::Spawned(pid)) => (
                self.running(pid, now),
                match self.schedule {
                    Some(schedule) => ProgressView::Ask(
                        StartPhase::NextFound,
                        ActionView::NextOccurrence(schedule, now.epoch),
                    ),
                    None => ProgressView::Done(Ok(())),
                },
            ),
            (StartPhase::Spawned, ReplyView::NotSpawned(m)) => (
                self.not_started(m),
                ProgressView::Done(
                    Err(
                        ErrorView::Supervisor(
                            "failed to start '"@ + self.spec.name + "': "@ + m,
                        ),
                    ),
                ),
            ),
            (StartPhase::NextFound, ReplyView::Due(at)) => (
                match at {
                    Some(_) => self.aimed(at),
                    None => self,
                },
                ProgressView::Done(Ok(())),
            ),
            _ => (self, ProgressView::Done(Err(stray()))),
        }
    }
}

fn open_logs(app: &ManagedApp, logs_dir: &str, uvicorn: bool) -> (r: Progress<StartPhase>)
    ensures
        r@ == app@.opening(logs_dir@, uvicorn),
{
    let (stdout, stderr) = log_files(logs_dir, app.spec.name.as_str());
    Progress::Ask(StartPhase::LogsOpened { uvicorn }, Action::OpenLogs { stdout, stderr })
}

fn resolve(app: &ManagedApp, logs_dir: &str) -> (r: Progress<StartPhase>)
    ensures
        r@ == app@.resolving(logs_dir@),
{
    assert(app@.spec.command.len() == app.spec.command@.len());
    if app.spec.command.len() > 0 {
        open_logs(app, logs_dir, false)
    } else {
        Progress::Ask(StartPhase::UvicornProbed, Action::ProbePath(uvicorn_path(&app.spec)))
    }
}

fn spawn(app: &mut ManagedApp, uvicorn: bool, file: Option<&str>, now: Moment) -> (r: Progress<
    StartPhase,
>)
    ensures
        final(app)@ == old(app)@.attempted(now),
        r@ == old(app)@.spawning(uvicorn, crate::config::opt_str(file)),
{
    let env = build_app_env(&app.spec, file);
    let (program, args) = match build_command(&app.spec, uvicorn) {
        Ok(line) => line,
        Err(e) => return Progress::Done(Err(e)),
    };
    app.state.last_start_attempt_at = Some(now.epoch);
    app.state.backoff_until = None;
    Progress::Ask(
        StartPhase::Spawned,
        Action::Spawn {
            name: app.spec.name.clone(),
            plan: LaunchPlan { program, args, cwd: app.spec.cwd.clone(), env },
        },
    )
}

impl Supervisor {
    /// One step of the start of `app`.
    pub fn start_step(
        app: &mut ManagedApp,
        logs_dir: &str,
        phase: StartPhase,
        reply: Reply,
        now: Moment,
    ) -> (r: Progress<StartPhase>)
        ensures
            (final(app)@, r@) == old(app)@.start_step(logs_dir@, phase, reply@, now),
    {
        proof {
            reveal(ManagedView::start_step);
        }
        match (phase, reply) {
            (StartPhase::Begin, Reply::Proceed) => {
                if app.child {
                    return Progress::Done(Ok(()));
                }
                if app.state.status == AppStatus::Running {
                    if let Some(pid) = app.state.pid {
                        return Progress::Ask(StartPhase::PidProbed, Action::ProbePid(pid));
                    }
                }
                resolve(app, logs_dir)
            },
            (StartPhase::PidProbed, Reply::Pid { rc, errno }) => {
                if is_pid_alive(rc, errno) {
                    Progress::Done(Ok(()))
                } else {
                    resolve(app, logs_dir)
                }
            },
            (StartPhase::UvicornProbed, Reply::Path(exists)) => open_logs(app, logs_dir, exists),
            (StartPhase::LogsOpened { uvicorn }, Reply::Opened) => {
                match env_file_path(&app.spec) {
                    Some(path) => Progress::Ask(
                        StartPhase::EnvRead { uvicorn },
                        Action::ReadFile(path),
                    ),
                    None => spawn(app, uvicorn, None, now),
                }
            },
            (StartPhase::LogsOpened { .. }, Reply::Failed(f)) => Progress::Done(
                Err(PyopsError::Io(f)),
            ),
            (StartPhase::EnvRead { uvicorn }, Reply::Text(text)) => spawn(
                app,
                uvicorn,
                Some(text.as_str()),
                now,
            ),
            (StartPhase::EnvRead { .. }, Reply::Failed(f)) => Progress::Done(
                Err(PyopsError::Io(f)),
            ),
            (StartPhase::Spawned, Reply::Spawned(pid)) => {
                app.state.status = AppStatus::Running;
                app.state.pid = Some(pid);
                app.state.started_at = Some(now.epoch);
                app.state.last_error = None;
                app.state.last_reason = Some("running".to_string());
                app.child = true;
                match app.schedule {
                    Some(schedule) => Progress::Ask(
                        StartPhase::NextFound,
                        Action::NextOccurrence(schedule, now.epoch),
                    ),
                    None => Progress::Done(Ok(())),
                }
            },
            (StartPhase::Spawned, Reply::NotSpawned(m)) => {
                app.state.status = AppStatus::Errored;
                app.state.last_error = Some(cat2("spawn failed: ", m.as_str()));
                app.state.last_reason = Some("spawn_failed".to_string());
                Progress::Done(
                    Err(
                        PyopsError::Supervisor(
                            cat4("failed to start '", app.spec.name.as_str(), "': ", m.as_str()),
                        ),
                    ),
                )
            },
            (StartPhase::NextFound, Reply::Due(at)) => {
                if at.is_some() {
                    app.state.next_scheduled_restart_at = at;
                }
                Progress::Done(Ok(()))
            },
            _ => Progress::Done(Err(stray_reply())),
        }
    }
}

// ---- Stopping ----

/// How far a stop has come: what it waits for. `since` is the reading at which
/// the stop signal had been sent.
#[derive(Debug, Clone, Copy)]
pub enum StopPhase {
    Begin,
    Signalled { pid: u32 },
    Polled { pid: u32, since: u64 },
    GroupProbed { pid: u32, since: u64 },
    Slept { pid: u32, since: u64 },
    Killed { pid: u32 },
    Reaped,
    NextFound,
}

/// The nanoseconds from `since` to `now`.
pub open spec fn elapsed(since: u64, now: u64) -> int {
    if now >= since {
        now - since
    } else {
        0
    }
}

impl ManagedView {
    /// Whether the app had all the time it is given to end by itself.
    pub open spec fn out_of_time(self, since: u64, now: u64) -> bool {
        elapsed(since, now) >= self.spec.kill_timeout_ms * 1_000_000
    }

    /// It counts as stopped by hand.
    pub open spec fn marked_stopped(self) -> ManagedView {
        ManagedView {
            state: RuntimeView {
                status: AppStatus::Stopped,
                last_reason: Some("manual_stop"@),
                ..self.state
            },
            ..self
        }
    }

    /// Its process ended in time.
    pub open spec fn stopped_by_exit(self, status: ExitStatus, now_epoch: u64) -> ManagedView {
        ManagedView { consecutive: 0, ..self.exited(status, now_epoch).marked_stopped() }
    }

    /// Its process is gone.
    pub open spec fn stopped(self) -> ManagedView {
        ManagedView {
            child: false,
            consecutive: 0,
            state: RuntimeView {
                pid: None,
                started_at: None,
                backoff_until: None,
                ..self.marked_stopped().state
            },
            ..self
        }
    }

    /// The stop signal was sent: a child is waited for, and of a process that is
    /// not a child it is asked whether its group is still there.
    pub open spec fn awaiting(self, pid: u32, since: u64) -> ProgressView<StopPhase> {
        if self.child {
            ProgressView::Ask(
                StopPhase::Polled { pid, since },
                ActionView::PollChild(self.spec.name),
            )
        } else {
            ProgressView::Ask(StopPhase::GroupProbed { pid, since }, ActionView::ProbeGroup(pid))
        }
    }

    /// It is still alive: it is given more time, or killed.
    pub open spec fn pressing(self, pid: u32, since: u64, now: Moment) -> ProgressView<StopPhase> {
        if self.out_of_time(since, now.mono) {
            ProgressView::Ask(StopPhase::Killed { pid }, ActionView::Signal { pid, signal: 9 })
        } else {
            ProgressView::Ask(StopPhase::Slept { pid, since }, ActionView::Sleep(50))
        }
    }

    /// The process is gone: the next scheduled restart is to be found.
    pub open spec fn aiming(self, now: Moment) -> ProgressView<StopPhase> {
        match self.schedule {
            Some(schedule) => ProgressView::Ask(
                StopPhase::NextFound,
                ActionView::NextOccurrence(schedule, now.epoch),
            ),
            None => ProgressView::Done(Ok(())),
        }
    }

    /// One step of a stop.
    #[verifier::opaque]
    pub open spec fn stop_step(self, phase: StopPhase, reply: ReplyView, now: Moment) -> (
        ManagedView,
        ProgressView<StopPhase>,
    ) {
        match (phase, reply) {
            (StopPhase::Begin, ReplyView::Proceed) => match self.state.pid {
                None => (self.marked_stopped(), ProgressView::Done(Ok(()))),
                Some(pid) => (
                    self,
                    ProgressView::Ask(
                        StopPhase::Signalled { pid },
                        ActionView::Signal { pid, signal: stop_signal(self.spec.stop_signal) },
                    ),
                ),
            },
            (StopPhase::Signalled { pid }, ReplyView::Signalled(answer)) => match sent(
                answer,
                pid,
                stop_signal(self.spec.stop_signal),
            ) {
                Err(e) => (self, ProgressView::Done(Err(e))),
                Ok(()) => (self, self.awaiting(pid, now.mono)),
            },
            (StopPhase::Polled { .. }, ReplyView::ChildExited(status)) => (
                self.stopped_by_exit(status, now.epoch),
                ProgressView::Done(Ok(())),
            ),
            (StopPhase::Polled { .. }, ReplyView::ChildLost(m)) => (
                self,
                ProgressView::Done(
                    Err(
                        ErrorView::Supervisor(
                            "failed waiting for '"@ + self.spec.name + "': "@ + m,
                        ),
                    ),
                ),
            ),
            (StopPhase::Polled { pid, since }, ReplyView::ChildRunning) => (
                self,
                self.pressing(pid, since, now),
            ),
            (StopPhase::GroupProbed { pid, since }, ReplyView::Pid { rc, errno }) => if alive(
                rc,
                errno,
            ) {
                (self, self.pressing(pid, since, now))
            } else {
                (self.stopped(), self.aiming(now))
            },
            (StopPhase::Slept { pid, since }, ReplyView::Slept) => (
                self,
                self.awaiting(pid, since),
            ),
            (StopPhase::Killed { pid }, ReplyView::Signalled(answer)) => match sent(
                answer,
                pid,
                9,
            ) {
                Err(e) => (self, ProgressView::Done(Err(e))),
                Ok(()) => if self.child {
                    (
                        self,
                        ProgressView::Ask(StopPhase::Reaped, ActionView::Reap(self.spec.name)),
                    )
                } else {
                    (self.stopped(), self.aiming(now))
                },
            },
            (StopPhase::Reaped, ReplyView::Reaped) => (self.stopped(), self.aiming(now)),
            (StopPhase::NextFound, ReplyView::Due(at)) => (
                self.aimed(at),
                ProgressView::Done(Ok(())),
            ),
            _ => (self, ProgressView::Done(Err(stray()))),
        }
    }
}

fn mark_stopped(app: &mut ManagedApp)
    ensures
        final(app)@ == old(app)@.marked_stopped(),
{
    app.state.status = AppStatus::Stopped;
    app.state.last_reason = Some("manual_stop".to_string());
}

fn await_end(app: &ManagedApp, pid: u32, since: u64) -> (r: Progress<StopPhase>)
    ensures
        r@ == app@.awaiting(pid, since),
{
    if app.child {
        Progress::Ask(
            StopPhase::Polled { pid, since },
            Action::PollChild(app.spec.name.clone()),
        )
    } else {
        Progress::Ask(StopPhase::GroupProbed { pid, since }, Action::ProbeGroup(pid))
    }
}

fn press(app: &ManagedApp, pid: u32, since: u64, now: Moment) -> (r: Progress<StopPhase>)
    ensures
        r@ == app@.pressing(pid, since, now),
{
    let waited: u128 = now.mono.saturating_sub(since) as u128;
    if waited >= app.spec.kill_timeout_ms as u128 * 1_000_000 {
        let signal = kill_signal_number();
        Progress::Ask(StopPhase::Killed { pid }, Action::Signal { pid, signal })
    } else {
        Progress::Ask(StopPhase::Slept { pid, since }, Action::Sleep(50))
    }
}

fn finish_stop(app: &mut ManagedApp, now: Moment) -> (r: Progress<StopPhase>)
    ensures
        final(app)@ == old(app)@.stopped(),
        r@ == old(app)@.aiming(now),
{
    mark_stopped(app);
    app.child = false;
    app.state.pid = None;
    app.state.started_at = None;
    app.state.backoff_until = None;
    app.consecutive_restarts = 0;
    match app.schedule {
        Some(schedule) => Progress::Ask(
            StopPhase::NextFound,
            Action::NextOccurrence(schedule, now.epoch),
        ),
        None => Progress::Done(Ok(())),
    }
}

impl Supervisor {
    /// One step of the stop of `app`.
    pub fn stop_step(app: &mut ManagedApp, phase: StopPhase, reply: Reply, now: Moment) -> (r:
        Progress<StopPhase>)
        ensures
            (final(app)@, r@) == old(app)@.stop_step(phase, reply@, now),
    {
        proof {
            reveal(ManagedView::stop_step);
        }
        match (phase, reply) {
            (StopPhase::Begin, Reply::Proceed) => {
                match app.state.pid {
                    None => {
                        mark_stopped(app);
                        Progress::Done(Ok(()))
                    },
                    Some(pid) => {
                        let signal = stop_signal_number(app.spec.stop_signal.as_str());
                        Progress::Ask(StopPhase::Signalled { pid }, Action::Signal { pid, signal })
                    },
                }
            },
            (StopPhase::Signalled { pid }, Reply::Signalled(answer)) => {
                let signal = stop_signal_number(app.spec.stop_signal.as_str());
                match send_signal_to_group(&answer, pid, signal) {
                    Err(e) => Progress::Done(Err(e)),
                    Ok(()) => await_end(app, pid, now.mono),
                }
            },
            (StopPhase::Polled { .. }, Reply::ChildExited(status)) => {
                Self::record_exit(app, status, now.epoch);
                mark_stopped(app);
                app.consecutive_restarts = 0;
                Progress::Done(Ok(()))
            },
            (StopPhase::Polled { .. }, Reply::ChildLost(m)) => Progress::Done(
                Err(
                    PyopsError::Supervisor(
                        cat4("failed waiting for '", app.spec.name.as_str(), "': ", m.as_str()),
                    ),
                ),
            ),
            (StopPhase::Polled { pid, since }, Reply::ChildRunning) => press(app, pid, since, now),
            (StopPhase::GroupProbed { pid, since }, Reply::Pid { rc, errno }) => {
                if is_pid_alive(rc, errno) {
                    press(app, pid, since, now)
                } else {
                    finish_stop(app, now)
                }
            },
            (StopPhase::Slept { pid, since }, Reply::Slept) => await_end(app, pid, since),
            (StopPhase::Killed { pid }, Reply::Signalled(answer)) => {
                match send_signal_to_group(&answer, pid, kill_signal_number()) {
                    Err(e) => Progress::Done(Err(e)),
                    Ok(()) => {
                        if app.child {
                            Progress::Ask(StopPhase::Reaped, Action::Reap(app.spec.name.clone()))
                        } else {
                            finish_stop(app, now)
                        }
                    },
                }
            },
            (StopPhase::Reaped, Reply::Reaped) => finish_stop(app, now),
            (StopPhase::NextFound, Reply::Due(at)) => {
                app.state.next_scheduled_restart_at = at;
                Progress::Done(Ok(()))
            },
            _ => Progress::Done(Err(stray_reply())),
        }
    }
}

// ---- Looking after ----

/// How far a look at an app has come: what it waits for. `changed` says whether
/// something was found to have changed.
#[derive(Debug, Clone, Copy)]
pub enum LookPhase {
    Begin,
    Polled,
    PidProbed { changed: bool },
}

/// What a look at an app found: whether something changed, whether a restart
/// that was put off is due, whether a scheduled restart is due, and whether the
/// app is in a state to be restarted on schedule.
#[derive(Debug, Clone, Copy)]
pub struct Verdict {
    pub changed: bool,
    pub revive: bool,
    pub due: bool,
    pub allowed: bool,
}

/// What follows a step of a look.
pub enum Look {
    Ask(LookPhase, Action),
    Done(Verdict),
}

pub enum LookView {
    Ask(LookPhase, ActionView),
    Done(Verdict),
}

impl View for Look {
    type V = LookView;

    open spec fn view(&self) -> LookView {
        match self {
            Look::Ask(phase, action) => LookView::Ask(*phase, action@),
            Look::Done(v) => LookView::Done(*v),
        }
    }
}

/// Whether the moment `at`, where there is one, has come at `now`.
pub open spec fn reached(at: Option<u64>, now: u64) -> bool {
    match at {
        Some(t) => now >= t,
        None => false,
    }
}

impl ManagedView {
    /// Its process ended by itself: it is to be started again after a while, or
    /// stays stopped.
    pub open spec fn ended(self, status: ExitStatus, tick: Moment, now: Moment) -> ManagedView {
        let e = self.exited(status, tick.epoch);
        if restarts(self.spec.restart, failed(status)) {
            e.restart_asked(Moment { epoch: now.epoch, mono: tick.mono })
        } else {
            ManagedView { state: RuntimeView { status: AppStatus::Stopped, ..e.state }, ..e }
        }
    }

    /// Whether its process runs can no longer be told.
    pub open spec fn lost(self, message: Seq<char>) -> ManagedView {
        ManagedView {
            child: false,
            state: RuntimeView {
                status: AppStatus::Errored,
                last_error: Some("try_wait failed: "@ + message),
                last_reason: Some("try_wait_failed"@),
                pid: None,
                ..self.state
            },
            ..self
        }
    }

    /// Its process, which was not a child, is gone.
    pub open spec fn vanished(self) -> ManagedView {
        ManagedView {
            state: RuntimeView {
                status: AppStatus::Stopped,
                pid: None,
                started_at: None,
                last_reason: Some("pid_not_alive"@),
                ..self.state
            },
            ..self
        }
    }

    /// What was found.
    pub open spec fn verdict(self, changed: bool, tick: Moment, now: Moment) -> Verdict {
        let due = reached(self.state.next_scheduled_restart_at, tick.epoch);
        Verdict {
            changed,
            revive: !self.child && reached(self.state.backoff_until, now.epoch),
            due,
            allowed: due && self.state.status == AppStatus::Running,
        }
    }

    /// The child was looked at: a process that is not a child comes next.
    pub open spec fn probing(self, changed: bool, tick: Moment, now: Moment) -> LookView {
        if !self.child && self.state.status == AppStatus::Running && self.state.pid is Some {
            LookView::Ask(
                LookPhase::PidProbed { changed },
                ActionView::ProbePid(self.state.pid->0),
            )
        } else {
            LookView::Done(self.verdict(changed, tick, now))
        }
    }

    /// One step of a look, in a round that began at `tick`. A reply that
    /// answers something else counts as nothing found.
    #[verifier::opaque]
    pub open spec fn look_step(
        self,
        phase: LookPhase,
        reply: ReplyView,
        tick: Moment,
        now: Moment,
    ) -> (ManagedView, LookView) {
        match (phase, reply) {
            (LookPhase::Begin, ReplyView::Proceed) => if self.child {
                (
                    self,
                    LookView::Ask(LookPhase::Polled, ActionView::PollChild(self.spec.name)),
                )
            } else {
                (self, self.probing(false, tick, now))
            },
            (LookPhase::Polled, ReplyView::ChildExited(status)) => {
                let e = self.ended(status, tick, now);
                (e, e.probing(true, tick, now))
            },
            (LookPhase::Polled, ReplyView::ChildLost(m)) => {
                let e = self.lost(m);
                (e, e.probing(true, tick, now))
            },
            (LookPhase::Polled, ReplyView::ChildRunning) => (self, self.probing(false, tick, now)),
            (LookPhase::PidProbed { changed }, ReplyView::Pid { rc, errno }) => if alive(
                rc,
                errno,
            ) {
                (self, LookView::Done(self.verdict(changed, tick, now)))
            } else {
                let e = self.vanished();
                (e, LookView::Done(e.verdict(true, tick, now)))
            },
            _ => (
                self,
                LookView::Done(
                    Verdict { changed: false, revive: false, due: false, allowed: false },
                ),
            ),
        }
    }
}

fn is_reached(at: Option<u64>, now: u64) -> (r: bool)
    ensures
        r == reached(at, now),
{
    match at {
        Some(t) => now >= t,
        None => false,
    }
}

fn judge(app: &ManagedApp, changed: bool, tick: Moment, now: Moment) -> (r: Verdict)
    ensures
        r == app@.verdict(changed, tick, now),
{
    let due = is_reached(app.state.next_scheduled_restart_at, tick.epoch);
    Verdict {
        changed,
        revive: !app.child && is_reached(app.state.backoff_until, now.epoch),
        due,
        allowed: due && app.state.status == AppStatus::Running,
    }
}

fn probe(app: &ManagedApp, changed: bool, tick: Moment, now: Moment) -> (r: Look)
    ensures
        r@ == app@.probing(changed, tick, now),
{
    if !app.child && app.state.status == AppStatus::Running {
        if let Some(pid) = app.state.pid {
            return Look::Ask(LookPhase::PidProbed { changed }, Action::ProbePid(pid));
        }
    }
    Look::Done(judge(app, changed, tick, now))
}

impl Supervisor {
    /// One step of a look at `app`, in a round that began at `tick`.
    pub fn look_step(
        app: &mut ManagedApp,
        phase: LookPhase,
        reply: Reply,
        tick: Moment,
        now: Moment,
    ) -> (r: Look)
        ensures
            (final(app)@, r@) == old(app)@.look_step(phase, reply@, tick, now),
    {
        proof {
            reveal(ManagedView::look_step);
        }
        match (phase, reply) {
            (LookPhase::Begin, Reply::Proceed) => {
                if app.child {
                    Look::Ask(LookPhase::Polled, Action::PollChild(app.spec.name.clone()))
                } else {
                    probe(app, false, tick, now)
                }
            },
            (LookPhase::Polled, Reply::ChildExited(status)) => {
                let policy = app.spec.restart;
                Self::record_exit(app, status, tick.epoch);
                if Self::should_restart(policy, Self::is_failure(status)) {
                    Self::schedule_restart(app, Moment { epoch: now.epoch, mono: tick.mono });
                } else {
                    app.state.status = AppStatus::Stopped;
                }
                probe(app, true, tick, now)
            },
            (LookPhase::Polled, Reply::ChildLost(m)) => {
                app.state.status = AppStatus::Errored;
                app.state.last_error = Some(cat2("try_wait failed: ", m.as_str()));
                app.state.last_reason = Some("try_wait_failed".to_string());
                app.child = false;
                app.state.pid = None;
                probe(app, true, tick, now)
            },
            (LookPhase::Polled, Reply::ChildRunning) => probe(app, false, tick, now),
            (LookPhase::PidProbed { changed }, Reply::Pid { rc, errno }) => {
                if is_pid_alive(rc, errno) {
                    Look::Done(judge(app, changed, tick, now))
                } else {
                    app.state.status = AppStatus::Stopped;
                    app.state.pid = None;
                    app.state.started_at = None;
                    app.state.last_reason = Some("pid_not_alive".to_string());
                    Look::Done(judge(app, true, tick, now))
                }
            },
            _ => Look::Done(
                Verdict { changed: false, revive: false, due: false, allowed: false },
            ),
        }
    }
}

// ---- Laws ----

impl StartPhase {
    /// Whether a start can be in this phase while `app` is so: on the way to a
    /// new process there is no child.
    pub open spec fn fits(self, app: ManagedView) -> bool {
        match self {
            StartPhase::Begin => true,
            StartPhase::PidProbed => !app.child && app.state.status == AppStatus::Running
                && app.state.pid is Some,
            StartPhase::Spawned => !app.child && app.state.backoff_until is None,
            StartPhase::NextFound => app.child,
            _ => !app.child,
        }
    }
}

impl StopPhase {
    /// Whether a stop can be in this phase while `app` is so: what it waits for
    /// is the end of a child, or of a process group that is not a child's, and
    /// once that came the app is stopped.
    pub open spec fn fits(self, app: ManagedView) -> bool {
        match self {
            StopPhase::Begin => true,
            StopPhase::Signalled { pid } => app.state.pid == Some(pid),
            StopPhase::Polled { pid, .. } => app.child && app.state.pid == Some(pid),
            StopPhase::GroupProbed { pid, .. } => !app.child && app.state.pid == Some(pid),
            StopPhase::Slept { pid, .. } => app.state.pid == Some(pid),
            StopPhase::Killed { pid } => app.state.pid == Some(pid),
            StopPhase::Reaped => app.child,
            StopPhase::NextFound => app.is_stopped() && app.state.backoff_until is None,
        }
    }
}

impl LookPhase {
    /// Whether a look can be in this phase while `app` is so.
    pub open spec fn fits(self, app: ManagedView) -> bool {
        match self {
            LookPhase::Begin => true,
            LookPhase::Polled => app.child,
            LookPhase::PidProbed { .. } => !app.child,
        }
    }
}

impl ManagedView {
    /// Whether the app was stopped by hand and has no process.
    pub open spec fn is_stopped(self) -> bool {
        &&& self.state.status == AppStatus::Stopped
        &&& self.state.last_reason == Some("manual_stop"@)
        &&& self.state.pid is None
        &&& !self.child
    }

    /// Whether the app runs, as far as is known.
    pub open spec fn is_running(self) -> bool {
        self.state.status == AppStatus::Running && self.state.pid is Some
    }

    /// Whether `after` is the same app, with what is remembered of it in
    /// agreement.
    pub open spec fn still(self, after: ManagedView) -> bool {
        after.wf() && after.spec == self.spec && after.schedule == self.schedule
    }
}

/// A step of a start keeps the app's configuration and keeps what is remembered
/// of it in agreement, and the phase that follows fits the app.
pub proof fn law_start_keeps_well_formed(
    app: ManagedView,
    logs_dir: Seq<char>,
    phase: StartPhase,
    reply: ReplyView,
    now: Moment,
)
    requires
        app.wf(),
        phase.fits(app),
    ensures
        app.still(app.start_step(logs_dir, phase, reply, now).0),
        app.start_step(logs_dir, phase, reply, now).1 matches ProgressView::Ask(next, _)
            ==> next.fits(app.start_step(logs_dir, phase, reply, now).0),
{
    reveal(ManagedView::start_step);
}

/// A step of a stop keeps the app's configuration and keeps what is remembered
/// of it in agreement, and the phase that follows fits the app.
pub proof fn law_stop_keeps_well_formed(
    app: ManagedView,
    phase: StopPhase,
    reply: ReplyView,
    now: Moment,
)
    requires
        app.wf(),
        phase.fits(app),
    ensures
        app.still(app.stop_step(phase, reply, now).0),
        app.stop_step(phase, reply, now).1 matches ProgressView::Ask(next, _) ==> next.fits(
            app.stop_step(phase, reply, now).0,
        ),
{
    reveal(ManagedView::stop_step);
}

/// A step of a look keeps the app's configuration and keeps what is remembered
/// of it in agreement, and the phase that follows fits the app.
pub proof fn law_look_keeps_well_formed(
    app: ManagedView,
    phase: LookPhase,
    reply: ReplyView,
    tick: Moment,
    now: Moment,
)
    requires
        app.wf(),
        phase.fits(app),
    ensures
        app.still(app.look_step(phase, reply, tick, now).0),
        app.look_step(phase, reply, tick, now).1 matches LookView::Ask(next, _) ==> next.fits(
            app.look_step(phase, reply, tick, now).0,
        ),
{
    reveal(ManagedView::look_step);
}

impl ManagedView {
    /// Whether a stop in that phase, with that reply to what it asked for, found
    /// the app still alive; since when it was waited for.
    pub open spec fn outlasts(self, phase: StopPhase, reply: ReplyView) -> Option<(u32, u64)> {
        match (phase, reply) {
            (StopPhase::Polled { pid, since }, ReplyView::ChildRunning) => Some((pid, since)),
            (StopPhase::GroupProbed { pid, since }, ReplyView::Pid { rc, errno }) => if alive(
                rc,
                errno,
            ) {
                Some((pid, since))
            } else {
                None
            },
            _ => None,
        }
    }

    /// Whether a stop in that phase, with that reply to what it asked for, is
    /// done with the process: the child was seen to have ended or was reaped, the
    /// group was seen to be gone, or was sent `SIGKILL`.
    pub open spec fn sees_end(self, phase: StopPhase, reply: ReplyView) -> bool {
        match (phase, reply) {
            (StopPhase::Polled { .. }, ReplyView::ChildExited(_)) => true,
            (StopPhase::GroupProbed { .. }, ReplyView::Pid { rc, errno }) => !alive(rc, errno),
            (StopPhase::Killed { pid }, ReplyView::Signalled(answer)) => !self.child && sent(
                answer,
                pid,
                9,
            ) is Ok,
            (StopPhase::Reaped, ReplyView::Reaped) => true,
            _ => false,
        }
    }

    /// Whether a stop that goes on in that phase comes to a good end with these
    /// replies, each at its moment.
    pub open spec fn stops_with(self, phase: StopPhase, replies: Seq<(ReplyView, Moment)>) -> bool
        decreases replies.len(),
    {
        if replies.len() == 0 {
            false
        } else {
            let (after, progress) = self.stop_step(phase, replies[0].0, replies[0].1);
            match progress {
                ProgressView::Ask(next, _) => after.stops_with(next, replies.skip(1)),
                ProgressView::Done(r) => r is Ok && replies.len() == 1,
            }
        }
    }

    /// Whether a stop that goes on in that phase, with these replies, is at some
    /// step done with the process.
    pub open spec fn ends_process(self, phase: StopPhase, replies: Seq<(ReplyView, Moment)>) -> bool
        decreases replies.len(),
    {
        if replies.len() == 0 {
            false
        } else {
            let (after, progress) = self.stop_step(phase, replies[0].0, replies[0].1);
            self.sees_end(phase, replies[0].0) || match progress {
                ProgressView::Ask(next, _) => after.ends_process(next, replies.skip(1)),
                ProgressView::Done(_) => false,
            }
        }
    }
}

/// Where a step of a stop sends a signal, it is the app's own stop signal at the
/// beginning, and `SIGKILL` only after the app was given its time to end.
pub proof fn law_kill_only_after_timeout(
    app: ManagedView,
    phase: StopPhase,
    reply: ReplyView,
    now: Moment,
)
    ensures
        app.stop_step(phase, reply, now).1 matches ProgressView::Ask(
            _,
            ActionView::Signal { pid, signal },
        ) ==> {
            ||| phase is Begin && app.state.pid == Some(pid) && signal == stop_signal(
                app.spec.stop_signal,
            )
            ||| app.outlasts(phase, reply) matches Some((p, since)) && p == pid && signal == 9 && (
            app.spec.kill_timeout_ms == 0 || now.mono - since >= app.spec.kill_timeout_ms
                * 1_000_000)
        },
{
    reveal(ManagedView::stop_step);
}

/// Once the stop signal was sent, the app is waited for from that moment on,
/// whether its process is a child or not. An app that is still alive is asked
/// after again, until its time is over; its process group is then sent `SIGKILL`.
pub proof fn law_stops_are_enforced(
    app: ManagedView,
    phase: StopPhase,
    reply: ReplyView,
    now: Moment,
)
    ensures
        phase matches StopPhase::Signalled { pid } ==> (reply matches ReplyView::Signalled(answer)
            ==> (answer.rc != -1 || answer.errno == Some(3i32) ==> app.stop_step(phase, reply, now)
            == (app, app.awaiting(pid, now.mono)))),
        phase matches StopPhase::Signalled { pid } ==> (reply matches ReplyView::Signalled(answer)
            ==> (answer.rc == -1 && answer.errno != Some(3i32) ==> (app.stop_step(
            phase,
            reply,
            now,
        ).1 matches ProgressView::Done(Err(_))) && app.stop_step(phase, reply, now).0 == app)),
        forall|pid: u32, since: u64|
            #![trigger app.awaiting(pid, since)]
            {
                &&& app.child ==> app.awaiting(pid, since) == ProgressView::Ask(
                    StopPhase::Polled { pid, since },
                    ActionView::PollChild(app.spec.name),
                )
                &&& !app.child ==> app.awaiting(pid, since) == ProgressView::Ask(
                    StopPhase::GroupProbed { pid, since },
                    ActionView::ProbeGroup(pid),
                )
            },
        phase is Begin && reply is Proceed ==> (app.state.pid matches Some(pid) ==> app.stop_step(
            phase,
            reply,
            now,
        ) == (
            app,
            ProgressView::Ask(
                StopPhase::Signalled { pid },
                ActionView::Signal { pid, signal: stop_signal(app.spec.stop_signal) },
            ),
        )),
        app.outlasts(phase, reply) matches Some((pid, since)) ==> app.stop_step(phase, reply, now)
            == (
            app,
            if app.spec.kill_timeout_ms == 0 || now.mono - since >= app.spec.kill_timeout_ms
                * 1_000_000 {
                ProgressView::Ask(StopPhase::Killed { pid }, ActionView::Signal { pid, signal: 9 })
            } else {
                ProgressView::Ask(StopPhase::Slept { pid, since }, ActionView::Sleep(50))
            },
        ),
        phase matches StopPhase::Slept { pid, since } ==> (reply is Slept ==> app.stop_step(
            phase,
            reply,
            now,
        ) == (app, app.awaiting(pid, since))),
        phase is Killed && app.child ==> (reply matches ReplyView::Signalled(answer) ==> (answer.rc
            != -1 || answer.errno == Some(3i32) ==> app.stop_step(phase, reply, now) == (
            app,
            ProgressView::Ask(StopPhase::Reaped, ActionView::Reap(app.spec.name)),
        ))),
        phase is Killed ==> (reply matches ReplyView::Signalled(answer) ==> (answer.rc == -1
            && answer.errno != Some(3i32) ==> (app.stop_step(phase, reply, now).1 matches
            ProgressView::Done(Err(_))) && app.stop_step(phase, reply, now).0 == app)),
{
    reveal(ManagedView::stop_step);
}

/// A stop of an app with a process comes to a good end only where the child was
/// seen to have ended or was reaped, the process group was seen to be gone, or
/// was sent `SIGKILL`.
pub proof fn law_stops_end_the_process(app: ManagedView, replies: Seq<(ReplyView, Moment)>)
    requires
        app.state.pid is Some,
        app.stops_with(StopPhase::Begin, replies),
    ensures
        app.ends_process(StopPhase::Begin, replies),
{
    lemma_ends_process(app, StopPhase::Begin, replies);
}

proof fn lemma_ends_process(
    app: ManagedView,
    phase: StopPhase,
    replies: Seq<(ReplyView, Moment)>,
)
    requires
        app.stops_with(phase, replies),
        phase is Begin ==> app.state.pid is Some,
    ensures
        phase is NextFound || app.ends_process(phase, replies),
    decreases replies.len(),
{
    reveal(ManagedView::stop_step);
    let (after, progress) = app.stop_step(phase, replies[0].0, replies[0].1);
    if let ProgressView::Ask(next, _) = progress {
        lemma_ends_process(after, next, replies.skip(1));
    }
}

/// A stop that comes to a good end leaves the app stopped, by hand, without a
/// process and without a child of the agent.
pub proof fn law_stopped_apps_are_stopped(
    app: ManagedView,
    phase: StopPhase,
    reply: ReplyView,
    now: Moment,
)
    requires
        app.wf(),
        phase.fits(app),
    ensures
        app.stop_step(phase, reply, now).1 matches ProgressView::Done(Ok(_))
            ==> app.stop_step(phase, reply, now).0.is_stopped(),
{
    reveal(ManagedView::stop_step);
}

/// What is stopped is not started again by the rounds that follow: neither after
/// a delay nor on schedule. An app without a process whose restart was put off is
/// left out: nothing is ended for it, and its restart stays ahead.
pub proof fn law_stopped_apps_stay_stopped(
    app: ManagedView,
    phase: StopPhase,
    reply: ReplyView,
    now: Moment,
    tick: Moment,
    later: Moment,
)
    requires
        app.wf(),
        phase.fits(app),
        phase is Begin && app.state.pid is None ==> app.state.backoff_until is None,
        app.stop_step(phase, reply, now).1 matches ProgressView::Done(Ok(_)),
    ensures
        ({
            let after = app.stop_step(phase, reply, now).0;
            let (found, look) = after.look_step(
                LookPhase::Begin,
                ReplyView::Proceed,
                tick,
                later,
            );
            &&& found == after
            &&& look matches LookView::Done(v) && !v.changed && !v.revive && !v.allowed
        }),
{
    reveal(ManagedView::stop_step);
    reveal(ManagedView::look_step);
}

/// A start that comes to a good end leaves a running app with a process. It
/// spawns nothing where the agent has a child for the app already, or where
/// its recorded process is alive.
pub proof fn law_started_apps_run(
    app: ManagedView,
    logs_dir: Seq<char>,
    phase: StartPhase,
    reply: ReplyView,
    now: Moment,
)
    requires
        app.wf(),
        phase.fits(app),
    ensures
        app.start_step(logs_dir, phase, reply, now).1 matches ProgressView::Done(Ok(_))
            ==> app.start_step(logs_dir, phase, reply, now).0.is_running(),
        phase is Begin && app.child ==> app.start_step(logs_dir, phase, reply, now).1 is Done,
        phase is PidProbed ==> (reply matches ReplyView::Pid { rc, errno } ==> (alive(rc, errno)
            ==> app.start_step(logs_dir, phase, reply, now).1 is Done)),
{
    reveal(ManagedView::start_step);
}

/// A restart that was put off happens no sooner than its delay allows: in the
/// round in which a process is found to have failed nothing is started again
/// while the delay lasts, and later rounds start it once it has passed.
pub proof fn law_restarts_wait(app: ManagedView, status: ExitStatus, tick: Moment, now: Moment)
    requires
        restarts(app.spec.restart, failed(status)),
        app.exited(status, tick.epoch).may_restart(tick.mono),
        now.epoch + 30 <= u64::MAX,
    ensures
        ({
            let after = app.ended(status, tick, now);
            &&& after.state.backoff_until is Some
            &&& now.epoch < after.state.backoff_until->0 <= now.epoch + 30
            &&& after.probing(true, tick, now) matches LookView::Done(v) && !v.revive
            &&& forall|later: Moment|
                (#[trigger] after.verdict(false, later, later)).revive == (later.epoch
                    >= after.state.backoff_until->0)
        }),
{
    let e = app.exited(status, tick.epoch);
    let n = crate::managed::capped(e.consecutive as int, 1, u32::MAX as int) as u32;
    crate::managed::lemma_backoff_bounds(n);
}

/// A process is spawned by a start alone, for an app that the agent has no child
/// for, with the command line and in the directory that are configured for it.
pub proof fn law_only_starts_spawn(
    app: ManagedView,
    logs_dir: Seq<char>,
    start: StartPhase,
    stop: StopPhase,
    look: LookPhase,
    reply: ReplyView,
    tick: Moment,
    now: Moment,
)
    requires
        app.wf(),
        start.fits(app),
    ensures
        app.stop_step(stop, reply, now).1 matches ProgressView::Ask(_, action) ==> !(
        action is Spawn),
        app.look_step(look, reply, tick, now).1 matches LookView::Ask(_, action) ==> !(
        action is Spawn),
        app.start_step(logs_dir, start, reply, now).1 matches ProgressView::Ask(
            _,
            ActionView::Spawn { name, plan },
        ) ==> {
            &&& !app.child
            &&& name == app.spec.name
            &&& plan.cwd == app.spec.cwd
            &&& plan.line == app.spec.command_line(true) || plan.line == app.spec.command_line(
                false,
            )
        },
{
    reveal(ManagedView::start_step);
    reveal(ManagedView::stop_step);
    reveal(ManagedView::look_step);
}

impl ManagedView {
    /// Whether the app is in that status, with that reason and that error.
    pub open spec fn tells(
        self,
        status: AppStatus,
        reason: Seq<char>,
        error: Option<Seq<char>>,
    ) -> bool {
        &&& self.state.status == status
        &&& self.state.last_reason == Some(reason)
        &&& self.state.last_error == error
    }

    /// Whether `after` is in the same status, with the same reason and error.
    pub open spec fn tells_as(self, after: ManagedView) -> bool {
        &&& after.state.status == self.state.status
        &&& after.state.last_reason == self.state.last_reason
        &&& after.state.last_error == self.state.last_error
    }
}

/// Every change in the life of an app leaves its own reason, and a failure its
/// own error; where nothing changed, status, reason and error stay as they were.
pub proof fn law_changes_have_reasons(
    app: ManagedView,
    logs_dir: Seq<char>,
    start: StartPhase,
    stop: StopPhase,
    look: LookPhase,
    reply: ReplyView,
    tick: Moment,
    now: Moment,
)
    ensures
        ({
            let after = app.start_step(logs_dir, start, reply, now).0;
            match (start, reply) {
                (StartPhase::Spawned, ReplyView::Spawned(_)) => after.tells(
                    AppStatus::Running,
                    "running"@,
                    None,
                ),
                (StartPhase::Spawned, ReplyView::NotSpawned(m)) => after.tells(
                    AppStatus::Errored,
                    "spawn_failed"@,
                    Some("spawn failed: "@ + m),
                ),
                _ => app.tells_as(after),
            }
        }),
        ({
            let after = app.stop_step(stop, reply, now).0;
            if app.sees_end(stop, reply) || (stop is Begin && reply is Proceed && app.state.pid
                is None) {
                after.tells(AppStatus::Stopped, "manual_stop"@, app.state.last_error)
            } else {
                app.tells_as(after)
            }
        }),
        ({
            let after = app.look_step(look, reply, tick, now).0;
            match (look, reply) {
                (LookPhase::Polled, ReplyView::ChildExited(status)) => if restarts(
                    app.spec.restart,
                    failed(status),
                ) && !app.exited(status, tick.epoch).may_restart(tick.mono) {
                    after.tells(
                        AppStatus::Errored,
                        "max_restarts_exceeded"@,
                        Some("crash loop protection triggered (>5 restarts in 60s)"@),
                    )
                } else {
                    after.tells(AppStatus::Stopped, exit_reason(status), app.state.last_error)
                },
                (LookPhase::Polled, ReplyView::ChildLost(m)) => after.tells(
                    AppStatus::Errored,
                    "try_wait_failed"@,
                    Some("try_wait failed: "@ + m),
                ),
                (LookPhase::PidProbed { .. }, ReplyView::Pid { rc, errno }) => if alive(rc, errno) {
                    app.tells_as(after)
                } else {
                    after.tells(AppStatus::Stopped, "pid_not_alive"@, app.state.last_error)
                },
                _ => app.tells_as(after),
            }
        }),
{
    reveal(ManagedView::start_step);
    reveal(ManagedView::stop_step);
    reveal(ManagedView::look_step);
}

/// The limit on restarts has no way round it: a restart is put off, to happen
/// later, only where a process was found to have ended, its policy asks for a
/// restart, and the restart is granted.
pub proof fn law_only_granted_restarts_lie_ahead(
    app: ManagedView,
    logs_dir: Seq<char>,
    start: StartPhase,
    stop: StopPhase,
    look: LookPhase,
    reply: ReplyView,
    tick: Moment,
    now: Moment,
)
    ensures
        ({
            let after = app.start_step(logs_dir, start, reply, now).0.state.backoff_until;
            after is None || after == app.state.backoff_until
        }),
        ({
            let after = app.stop_step(stop, reply, now).0.state.backoff_until;
            after is None || after == app.state.backoff_until
        }),
        ({
            let after = app.look_step(look, reply, tick, now).0.state.backoff_until;
            after is None || after == app.state.backoff_until || (reply matches
                ReplyView::ChildExited(status) && restarts(app.spec.restart, failed(status))
                && app.exited(status, tick.epoch).may_restart(tick.mono))
        }),
{
    reveal(ManagedView::start_step);
    reveal(ManagedView::stop_step);
    reveal(ManagedView::look_step);
}

/// When the process of a child is found to have ended, the policy decides: an app
/// is put off to be started again, no later than in thirty seconds, if it is
/// always to be restarted, or on failure and its process did not exit with code 0,
/// be it that it exited with another or that a signal ended it. Otherwise it stays
/// stopped, without a restart ahead.
pub proof fn law_policy_decides_on_restarts(
    app: ManagedView,
    status: ExitStatus,
    tick: Moment,
    now: Moment,
)
    requires
        app.wf(),
        app.child,
        app.recent.len() < 5,
        now.epoch + 30 <= u64::MAX,
    ensures
        ({
            let after = app.look_step(
                LookPhase::Polled,
                ReplyView::ChildExited(status),
                tick,
                now,
            ).0;
            &&& !after.child && after.state.pid is None
            &&& after.state.status == AppStatus::Stopped
            &&& after.state.backoff_until is Some <==> {
                ||| app.spec.restart == RestartPolicy::Always
                ||| app.spec.restart == RestartPolicy::OnFailure && (status.code is None
                    || status.code->0 != 0)
            }
            &&& after.state.backoff_until matches Some(at) ==> now.epoch < at <= now.epoch + 30
        }),
{
    reveal(ManagedView::look_step);
    let e = app.exited(status, tick.epoch);
    crate::managed::lemma_counted_len(e.recent, tick.mono);
    let n = crate::managed::capped(e.consecutive as int, 1, u32::MAX as int) as u32;
    crate::managed::lemma_backoff_bounds(n);
}

/// The course of a start, for an app without a process: the command line is
/// settled first, the logs are opened, the environment file is read where there is
/// one, the process is spawned, and the next scheduled restart is found where the
/// app has a schedule.
pub proof fn law_start_takes_its_course(
    app: ManagedView,
    logs_dir: Seq<char>,
    exists_there: bool,
    uvicorn: bool,
    text: Seq<char>,
    pid: u32,
    at: Option<u64>,
    now: Moment,
)
    requires
        !app.child,
        app.state.status != AppStatus::Running,
    ensures
        ({
            let open = ActionView::OpenLogs {
                stdout: stdout_log(logs_dir, app.spec.name),
                stderr: stderr_log(logs_dir, app.spec.name),
            };
            let begin = app.start_step(logs_dir, StartPhase::Begin, ReplyView::Proceed, now);
            let probed = app.start_step(
                logs_dir,
                StartPhase::UvicornProbed,
                ReplyView::Path(exists_there),
                now,
            );
            &&& begin.0 == app && probed.0 == app
            &&& app.spec.command.len() > 0 ==> (begin.1 matches ProgressView::Ask(
                StartPhase::LogsOpened { .. },
                action,
            ) && action == open)
            &&& app.spec.command.len() == 0 ==> begin.1 == ProgressView::Ask(
                StartPhase::UvicornProbed,
                ActionView::ProbePath(app.spec.uvicorn()),
            )
            &&& probed.1 == ProgressView::Ask(
                StartPhase::LogsOpened { uvicorn: exists_there },
                open,
            )
        }),
        ({
            let opened = app.start_step(
                logs_dir,
                StartPhase::LogsOpened { uvicorn },
                ReplyView::Opened,
                now,
            );
            let read = app.start_step(
                logs_dir,
                StartPhase::EnvRead { uvicorn },
                ReplyView::Text(text),
                now,
            );
            &&& app.spec.env_file matches Some(file) ==> opened == (
                app,
                ProgressView::Ask(
                    StartPhase::EnvRead { uvicorn },
                    ActionView::ReadFile(crate::paths::joined(app.spec.cwd, file)),
                ),
            )
            &&& app.spec.env_file is None ==> {
                &&& opened.1 matches ProgressView::Ask(
                    StartPhase::Spawned,
                    ActionView::Spawn { name, plan },
                ) && name == app.spec.name && plan.line == app.spec.command_line(uvicorn)
                    && plan.cwd == app.spec.cwd && plan.env == app_env(app.spec, None)
                &&& opened.0.state.last_start_attempt_at == Some(now.epoch)
                &&& opened.0.state.backoff_until is None
            }
            &&& read.1 matches ProgressView::Ask(
                StartPhase::Spawned,
                ActionView::Spawn { name, plan },
            ) && name == app.spec.name && plan.line == app.spec.command_line(uvicorn) && plan.cwd
                == app.spec.cwd && plan.env == app_env(app.spec, Some(text))
            &&& read.0.state.last_start_attempt_at == Some(now.epoch)
            &&& read.0.state.backoff_until is None
        }),
        ({
            let spawned = app.start_step(
                logs_dir,
                StartPhase::Spawned,
                ReplyView::Spawned(pid),
                now,
            );
            &&& spawned.0.child && spawned.0.state.pid == Some(pid)
            &&& spawned.0.state.status == AppStatus::Running
            &&& spawned.0.state.started_at == Some(now.epoch)
            &&& spawned.0.state.restart_count == app.state.restart_count
            &&& app.schedule is None ==> (spawned.1 matches ProgressView::Done(Ok(_)))
            &&& app.schedule matches Some(schedule) ==> spawned.1 == ProgressView::Ask(
                StartPhase::NextFound,
                ActionView::NextOccurrence(schedule, now.epoch),
            )
        }),
        ({
            let found = app.start_step(
                logs_dir,
                StartPhase::NextFound,
                ReplyView::Due(at),
                now,
            );
            &&& found.1 matches ProgressView::Done(Ok(_))
            &&& at is Some ==> found.0.state.next_scheduled_restart_at == at
            &&& at is None ==> found.0.state.next_scheduled_restart_at
                == app.state.next_scheduled_restart_at
            &&& found.0.state.status == app.state.status && found.0.state.pid == app.state.pid
        }),
{
    reveal(ManagedView::start_step);
}

/// A look at an app that is held to run without being a child asks after its
/// process, and where that is gone the app is stopped. A child is asked after by
/// itself, and one that still runs is left as it is.
pub proof fn law_looks_find_what_ended(
    app: ManagedView,
    rc: i32,
    errno: Option<i32>,
    changed: bool,
    tick: Moment,
    now: Moment,
)
    ensures
        app.child ==> app.look_step(LookPhase::Begin, ReplyView::Proceed, tick, now) == (
            app,
            LookView::Ask(LookPhase::Polled, ActionView::PollChild(app.spec.name)),
        ),
        !app.child && app.state.status == AppStatus::Running ==> (app.state.pid matches Some(pid)
            ==> app.look_step(LookPhase::Begin, ReplyView::Proceed, tick, now) == (
            app,
            LookView::Ask(LookPhase::PidProbed { changed: false }, ActionView::ProbePid(pid)),
        )),
        app.look_step(LookPhase::Polled, ReplyView::ChildRunning, tick, now).0 == app,
        ({
            let after = app.look_step(
                LookPhase::PidProbed { changed },
                ReplyView::Pid { rc, errno },
                tick,
                now,
            ).0;
            &&& rc == 0 || errno == Some(1i32) ==> after == app
            &&& rc != 0 && errno != Some(1i32) ==> after.state.status == AppStatus::Stopped
                && after.state.pid is None && after.state.started_at is None
                && after.state.backoff_until == app.state.backoff_until
        }),
{
    reveal(ManagedView::look_step);
}

/// What a look finds at its end: a restart that was put off is due once its moment
/// has come, for an app without a child, and a scheduled one once its moment has
/// come, which is carried out only where the app runs.
pub proof fn law_looks_find_what_is_due(
    app: ManagedView,
    changed: bool,
    tick: Moment,
    now: Moment,
)
    ensures
        ({
            let v = app.verdict(changed, tick, now);
            &&& v.changed == changed
            &&& v.revive <==> !app.child && app.state.backoff_until is Some && now.epoch
                >= app.state.backoff_until->0
            &&& v.due <==> app.state.next_scheduled_restart_at is Some && tick.epoch
                >= app.state.next_scheduled_restart_at->0
            &&& v.allowed <==> v.due && app.state.status == AppStatus::Running
        }),
        app.child ==> app.look_step(
            LookPhase::Polled,
            ReplyView::ChildRunning,
            tick,
            now,
        ).1 == LookView::Done(app.verdict(false, tick, now)),
        !app.child && app.state.status != AppStatus::Running ==> app.look_step(
            LookPhase::Begin,
            ReplyView::Proceed,
            tick,
            now,
        ) == (app, LookView::Done(app.verdict(false, tick, now))),
{
    reveal(ManagedView::look_step);
}

/// A start finds out first whether the app runs already: with a child, or with a
/// process that is alive, there is nothing to do, and it is a success; a process
/// that is gone is replaced.
pub proof fn law_start_of_what_runs(
    app: ManagedView,
    logs_dir: Seq<char>,
    rc: i32,
    errno: Option<i32>,
    now: Moment,
)
    ensures
        app.child ==> (app.start_step(logs_dir, StartPhase::Begin, ReplyView::Proceed, now) matches
            (after, ProgressView::Done(Ok(_))) && after == app),
        !app.child && app.state.status == AppStatus::Running ==> (app.state.pid matches Some(pid)
            ==> app.start_step(logs_dir, StartPhase::Begin, ReplyView::Proceed, now) == (
            app,
            ProgressView::Ask(StartPhase::PidProbed, ActionView::ProbePid(pid)),
        )),
        !app.child && app.state.pid is None ==> !(app.start_step(
            logs_dir,
            StartPhase::Begin,
            ReplyView::Proceed,
            now,
        ).1 is Done),
        ({
            let probed = app.start_step(
                logs_dir,
                StartPhase::PidProbed,
                ReplyView::Pid { rc, errno },
                now,
            );
            &&& probed.0 == app
            &&& rc == 0 || errno == Some(1i32) ==> (probed.1 matches ProgressView::Done(Ok(_)))
            &&& rc != 0 && errno != Some(1i32) ==> (probed.1 matches ProgressView::Ask(_, action)
                && (action is OpenLogs || action is ProbePath))
        }),
{
    reveal(ManagedView::start_step);
}

/// What goes wrong in a start ends it, with the error: logs that cannot be opened,
/// an environment file that cannot be read, a process that cannot be spawned.
pub proof fn law_start_failures(
    app: ManagedView,
    logs_dir: Seq<char>,
    uvicorn: bool,
    e: ErrorView,
    m: Seq<char>,
    now: Moment,
)
    ensures
        app.start_step(
            logs_dir,
            StartPhase::LogsOpened { uvicorn },
            ReplyView::Failed(e),
            now,
        ) == (app, ProgressView::<StartPhase>::Done(Err(e))),
        app.start_step(logs_dir, StartPhase::EnvRead { uvicorn }, ReplyView::Failed(e), now) == (
            app,
            ProgressView::<StartPhase>::Done(Err(e)),
        ),
        app.start_step(logs_dir, StartPhase::Spawned, ReplyView::NotSpawned(m), now).1
            == ProgressView::<StartPhase>::Done(
            Err(ErrorView::Supervisor("failed to start '"@ + app.spec.name + "': "@ + m)),
        ),
{
    reveal(ManagedView::start_step);
}

/// When a stop is done with a process, what is remembered says so: where it saw the
/// child end, how it ended; and where it did not, that there is no process, nor a
/// restart ahead, and the next scheduled restart is looked for, from that moment
/// on, and remembered.
pub proof fn law_stops_leave_nothing_behind(
    app: ManagedView,
    phase: StopPhase,
    reply: ReplyView,
    at: Option<u64>,
    now: Moment,
)
    ensures
        ({
            let (after, progress) = app.stop_step(phase, reply, now);
            &&& app.sees_end(phase, reply) ==> {
                &&& !after.child && after.state.pid is None && after.state.started_at is None
                &&& after.consecutive == 0
                &&& after.state.status == AppStatus::Stopped
                &&& after.state.restart_count == app.state.restart_count
            }
            &&& app.sees_end(phase, reply) ==> match reply {
                ReplyView::ChildExited(status) => {
                    &&& progress matches ProgressView::Done(Ok(_))
                    &&& after.state.last_exit_code == status.code
                    &&& status.signal is None ==> after.state.last_exit_signal is None
                    &&& status.signal matches Some(sig) ==> after.state.last_exit_signal == Some(
                        crate::signals::signal_label(sig),
                    )
                },
                _ => {
                    &&& after.state.backoff_until is None
                    &&& app.schedule is None ==> (progress matches ProgressView::Done(Ok(_)))
                    &&& app.schedule matches Some(schedule) ==> progress == ProgressView::Ask(
                        StopPhase::NextFound,
                        ActionView::NextOccurrence(schedule, now.epoch),
                    )
                },
            }
        }),
        ({
            let (after, progress) = app.stop_step(StopPhase::NextFound, ReplyView::Due(at), now);
            &&& progress matches ProgressView::Done(Ok(_))
            &&& after.state.next_scheduled_restart_at == at
        }),
        app.state.pid is None ==> ({
            let (after, progress) = app.stop_step(StopPhase::Begin, ReplyView::Proceed, now);
            &&& progress matches ProgressView::Done(Ok(_))
            &&& after.state.status == AppStatus::Stopped
            &&& after.state.backoff_until == app.state.backoff_until
            &&& after.state.next_scheduled_restart_at == app.state.next_scheduled_restart_at
        }),
{
    reveal(ManagedView::stop_step);
}

/// A child that can no longer be waited for is given up.
pub proof fn law_lost_children_are_given_up(
    app: ManagedView,
    m: Seq<char>,
    tick: Moment,
    now: Moment,
)
    ensures
        ({
            let after = app.look_step(LookPhase::Polled, ReplyView::ChildLost(m), tick, now).0;
            &&& !after.child && after.state.pid is None
            &&& after.state.status == AppStatus::Errored
            &&& after.state.backoff_until == app.state.backoff_until
        }),
{
    reveal(ManagedView::look_step);
}

} // verus!
