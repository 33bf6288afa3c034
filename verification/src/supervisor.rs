//! The supervisor: the apps it looks after, and the jobs it does on them.

use crate::error::{outcome, ErrorView, IoFailure, PyopsError};
use crate::lifecycle::{
    names_result, stray, stray_reply, Action, ActionView, Look, LookPhase, LookView, Progress,
    ProgressView, Reply, ReplyView, StartPhase, StopPhase, Verdict,
};
use crate::listing::{by_name, sort_by_name};
use crate::managed::{ManagedApp, ManagedView, Moment};
use crate::model::{
    clone_strings, effective_command, fresh_runtime, summaries_view, uvicorn_path, AppDetails,
    AppRuntimeState, AppSpecView, AppStatus, AppSummary, ConfigFile, ConfigView, DetailsView,
    LogSource, RuntimeView, SummaryView,
};
use crate::names::{
    distinct, filed, lemma_filed, lemma_position, lemma_position_is, lookup, names_of, position,
    NameMap,
};
use crate::paths::{join_path, joined, log_files, stderr_log, stdout_log};
use crate::schedule::{parse_restart_schedule, schedule_of, RestartSchedule};
use crate::text::{
    cat3, cat4, decimal_int, line_seq, same, split_lines, texts, u64_text,
};
use std::collections::VecDeque;
use vstd::prelude::*;

verus! {

pub struct Supervisor {
    state_dir: String,
    logs_dir: String,
    apps: Vec<ManagedApp>,
}

pub struct SupervisorView {
    pub state_dir: Seq<char>,
    pub logs_dir: Seq<char>,
    pub apps: Seq<(Seq<char>, ManagedView)>,
}

/// The apps, each under its name.
pub open spec fn roster(v: Seq<ManagedApp>) -> Seq<(Seq<char>, ManagedView)> {
    v.map_values(|a: ManagedApp| (a@.spec.name, a@))
}

impl View for Supervisor {
    type V = SupervisorView;

    closed spec fn view(&self) -> SupervisorView {
        SupervisorView {
            state_dir: self.state_dir@,
            logs_dir: self.logs_dir@,
            apps: roster(self.apps@),
        }
    }
}

impl Supervisor {
    #[verifier::type_invariant]
    spec fn each_once(self) -> bool {
        distinct(self@.apps)
    }
}

/// The error for an app that is not configured.
pub open spec fn unknown(name: Seq<char>) -> ErrorView {
    ErrorView::Supervisor("unknown app '"@ + name + "'"@)
}

fn unknown_app(name: &str) -> (r: PyopsError)
    ensures
        r@ == unknown(name@),
{
    PyopsError::Supervisor(cat3("unknown app '", name, "'"))
}

impl SupervisorView {
    /// Whether every app stands once, under its own name, and what is
    /// remembered of it agrees.
    pub open spec fn wf(self) -> bool {
        &&& distinct(self.apps)
        &&& forall|i: int|
            0 <= i < self.apps.len() ==> (#[trigger] self.apps[i]).1.wf() && self.apps[i].0
                == self.apps[i].1.spec.name
    }

    /// With what is remembered of the app `name` replaced.
    pub open spec fn with(self, name: Seq<char>, app: ManagedView) -> SupervisorView {
        SupervisorView { apps: filed(self.apps, name, app), ..self }
    }

    /// A step of a start of the app `name`.
    pub open spec fn start_one(
        self,
        name: Seq<char>,
        phase: StartPhase,
        reply: ReplyView,
        now: Moment,
    ) -> (SupervisorView, ProgressView<StartPhase>) {
        match lookup(self.apps, name) {
            None => (self, ProgressView::Done(Err(unknown(name)))),
            Some(app) => {
                let (after, progress) = app.start_step(self.logs_dir, phase, reply, now);
                (self.with(name, after), progress)
            },
        }
    }

    /// A step of a stop of the app `name`.
    pub open spec fn stop_one(
        self,
        name: Seq<char>,
        phase: StopPhase,
        reply: ReplyView,
        now: Moment,
    ) -> (SupervisorView, ProgressView<StopPhase>) {
        match lookup(self.apps, name) {
            None => (self, ProgressView::Done(Err(unknown(name)))),
            Some(app) => {
                let (after, progress) = app.stop_step(phase, reply, now);
                (self.with(name, after), progress)
            },
        }
    }

    /// A step of a look at the app `name`.
    pub open spec fn look_at(
        self,
        name: Seq<char>,
        phase: LookPhase,
        reply: ReplyView,
        tick: Moment,
        now: Moment,
    ) -> (SupervisorView, LookView) {
        match lookup(self.apps, name) {
            None => (
                self,
                LookView::Done(
                    Verdict { changed: false, revive: false, due: false, allowed: false },
                ),
            ),
            Some(app) => {
                let (after, look) = app.look_step(phase, reply, tick, now);
                (self.with(name, after), look)
            },
        }
    }

    /// The schedule of the app `name`.
    pub open spec fn schedule_for(self, name: Seq<char>) -> Option<RestartSchedule> {
        match lookup(self.apps, name) {
            Some(app) => app.schedule,
            None => None,
        }
    }

    /// With the next scheduled restart of the app `name` set.
    pub open spec fn aimed(self, name: Seq<char>, at: Option<u64>) -> SupervisorView {
        match lookup(self.apps, name) {
            Some(app) => self.with(name, app.aimed(at)),
            None => self,
        }
    }

    /// The names of the apps that are started with the agent.
    pub open spec fn autostarted(self) -> Seq<Seq<char>> {
        names_of(self.apps.filter(|e: (Seq<char>, ManagedView)| e.1.spec.autostart))
    }

    /// The apps that each of those names stands for.
    pub open spec fn autostart_groups(self) -> Seq<Seq<Seq<char>>> {
        self.autostarted().map_values(|name: Seq<char>| self.meant(name))
    }
}

proof fn lemma_steps_keep_spec(
    app: ManagedView,
    logs_dir: Seq<char>,
    start: StartPhase,
    stop: StopPhase,
    look: LookPhase,
    reply: ReplyView,
    tick: Moment,
    now: Moment,
)
    ensures
        app.start_step(logs_dir, start, reply, now).0.spec == app.spec,
        app.stop_step(stop, reply, now).0.spec == app.spec,
        app.look_step(look, reply, tick, now).0.spec == app.spec,
{
    reveal(ManagedView::start_step);
    reveal(ManagedView::stop_step);
    reveal(ManagedView::look_step);
}

impl Supervisor {
    fn find(&self, name: &str) -> (r: Option<usize>)
        ensures
            match r {
                Some(i) => i < self.apps@.len() && i == position(self@.apps, name@),
                None => position(self@.apps, name@) == self@.apps.len(),
            },
    {
        let ghost apps = self@.apps;
        let mut i: usize = 0;
        while i < self.apps.len()
            invariant
                apps == roster(self.apps@),
                i <= self.apps@.len(),
                forall|j: int| 0 <= j < i ==> (#[trigger] apps[j]).0 != name@,
            decreases self.apps@.len() - i,
        {
            assert(apps[i as int].0 == self.apps@[i as int].spec.name@);
            if same(self.apps[i].spec.name.as_str(), name) {
                proof {
                    lemma_position_is(apps, name@, i as int);
                }
                return Some(i);
            }
            i += 1;
        }
        proof {
            lemma_position_is(apps, name@, apps.len() as int);
        }
        None
    }

    fn lend(&mut self) -> (r: Vec<ManagedApp>)
        ensures
            roster(r@) == old(self)@.apps,
            distinct(roster(r@)),
            final(self)@ == (SupervisorView { apps: Seq::empty(), ..old(self)@ }),
    {
        proof {
            use_type_invariant(&*self);
        }
        let mut apps: Vec<ManagedApp> = Vec::new();
        std::mem::swap(&mut self.apps, &mut apps);
        assert(self@.apps =~= Seq::empty());
        apps
    }

    fn settle(&mut self, apps: Vec<ManagedApp>)
        requires
            distinct(roster(apps@)),
        ensures
            final(self)@ == (SupervisorView { apps: roster(apps@), ..old(self)@ }),
    {
        self.apps = apps;
    }

    fn start_one(&mut self, name: &str, phase: StartPhase, reply: Reply, now: Moment) -> (r:
        Progress<StartPhase>)
        ensures
            (final(self)@, r@) == old(self)@.start_one(name@, phase, reply@, now),
    {
        match self.find(name) {
            None => Progress::Done(Err(unknown_app(name))),
            Some(i) => {
                let ghost before = self@;
                proof {
                    lemma_position(before.apps, name@);
                    lemma_steps_keep_spec(
                        before.apps[i as int].1,
                        before.logs_dir,
                        phase,
                        StopPhase::Begin,
                        LookPhase::Begin,
                        reply@,
                        now,
                        now,
                    );
                }
                let mut apps = self.lend();
                let r = Self::start_step(
                    &mut apps[i],
                    self.logs_dir.as_str(),
                    phase,
                    reply,
                    now,
                );
                assert(roster(apps@) =~= filed(before.apps, name@, apps@[i as int]@));
                self.settle(apps);
                r
            },
        }
    }

    fn stop_one(&mut self, name: &str, phase: StopPhase, reply: Reply, now: Moment) -> (r: Progress<
        StopPhase,
    >)
        ensures
            (final(self)@, r@) == old(self)@.stop_one(name@, phase, reply@, now),
    {
        match self.find(name) {
            None => Progress::Done(Err(unknown_app(name))),
            Some(i) => {
                let ghost before = self@;
                proof {
                    lemma_position(before.apps, name@);
                    lemma_steps_keep_spec(
                        before.apps[i as int].1,
                        before.logs_dir,
                        StartPhase::Begin,
                        phase,
                        LookPhase::Begin,
                        reply@,
                        now,
                        now,
                    );
                }
                let mut apps = self.lend();
                let r = Self::stop_step(&mut apps[i], phase, reply, now);
                assert(roster(apps@) =~= filed(before.apps, name@, apps@[i as int]@));
                self.settle(apps);
                r
            },
        }
    }

    fn look_at(
        &mut self,
        name: &str,
        phase: LookPhase,
        reply: Reply,
        tick: Moment,
        now: Moment,
    ) -> (r: Look)
        ensures
            (final(self)@, r@) == old(self)@.look_at(name@, phase, reply@, tick, now),
    {
        match self.find(name) {
            None => Look::Done(
                Verdict { changed: false, revive: false, due: false, allowed: false },
            ),
            Some(i) => {
                let ghost before = self@;
                proof {
                    lemma_position(before.apps, name@);
                    lemma_steps_keep_spec(
                        before.apps[i as int].1,
                        before.logs_dir,
                        StartPhase::Begin,
                        StopPhase::Begin,
                        phase,
                        reply@,
                        tick,
                        now,
                    );
                }
                let mut apps = self.lend();
                let r = Self::look_step(&mut apps[i], phase, reply, tick, now);
                assert(roster(apps@) =~= filed(before.apps, name@, apps@[i as int]@));
                self.settle(apps);
                r
            },
        }
    }

    fn schedule_for(&self, name: &str) -> (r: Option<RestartSchedule>)
        ensures
            r == self@.schedule_for(name@),
    {
        match self.find(name) {
            Some(i) => self.apps[i].schedule,
            None => None,
        }
    }

    /// Sets when the app `name` is next restarted on schedule.
    fn refresh_schedule_target_for(&mut self, name: &str, at: Option<u64>)
        ensures
            final(self)@ == old(self)@.aimed(name@, at),
    {
        if let Some(i) = self.find(name) {
            let ghost before = self@;
            proof {
                lemma_position(before.apps, name@);
            }
            let mut apps = self.lend();
            apps[i].state.next_scheduled_restart_at = at;
            assert(roster(apps@) =~= filed(before.apps, name@, apps@[i as int]@));
            self.settle(apps);
        }
    }
}

// ---- Jobs ----

/// What a job is for.
#[derive(Debug, Clone, Copy, PartialEq, Eq, Structural)]
pub enum Goal {
    Start,
    Stop,
    Restart,
    /// Starts the apps that are started with the agent.
    Autostart,
    /// Stops all apps.
    Shutdown,
    /// Looks after all apps once.
    Tick,
    /// Finds when each app is next restarted on schedule.
    Refresh,
}

/// What a job is about to do with the current app, or waits for. `revive` says
/// whether a restart of it that was put off is due.
#[derive(Debug, Clone, Copy)]
pub enum Stage {
    Next,
    Start(StartPhase),
    Stop(StopPhase),
    Look(LookPhase),
    ScheduledStop(StopPhase, bool),
    ScheduledStart(StartPhase, bool),
    Aim(bool),
    Aimed(bool),
    Revive(StartPhase),
    Save,
    Over,
}

/// A job on the apps in `queue`, one after the other, that has come to the one
/// at `at`. It was taken up at `opened`; `changed` says whether it found or
/// made a change. In a job that starts the apps that are started with the agent,
/// `ends` holds, for each place in the queue, where the apps end that are started
/// together with the one there.
pub struct Job {
    goal: Goal,
    queue: Vec<String>,
    ends: Vec<usize>,
    at: usize,
    stage: Stage,
    changed: bool,
    opened: Moment,
}

pub struct JobView {
    pub goal: Goal,
    pub queue: Seq<Seq<char>>,
    pub ends: Seq<int>,
    pub at: int,
    pub stage: Stage,
    pub changed: bool,
    pub opened: Moment,
}

/// The places that a sequence of indices stands for.
pub open spec fn places(v: Seq<usize>) -> Seq<int> {
    v.map_values(|i: usize| i as int)
}

impl View for Job {
    type V = JobView;

    closed spec fn view(&self) -> JobView {
        JobView {
            goal: self.goal,
            queue: texts(self.queue@),
            ends: places(self.ends@),
            at: self.at as int,
            stage: self.stage,
            changed: self.changed,
            opened: self.opened,
        }
    }
}

impl Job {
    #[verifier::type_invariant]
    spec fn in_bounds(self) -> bool {
        self@.wf()
    }
}

impl Stage {
    /// Whether the job is at work on an app.
    pub open spec fn busy(self) -> bool {
        !(self is Next || self is Save || self is Over)
    }

    /// Whether a job with that goal ever comes here.
    pub open spec fn suits(self, goal: Goal) -> bool {
        match self {
            Stage::Next | Stage::Over => true,
            Stage::Save => goal != Goal::Refresh,
            Stage::Start(_) => goal == Goal::Start || goal == Goal::Restart || goal
                == Goal::Autostart,
            Stage::Stop(_) => goal == Goal::Stop || goal == Goal::Restart || goal
                == Goal::Shutdown,
            Stage::Aim(revive) | Stage::Aimed(revive) => goal == Goal::Tick || (goal
                == Goal::Refresh && !revive),
            _ => goal == Goal::Tick,
        }
    }
}

impl JobView {
    /// Whether the job has an app to be at work on, and does what it is for.
    pub open spec fn wf(self) -> bool {
        &&& 0 <= self.at <= self.queue.len()
        &&& self.stage.busy() || (self.stage is Save && self.goal == Goal::Autostart) ==> self.at
            < self.queue.len()
        &&& self.stage is Save && self.asked() ==> self.at == self.queue.len()
        &&& self.stage.suits(self.goal)
        &&& self.goal == Goal::Autostart ==> self.grouped()
    }

    /// Whether every place in the queue has an end that lies behind it.
    pub open spec fn grouped(self) -> bool {
        &&& self.ends.len() == self.queue.len()
        &&& forall|k: int|
            0 <= k < self.ends.len() ==> k < #[trigger] self.ends[k] <= self.queue.len()
    }

    /// Whether the job was asked for, for apps that were named.
    pub open spec fn asked(self) -> bool {
        self.goal == Goal::Start || self.goal == Goal::Stop || self.goal == Goal::Restart
    }

    /// The app the job has come to.
    pub open spec fn current(self) -> Seq<char> {
        self.queue[self.at]
    }

    /// What a job reports that came to a good end: the apps it was for, where
    /// it was asked for by name.
    pub open spec fn report(self) -> Seq<Seq<char>> {
        match self.goal {
            Goal::Start | Goal::Stop | Goal::Restart => self.queue,
            _ => Seq::empty(),
        }
    }

    pub open spec fn to(self, stage: Stage, action: ActionView) -> (JobView, ActionView) {
        (JobView { stage, ..self }, action)
    }

    pub open spec fn finished(self, r: Result<Seq<Seq<char>>, ErrorView>) -> (
        JobView,
        ActionView,
    ) {
        self.to(Stage::Over, ActionView::Finish(r))
    }

    /// Done with the current app.
    pub open spec fn moved(self) -> (JobView, ActionView) {
        JobView { at: self.at + 1, ..self }.to(Stage::Next, ActionView::Proceed)
    }

    /// Done with the current app and with those that were to be started together
    /// with it.
    pub open spec fn skipped(self) -> (JobView, ActionView) {
        JobView { at: self.ends[self.at], ..self }.to(Stage::Next, ActionView::Proceed)
    }

    /// The next app, or the end.
    pub open spec fn picked(self) -> (JobView, ActionView) {
        if self.at < self.queue.len() {
            match self.goal {
                Goal::Start | Goal::Autostart => self.to(
                    Stage::Start(StartPhase::Begin),
                    ActionView::Proceed,
                ),
                Goal::Stop | Goal::Restart | Goal::Shutdown => self.to(
                    Stage::Stop(StopPhase::Begin),
                    ActionView::Proceed,
                ),
                Goal::Tick => self.to(Stage::Look(LookPhase::Begin), ActionView::Proceed),
                Goal::Refresh => self.to(Stage::Aim(false), ActionView::Proceed),
            }
        } else {
            match self.goal {
                Goal::Start | Goal::Stop | Goal::Restart | Goal::Shutdown => self.to(
                    Stage::Save,
                    ActionView::Persist,
                ),
                Goal::Tick if self.changed => self.to(Stage::Save, ActionView::Persist),
                _ => self.finished(Ok(Seq::empty())),
            }
        }
    }

    /// The start of the current app is over.
    pub open spec fn started(self, r: Result<(), ErrorView>) -> (JobView, ActionView) {
        match (self.goal, r) {
            (Goal::Autostart, Ok(())) => if self.at + 1 < self.ends[self.at] {
                self.moved()
            } else {
                self.to(Stage::Save, ActionView::Persist)
            },
            (Goal::Autostart, Err(_)) => self.skipped(),
            (_, Ok(())) => self.moved(),
            (_, Err(e)) => self.finished(Err(e)),
        }
    }

    /// The stop of the current app is over.
    pub open spec fn stopped(self, r: Result<(), ErrorView>) -> (JobView, ActionView) {
        match (self.goal, r) {
            (Goal::Restart, Ok(())) => self.to(
                Stage::Start(StartPhase::Begin),
                ActionView::Proceed,
            ),
            (Goal::Shutdown, Err(_)) => self.to(Stage::Save, ActionView::Persist),
            (_, Ok(())) => self.moved(),
            (_, Err(e)) => self.finished(Err(e)),
        }
    }

    /// The look at the current app is over.
    pub open spec fn looked(self, v: Verdict) -> (JobView, ActionView) {
        let job = JobView { changed: self.changed || v.changed, ..self };
        if v.due && v.allowed {
            job.to(Stage::ScheduledStop(StopPhase::Begin, v.revive), ActionView::Proceed)
        } else if v.due {
            job.to(Stage::Aim(v.revive), ActionView::Proceed)
        } else {
            job.aimed(v.revive)
        }
    }

    /// What was due on schedule is done.
    pub open spec fn aimed(self, revive: bool) -> (JobView, ActionView) {
        if revive {
            self.to(Stage::Revive(StartPhase::Begin), ActionView::Proceed)
        } else {
            self.moved()
        }
    }

    /// The stop that was due on schedule is over.
    pub open spec fn stopped_on_schedule(self, r: Result<(), ErrorView>, revive: bool) -> (
        JobView,
        ActionView,
    ) {
        match r {
            Ok(()) => self.to(
                Stage::ScheduledStart(StartPhase::Begin, revive),
                ActionView::Proceed,
            ),
            Err(_) => self.to(Stage::Aim(revive), ActionView::Proceed),
        }
    }

    /// The start that was due on schedule is over.
    pub open spec fn started_on_schedule(self, r: Result<(), ErrorView>, revive: bool) -> (
        JobView,
        ActionView,
    ) {
        JobView { changed: self.changed || r is Ok, ..self }.to(
            Stage::Aim(revive),
            ActionView::Proceed,
        )
    }

    /// The start that was put off is over.
    pub open spec fn revived(self) -> (JobView, ActionView) {
        JobView { changed: true, ..self }.moved()
    }

    /// The runtime state was written, or could not be.
    pub open spec fn saved(self, problem: Option<ErrorView>) -> (JobView, ActionView) {
        match self.goal {
            Goal::Autostart => self.moved(),
            Goal::Start | Goal::Stop | Goal::Restart => match problem {
                Some(e) => self.finished(Err(e)),
                None => self.finished(Ok(self.report())),
            },
            _ => self.finished(Ok(self.report())),
        }
    }

    /// The moment from which the next scheduled restart is looked for.
    pub open spec fn aim_from(self, now: Moment) -> u64 {
        if self.goal == Goal::Refresh {
            self.opened.epoch
        } else {
            now.epoch
        }
    }
}

impl SupervisorView {
    /// A step of a job that starts the current app.
    pub open spec fn at_start(
        self,
        job: JobView,
        phase: StartPhase,
        reply: ReplyView,
        now: Moment,
    ) -> (SupervisorView, (JobView, ActionView)) {
        let (sup, progress) = self.start_one(job.current(), phase, reply, now);
        (
            sup,
            match progress {
                ProgressView::Ask(p, action) => job.to(Stage::Start(p), action),
                ProgressView::Done(r) => job.started(r),
            },
        )
    }

    /// A step of a job that stops the current app.
    pub open spec fn at_stop(
        self,
        job: JobView,
        phase: StopPhase,
        reply: ReplyView,
        now: Moment,
    ) -> (SupervisorView, (JobView, ActionView)) {
        let (sup, progress) = self.stop_one(job.current(), phase, reply, now);
        (
            sup,
            match progress {
                ProgressView::Ask(p, action) => job.to(Stage::Stop(p), action),
                ProgressView::Done(r) => job.stopped(r),
            },
        )
    }

    /// A step of a job that looks at the current app.
    pub open spec fn at_look(
        self,
        job: JobView,
        phase: LookPhase,
        reply: ReplyView,
        now: Moment,
    ) -> (SupervisorView, (JobView, ActionView)) {
        let (sup, look) = self.look_at(job.current(), phase, reply, job.opened, now);
        (
            sup,
            match look {
                LookView::Ask(p, action) => job.to(Stage::Look(p), action),
                LookView::Done(v) => job.looked(v),
            },
        )
    }

    /// A step of a job that stops the current app on schedule.
    pub open spec fn at_scheduled_stop(
        self,
        job: JobView,
        phase: StopPhase,
        revive: bool,
        reply: ReplyView,
        now: Moment,
    ) -> (SupervisorView, (JobView, ActionView)) {
        let (sup, progress) = self.stop_one(job.current(), phase, reply, now);
        (
            sup,
            match progress {
                ProgressView::Ask(p, action) => job.to(Stage::ScheduledStop(p, revive), action),
                ProgressView::Done(r) => job.stopped_on_schedule(r, revive),
            },
        )
    }

    /// A step of a job that starts the current app on schedule.
    pub open spec fn at_scheduled_start(
        self,
        job: JobView,
        phase: StartPhase,
        revive: bool,
        reply: ReplyView,
        now: Moment,
    ) -> (SupervisorView, (JobView, ActionView)) {
        let (sup, progress) = self.start_one(job.current(), phase, reply, now);
        (
            sup,
            match progress {
                ProgressView::Ask(p, action) => job.to(Stage::ScheduledStart(p, revive), action),
                ProgressView::Done(r) => job.started_on_schedule(r, revive),
            },
        )
    }

    /// A step of a job that starts the current app after a delay.
    pub open spec fn at_revive(
        self,
        job: JobView,
        phase: StartPhase,
        reply: ReplyView,
        now: Moment,
    ) -> (SupervisorView, (JobView, ActionView)) {
        let (sup, progress) = self.start_one(job.current(), phase, reply, now);
        (
            sup,
            match progress {
                ProgressView::Ask(p, action) => job.to(Stage::Revive(p), action),
                ProgressView::Done(_) => job.revived(),
            },
        )
    }

    /// A step of a job that asks for the next scheduled restart of the current
    /// app.
    pub open spec fn at_aim(self, job: JobView, revive: bool, now: Moment) -> (
        SupervisorView,
        (JobView, ActionView),
    ) {
        match self.schedule_for(job.current()) {
            Some(schedule) => (
                self,
                job.to(
                    Stage::Aimed(revive),
                    ActionView::NextOccurrence(schedule, job.aim_from(now)),
                ),
            ),
            None => (self.aimed(job.current(), None), job.aimed(revive)),
        }
    }

    /// One step of a job: what it does to what is remembered of the apps; how
    /// far it then is, and what is to be done next.
    pub open spec fn step(self, job: JobView, reply: ReplyView, now: Moment) -> (
        SupervisorView,
        (JobView, ActionView),
    ) {
        match (job.stage, reply) {
            (Stage::Next, ReplyView::Proceed) => (self, job.picked()),
            (Stage::Start(phase), _) => self.at_start(job, phase, reply, now),
            (Stage::Stop(phase), _) => self.at_stop(job, phase, reply, now),
            (Stage::Look(phase), _) => self.at_look(job, phase, reply, now),
            (Stage::ScheduledStop(phase, revive), _) => self.at_scheduled_stop(
                job,
                phase,
                revive,
                reply,
                now,
            ),
            (Stage::ScheduledStart(phase, revive), _) => self.at_scheduled_start(
                job,
                phase,
                revive,
                reply,
                now,
            ),
            (Stage::Aim(revive), ReplyView::Proceed) => self.at_aim(job, revive, now),
            (Stage::Aimed(revive), ReplyView::Due(at)) => (
                self.aimed(job.current(), at),
                job.aimed(revive),
            ),
            (Stage::Revive(phase), _) => self.at_revive(job, phase, reply, now),
            (Stage::Save, ReplyView::Persisted(problem)) => (self, job.saved(problem)),
            _ => (self, job.finished(Err(stray()))),
        }
    }
}

impl Job {
    /// What the job is for.
    pub fn goal(&self) -> (r: Goal)
        ensures
            r == self@.goal,
    {
        self.goal
    }

    fn to(self, stage: Stage, action: Action) -> (r: (Job, Action))
        requires
            self@.to(stage, action@).0.wf(),
        ensures
            (r.0@, r.1@) == self@.to(stage, action@),
    {
        (
            Job {
                goal: self.goal,
                queue: self.queue,
                ends: self.ends,
                at: self.at,
                stage,
                changed: self.changed,
                opened: self.opened,
            },
            action,
        )
    }

    fn finished(self, result: Result<Vec<String>, PyopsError>) -> (r: (Job, Action))
        ensures
            (r.0@, r.1@) == self@.finished(names_result(result)),
    {
        proof {
            use_type_invariant(&self);
        }
        self.to(Stage::Over, Action::Finish(result))
    }

    fn moved(self) -> (r: (Job, Action))
        requires
            self@.at < self@.queue.len(),
        ensures
            (r.0@, r.1@) == self@.moved(),
    {
        proof {
            use_type_invariant(&self);
        }
        assert(self.at < self.queue.len());
        (
            Job {
                goal: self.goal,
                queue: self.queue,
                ends: self.ends,
                at: self.at + 1,
                stage: Stage::Next,
                changed: self.changed,
                opened: self.opened,
            },
            Action::Proceed,
        )
    }

    fn skipped(self) -> (r: (Job, Action))
        requires
            self@.goal == Goal::Autostart,
            self@.at < self@.queue.len(),
        ensures
            (r.0@, r.1@) == self@.skipped(),
    {
        proof {
            use_type_invariant(&self);
        }
        let at: usize = self.ends[self.at];
        assert(self@.ends[self@.at] == at);
        (
            Job {
                goal: self.goal,
                queue: self.queue,
                ends: self.ends,
                at,
                stage: Stage::Next,
                changed: self.changed,
                opened: self.opened,
            },
            Action::Proceed,
        )
    }

    fn report(&self) -> (r: Vec<String>)
        ensures
            texts(r@) == self@.report(),
    {
        match self.goal {
            Goal::Start | Goal::Stop | Goal::Restart => clone_strings(&self.queue),
            _ => {
                let none: Vec<String> = Vec::new();
                assert(texts(none@) =~= Seq::empty());
                none
            },
        }
    }

    fn picked(self) -> (r: (Job, Action))
        ensures
            (r.0@, r.1@) == self@.picked(),
    {
        proof {
            use_type_invariant(&self);
        }
        if self.at < self.queue.len() {
            let stage = match self.goal {
                Goal::Start | Goal::Autostart => Stage::Start(StartPhase::Begin),
                Goal::Stop | Goal::Restart | Goal::Shutdown => Stage::Stop(StopPhase::Begin),
                Goal::Tick => Stage::Look(LookPhase::Begin),
                Goal::Refresh => Stage::Aim(false),
            };
            self.to(stage, Action::Proceed)
        } else {
            let save = match self.goal {
                Goal::Start | Goal::Stop | Goal::Restart | Goal::Shutdown => true,
                Goal::Tick => self.changed,
                _ => false,
            };
            if save {
                self.to(Stage::Save, Action::Persist)
            } else {
                let none: Vec<String> = Vec::new();
                assert(texts(none@) =~= Seq::empty());
                self.finished(Ok(none))
            }
        }
    }

    fn started(self, result: Result<(), PyopsError>) -> (r: (Job, Action))
        requires
            self@.stage is Start,
        ensures
            (r.0@, r.1@) == self@.started(outcome(result)),
    {
        proof {
            use_type_invariant(&self);
        }
        match (self.goal, result) {
            (Goal::Autostart, Ok(())) => {
                assert(self@.ends[self@.at] == self.ends@[self.at as int]);
                if self.at + 1 < self.ends[self.at] {
                    self.moved()
                } else {
                    self.to(Stage::Save, Action::Persist)
                }
            },
            (Goal::Autostart, Err(_)) => self.skipped(),
            (_, Ok(())) => self.moved(),
            (_, Err(e)) => self.finished(Err(e)),
        }
    }

    fn stopped(self, result: Result<(), PyopsError>) -> (r: (Job, Action))
        requires
            self@.stage is Stop,
        ensures
            (r.0@, r.1@) == self@.stopped(outcome(result)),
    {
        proof {
            use_type_invariant(&self);
        }
        match (self.goal, result) {
            (Goal::Restart, Ok(())) => self.to(Stage::Start(StartPhase::Begin), Action::Proceed),
            (Goal::Shutdown, Err(_)) => self.to(Stage::Save, Action::Persist),
            (_, Ok(())) => self.moved(),
            (_, Err(e)) => self.finished(Err(e)),
        }
    }

    fn with_change(self, changed: bool) -> (r: Job)
        ensures
            r@ == (JobView { changed: self@.changed || changed, ..self@ }),
    {
        proof {
            use_type_invariant(&self);
        }
        Job {
            goal: self.goal,
            queue: self.queue,
            ends: self.ends,
            at: self.at,
            stage: self.stage,
            changed: self.changed || changed,
            opened: self.opened,
        }
    }

    fn aimed(self, revive: bool) -> (r: (Job, Action))
        requires
            self@.stage.busy(),
            revive ==> self@.goal == Goal::Tick,
        ensures
            (r.0@, r.1@) == self@.aimed(revive),
    {
        proof {
            use_type_invariant(&self);
        }
        if revive {
            self.to(Stage::Revive(StartPhase::Begin), Action::Proceed)
        } else {
            self.moved()
        }
    }

    fn looked(self, v: Verdict) -> (r: (Job, Action))
        requires
            self@.stage is Look,
        ensures
            (r.0@, r.1@) == self@.looked(v),
    {
        let job = self.with_change(v.changed);
        proof {
            use_type_invariant(&job);
        }
        if v.due && v.allowed {
            job.to(Stage::ScheduledStop(StopPhase::Begin, v.revive), Action::Proceed)
        } else if v.due {
            job.to(Stage::Aim(v.revive), Action::Proceed)
        } else {
            job.aimed(v.revive)
        }
    }

    fn saved(self, problem: Option<PyopsError>) -> (r: (Job, Action))
        requires
            self@.stage is Save,
        ensures
            (r.0@, r.1@) == self@.saved(
                match problem {
                    Some(e) => Some(e@),
                    None => None,
                },
            ),
    {
        proof {
            use_type_invariant(&self);
        }
        let names = self.report();
        match self.goal {
            Goal::Autostart => self.moved(),
            Goal::Start | Goal::Stop | Goal::Restart => match problem {
                Some(e) => self.finished(Err(e)),
                None => self.finished(Ok(names)),
            },
            _ => self.finished(Ok(names)),
        }
    }
}

impl Supervisor {
    fn at_start(
        &mut self,
        job: Job,
        phase: StartPhase,
        reply: Reply,
        now: Moment,
    ) -> (r: (Job, Action))
        requires
            job@.stage == Stage::Start(phase),
        ensures
            (final(self)@, (r.0@, r.1@)) == old(self)@.at_start(job@, phase, reply@, now),
    {
        proof {
            use_type_invariant(&job);
        }
        let name = job.queue[job.at].clone();
        match self.start_one(name.as_str(), phase, reply, now) {
            Progress::Ask(p, action) => job.to(Stage::Start(p), action),
            Progress::Done(r) => job.started(r),
        }
    }

    fn at_stop(
        &mut self,
        job: Job,
        phase: StopPhase,
        reply: Reply,
        now: Moment,
    ) -> (r: (Job, Action))
        requires
            job@.stage == Stage::Stop(phase),
        ensures
            (final(self)@, (r.0@, r.1@)) == old(self)@.at_stop(job@, phase, reply@, now),
    {
        proof {
            use_type_invariant(&job);
        }
        let name = job.queue[job.at].clone();
        match self.stop_one(name.as_str(), phase, reply, now) {
            Progress::Ask(p, action) => job.to(Stage::Stop(p), action),
            Progress::Done(r) => job.stopped(r),
        }
    }

    fn at_look(
        &mut self,
        job: Job,
        phase: LookPhase,
        reply: Reply,
        now: Moment,
    ) -> (r: (Job, Action))
        requires
            job@.stage == Stage::Look(phase),
        ensures
            (final(self)@, (r.0@, r.1@)) == old(self)@.at_look(job@, phase, reply@, now),
    {
        proof {
            use_type_invariant(&job);
        }
        let name = job.queue[job.at].clone();
        match self.look_at(name.as_str(), phase, reply, job.opened, now) {
            Look::Ask(p, action) => job.to(Stage::Look(p), action),
            Look::Done(v) => job.looked(v),
        }
    }

    fn at_scheduled_stop(
        &mut self,
        job: Job,
        phase: StopPhase,
        revive: bool,
        reply: Reply,
        now: Moment,
    ) -> (r: (Job, Action))
        requires
            job@.stage == Stage::ScheduledStop(phase, revive),
        ensures
            (final(self)@, (r.0@, r.1@)) == old(self)@.at_scheduled_stop(job@, phase, revive, reply@, now),
    {
        proof {
            use_type_invariant(&job);
        }
        let name = job.queue[job.at].clone();
        match self.stop_one(name.as_str(), phase, reply, now) {
            Progress::Ask(p, action) => job.to(Stage::ScheduledStop(p, revive), action),
            Progress::Done(Ok(())) => job.to(
                Stage::ScheduledStart(StartPhase::Begin, revive),
                Action::Proceed,
            ),
            Progress::Done(Err(_)) => job.to(Stage::Aim(revive), Action::Proceed),
        }
    }

    fn at_scheduled_start(
        &mut self,
        job: Job,
        phase: StartPhase,
        revive: bool,
        reply: Reply,
        now: Moment,
    ) -> (r: (Job, Action))
        requires
            job@.stage == Stage::ScheduledStart(phase, revive),
        ensures
            (final(self)@, (r.0@, r.1@)) == old(self)@.at_scheduled_start(job@, phase, revive, reply@, now),
    {
        proof {
            use_type_invariant(&job);
        }
        let name = job.queue[job.at].clone();
        match self.start_one(name.as_str(), phase, reply, now) {
            Progress::Ask(p, action) => job.to(Stage::ScheduledStart(p, revive), action),
            Progress::Done(r) => job.with_change(r.is_ok()).to(Stage::Aim(revive), Action::Proceed),
        }
    }

    fn at_revive(
        &mut self,
        job: Job,
        phase: StartPhase,
        reply: Reply,
        now: Moment,
    ) -> (r: (Job, Action))
        requires
            job@.stage == Stage::Revive(phase),
        ensures
            (final(self)@, (r.0@, r.1@)) == old(self)@.at_revive(job@, phase, reply@, now),
    {
        proof {
            use_type_invariant(&job);
        }
        let name = job.queue[job.at].clone();
        match self.start_one(name.as_str(), phase, reply, now) {
            Progress::Ask(p, action) => job.to(Stage::Revive(p), action),
            Progress::Done(_) => job.with_change(true).moved(),
        }
    }

    fn at_aim(&mut self, job: Job, revive: bool, now: Moment) -> (r: (Job, Action))
        requires
            job@.stage == Stage::Aim(revive),
        ensures
            (final(self)@, (r.0@, r.1@)) == old(self)@.at_aim(job@, revive, now),
    {
        proof {
            use_type_invariant(&job);
        }
        let name = job.queue[job.at].clone();
        match self.schedule_for(name.as_str()) {
            Some(schedule) => {
                let from: u64 = if job.goal == Goal::Refresh {
                    job.opened.epoch
                } else {
                    now.epoch
                };
                job.to(Stage::Aimed(revive), Action::NextOccurrence(schedule, from))
            },
            None => {
                self.refresh_schedule_target_for(name.as_str(), None);
                job.aimed(revive)
            },
        }
    }

    /// One step of a job: takes what came of the last thing to do, and returns
    /// the job, further on, with the next thing to do.
    pub fn step(&mut self, job: Job, reply: Reply, now: Moment) -> (r: (Job, Action))
        ensures
            (final(self)@, (r.0@, r.1@)) == old(self)@.step(job@, reply@, now),
            old(self)@.wf() && old(self)@.admits(job@) ==> final(self)@.wf()
                && final(self)@.admits(r.0@),
            old(self)@.wf() && old(self)@.admits(job@) && old(self)@.on_course(job@)
                ==> final(self)@.on_course(r.0@),
    {
        proof {
            use_type_invariant(&job);
            if self@.wf() && self@.admits(job@) {
                law_jobs_keep_well_formed(self@, job@, reply@, now);
                if self@.on_course(job@) {
                    law_success_is_attained(self@, job@, reply@, now);
                }
            }
        }
        match (job.stage, reply) {
            (Stage::Next, Reply::Proceed) => job.picked(),
            (Stage::Start(phase), reply) => self.at_start(job, phase, reply, now),
            (Stage::Stop(phase), reply) => self.at_stop(job, phase, reply, now),
            (Stage::Look(phase), reply) => self.at_look(job, phase, reply, now),
            (Stage::ScheduledStop(phase, revive), reply) => self.at_scheduled_stop(
                job,
                phase,
                revive,
                reply,
                now,
            ),
            (Stage::ScheduledStart(phase, revive), reply) => self.at_scheduled_start(
                job,
                phase,
                revive,
                reply,
                now,
            ),
            (Stage::Aim(revive), Reply::Proceed) => self.at_aim(job, revive, now),
            (Stage::Aimed(revive), Reply::Due(at)) => {
                let name = job.queue[job.at].clone();
                self.refresh_schedule_target_for(name.as_str(), at);
                job.aimed(revive)
            },
            (Stage::Revive(phase), reply) => self.at_revive(job, phase, reply, now),
            (Stage::Save, Reply::Persisted(problem)) => job.saved(problem),
            _ => job.finished(Err(stray_reply())),
        }
    }
}

/// A job that begins.
pub open spec fn begun(goal: Goal, queue: Seq<Seq<char>>, now: Moment) -> JobView {
    JobView {
        goal,
        queue,
        ends: Seq::empty(),
        at: 0,
        stage: Stage::Next,
        changed: false,
        opened: now,
    }
}

/// The apps in the given groups, one after the other, and for each where its
/// group ends.
pub open spec fn lined_up(groups: Seq<Seq<Seq<char>>>) -> (Seq<Seq<char>>, Seq<int>)
    decreases groups.len(),
{
    if groups.len() == 0 {
        (Seq::empty(), Seq::empty())
    } else {
        let (queue, ends) = lined_up(groups.drop_last());
        let all = queue + groups.last();
        (all, ends + Seq::new(groups.last().len(), |k: int| all.len() as int))
    }
}

/// A job that begins to start the apps that are started with the agent: those of
/// each of the given groups together.
pub open spec fn begun_with_agent(groups: Seq<Seq<Seq<char>>>, now: Moment) -> JobView {
    let (queue, ends) = lined_up(groups);
    JobView { ends, ..begun(Goal::Autostart, queue, now) }
}

impl SupervisorView {
    /// The apps that `name_or_all` stands for.
    pub open spec fn meant(self, name_or_all: Seq<char>) -> Seq<Seq<char>> {
        if name_or_all == "all"@ {
            names_of(self.apps)
        } else {
            seq![name_or_all]
        }
    }
}

impl Supervisor {
    fn names(&self) -> (r: Vec<String>)
        ensures
            texts(r@) == names_of(self@.apps),
    {
        let mut out: Vec<String> = Vec::new();
        let mut i: usize = 0;
        while i < self.apps.len()
            invariant
                i <= self.apps@.len(),
                texts(out@) == names_of(self@.apps).take(i as int),
            decreases self.apps@.len() - i,
        {
            let ghost before = texts(out@);
            out.push(self.apps[i].spec.name.clone());
            assert(texts(out@) =~= before.push(self@.apps[i as int].0));
            assert(names_of(self@.apps).take(i + 1) =~= names_of(self@.apps).take(i as int).push(
                names_of(self@.apps)[i as int],
            ));
            i += 1;
        }
        assert(names_of(self@.apps).take(i as int) =~= names_of(self@.apps));
        out
    }

    fn meant(&self, name_or_all: &str) -> (r: Vec<String>)
        ensures
            texts(r@) == self@.meant(name_or_all@),
    {
        if same(name_or_all, "all") {
            self.names()
        } else {
            let mut one: Vec<String> = Vec::new();
            one.push(name_or_all.to_owned());
            assert(texts(one@) =~= seq![name_or_all@]);
            one
        }
    }

    fn begin(goal: Goal, queue: Vec<String>, now: Moment) -> (r: (Job, Action))
        requires
            goal != Goal::Autostart,
        ensures
            r.0@ == begun(goal, texts(queue@), now),
            r.1@ == ActionView::Proceed,
    {
        let ends: Vec<usize> = Vec::new();
        assert(places(ends@) =~= Seq::empty());
        (
            Job { goal, queue, ends, at: 0, stage: Stage::Next, changed: false, opened: now },
            Action::Proceed,
        )
    }

    /// Begins to start the app of that name, or all apps.
    pub fn start(&self, name_or_all: &str, now: Moment) -> (r: (Job, Action))
        ensures
            r.0@ == begun(Goal::Start, self@.meant(name_or_all@), now),
            r.1@ == ActionView::Proceed,
            self@.admits(r.0@),
            self@.on_course(r.0@),
    {
        proof {
            use_type_invariant(self);
            lemma_begun_on_course(self@, Goal::Start, name_or_all@, now);
        }
        Self::begin(Goal::Start, self.meant(name_or_all), now)
    }

    /// Begins to stop the app of that name, or all apps.
    pub fn stop(&self, name_or_all: &str, now: Moment) -> (r: (Job, Action))
        ensures
            r.0@ == begun(Goal::Stop, self@.meant(name_or_all@), now),
            r.1@ == ActionView::Proceed,
            self@.admits(r.0@),
            self@.on_course(r.0@),
    {
        proof {
            use_type_invariant(self);
            lemma_begun_on_course(self@, Goal::Stop, name_or_all@, now);
        }
        Self::begin(Goal::Stop, self.meant(name_or_all), now)
    }

    /// Begins to stop and start the app of that name, or each app.
    pub fn restart(&self, name_or_all: &str, now: Moment) -> (r: (Job, Action))
        ensures
            r.0@ == begun(Goal::Restart, self@.meant(name_or_all@), now),
            r.1@ == ActionView::Proceed,
            self@.admits(r.0@),
            self@.on_course(r.0@),
    {
        proof {
            use_type_invariant(self);
            lemma_begun_on_course(self@, Goal::Restart, name_or_all@, now);
        }
        Self::begin(Goal::Restart, self.meant(name_or_all), now)
    }

    /// Begins to stop all apps; the runtime state is written whatever comes of
    /// it.
    pub fn shutdown_all(&self, now: Moment) -> (r: (Job, Action))
        ensures
            r.0@ == begun(Goal::Shutdown, names_of(self@.apps), now),
            r.1@ == ActionView::Proceed,
            self@.admits(r.0@),
    {
        Self::begin(Goal::Shutdown, self.names(), now)
    }

    /// Begins to look after all apps once.
    pub fn tick(&self, now: Moment) -> (r: (Job, Action))
        ensures
            r.0@ == begun(Goal::Tick, names_of(self@.apps), now),
            r.1@ == ActionView::Proceed,
            self@.admits(r.0@),
    {
        Self::begin(Goal::Tick, self.names(), now)
    }

    /// Begins to find when each app is next restarted on schedule.
    pub fn refresh_all_schedule_targets(&self, now: Moment) -> (r: (Job, Action))
        ensures
            r.0@ == begun(Goal::Refresh, names_of(self@.apps), now),
            r.1@ == ActionView::Proceed,
            self@.admits(r.0@),
    {
        Self::begin(Goal::Refresh, self.names(), now)
    }

    fn autostarted(&self) -> (r: Vec<String>)
        ensures
            texts(r@) == self@.autostarted(),
    {
        let mut out: Vec<String> = Vec::new();
        let ghost apps = self@.apps;
        let ghost auto = |e: (Seq<char>, ManagedView)| e.1.spec.autostart;
        let mut i: usize = 0;
        proof {
            assert(apps.take(0).filter(auto) =~= Seq::empty()) by {
                reveal(Seq::filter);
            }
            assert(texts(out@) =~= names_of(apps.take(0).filter(auto)));
        }
        while i < self.apps.len()
            invariant
                apps == roster(self.apps@),
                auto == |e: (Seq<char>, ManagedView)| e.1.spec.autostart,
                i <= self.apps@.len(),
                texts(out@) == names_of(apps.take(i as int).filter(auto)),
            decreases self.apps@.len() - i,
        {
            let ghost before = texts(out@);
            let ghost entry = apps[i as int];
            proof {
                reveal(Seq::filter);
                assert(apps.take(i + 1).drop_last() =~= apps.take(i as int));
                assert(apps.take(i + 1).last() == entry);
                let kept = apps.take(i as int).filter(auto);
                assert(names_of(kept.push(entry)) =~= names_of(kept).push(entry.0));
            }
            if self.apps[i].spec.autostart {
                out.push(self.apps[i].spec.name.clone());
                assert(texts(out@) =~= before.push(entry.0));
            }
            i += 1;
        }
        assert(apps.take(i as int) =~= apps);
        out
    }

    /// Begins to start the apps that are started with the agent. Each of their
    /// names is taken as in a request: one that stands for all apps starts them
    /// all, up to the first that fails.
    pub fn start_autostart(&self, now: Moment) -> (r: (Job, Action))
        ensures
            r.0@ == begun_with_agent(self@.autostart_groups(), now),
            r.1@ == ActionView::Proceed,
            self@.admits(r.0@),
    {
        let names = self.autostarted();
        let mut queue: Vec<String> = Vec::new();
        let mut ends: Vec<usize> = Vec::new();
        let ghost groups = self@.autostart_groups();
        let mut i: usize = 0;
        assert(texts(queue@) =~= lined_up(groups.take(0)).0);
        assert(places(ends@) =~= lined_up(groups.take(0)).1);
        while i < names.len()
            invariant
                groups == self@.autostart_groups(),
                texts(names@) == self@.autostarted(),
                i <= names@.len(),
                (texts(queue@), places(ends@)) == lined_up(groups.take(i as int)),
                ends@.len() == queue@.len(),
                forall|k: int|
                    0 <= k < ends@.len() ==> k < #[trigger] ends@[k] <= queue@.len(),
            decreases names@.len() - i,
        {
            let mut group = self.meant(names[i].as_str());
            proof {
                assert(texts(names@)[i as int] == names@[i as int]@);
                assert(groups[i as int] == texts(group@));
                assert(groups.take(i + 1).drop_last() =~= groups.take(i as int));
                assert(groups.take(i + 1).last() == groups[i as int]);
            }
            let ghost before = queue@;
            let ghost old_ends = ends@;
            let size: usize = group.len();
            let ghost members = group@;
            queue.append(&mut group);
            assert(texts(queue@) =~= texts(before) + texts(members));
            let end: usize = queue.len();
            let mut k: usize = 0;
            while k < size
                invariant
                    k <= size,
                    end == old_ends.len() + size,
                    ends@ == old_ends + Seq::new(k as nat, |j: int| end),
                decreases size - k,
            {
                ends.push(end);
                k += 1;
                assert(ends@ =~= old_ends + Seq::new(k as nat, |j: int| end));
            }
            assert(places(ends@) =~= places(old_ends) + Seq::new(
                size as nat,
                |j: int| end as int,
            ));
            assert(lined_up(groups.take(i + 1)).1 =~= places(ends@));
            i += 1;
        }
        assert(groups.take(i as int) =~= groups);
        let job = Job {
            goal: Goal::Autostart,
            queue,
            ends,
            at: 0,
            stage: Stage::Next,
            changed: false,
            opened: now,
        };
        (job, Action::Proceed)
    }
}

// ---- The apps ----

impl AppSpecView {
    /// When the app is restarted on schedule; a schedule that cannot be read
    /// counts as none.
    pub open spec fn schedule(self) -> Option<RestartSchedule> {
        match self.restart_schedule {
            Some(text) => match schedule_of(text) {
                Ok(schedule) => Some(schedule),
                Err(_) => None,
            },
            None => None,
        }
    }
}

/// An app that was never started.
pub open spec fn fresh_app(spec: AppSpecView) -> ManagedView {
    ManagedView {
        spec,
        schedule: spec.schedule(),
        state: fresh_runtime(),
        child: false,
        recent: Seq::empty(),
        consecutive: 0,
    }
}

/// The apps of a configuration; of two with one name the later counts.
pub open spec fn enrolled(specs: Seq<AppSpecView>) -> Seq<(Seq<char>, ManagedView)>
    decreases specs.len(),
{
    if specs.len() == 0 {
        Seq::empty()
    } else {
        filed(enrolled(specs.drop_last()), specs.last().name, fresh_app(specs.last()))
    }
}

/// A supervisor of the apps of a configuration, none of which was started yet.
pub open spec fn opened(
    cfg: ConfigView,
    state_dir: Seq<char>,
    logs_dir: Seq<char>,
) -> SupervisorView {
    SupervisorView { state_dir, logs_dir, apps: enrolled(cfg.apps) }
}

impl Supervisor {
    fn enroll(&mut self, app: ManagedApp)
        requires
            old(self)@.wf(),
            app@.wf(),
        ensures
            final(self)@ == old(self)@.with(app@.spec.name, app@),
            final(self)@.wf(),
    {
        let ghost before = self@;
        let ghost entry = app@;
        proof {
            lemma_position(before.apps, entry.spec.name);
            lemma_filed(before.apps, entry.spec.name, entry, entry.spec.name);
        }
        let place = self.find(app.spec.name.as_str());
        let mut apps = self.lend();
        match place {
            Some(i) => {
                apps.set(i, app);
            },
            None => {
                apps.push(app);
            },
        }
        assert(roster(apps@) =~= filed(before.apps, entry.spec.name, entry));
        self.settle(apps);
    }

    /// The configuration and the state of the app of that name.
    pub fn get_app(&self, name: &str) -> (r: Result<AppDetails, PyopsError>)
        ensures
            outcome(r) == match lookup(self@.apps, name@) {
                Some(app) => Ok::<DetailsView, ErrorView>(
                    DetailsView { spec: app.spec, runtime: app.state },
                ),
                None => Err(unknown(name@)),
            },
    {
        match self.find(name) {
            Some(i) => {
                let details = AppDetails {
                    spec: self.apps[i].spec.clone(),
                    runtime: self.apps[i].state.clone(),
                };
                assert(details@ == DetailsView {
                    spec: self@.apps[i as int].1.spec,
                    runtime: self@.apps[i as int].1.state,
                });
                Ok(details)
            },
            None => Err(unknown_app(name)),
        }
    }

    /// Where the output of the app of that name is logged.
    pub fn log_paths(&self, name: &str) -> (r: Result<(String, String), PyopsError>)
        ensures
            outcome(r) == match lookup(self@.apps, name@) {
                Some(_) => Ok::<(Seq<char>, Seq<char>), ErrorView>(
                    (stdout_log(self@.logs_dir, name@), stderr_log(self@.logs_dir, name@)),
                ),
                None => Err(unknown(name@)),
            },
    {
        match self.find(name) {
            Some(i) => {
                proof {
                    lemma_position(self@.apps, name@);
                }
                assert(self@.apps[i as int].0 == self.apps@[i as int].spec.name@);
                Ok(log_files(self.logs_dir.as_str(), self.apps[i].spec.name.as_str()))
            },
            None => Err(unknown_app(name)),
        }
    }
}

// ---- Logs ----

/// What a log file holds.
pub enum LogText {
    Missing,
    Unreadable(IoFailure),
    Text(String),
}

pub enum LogTextView {
    Missing,
    Unreadable(ErrorView),
    Text(Seq<char>),
}

impl View for LogText {
    type V = LogTextView;

    open spec fn view(&self) -> LogTextView {
        match self {
            LogText::Missing => LogTextView::Missing,
            LogText::Unreadable(f) => LogTextView::Unreadable(ErrorView::Io(f.kind, f.message@)),
            LogText::Text(t) => LogTextView::Text(t@),
        }
    }
}

/// The last `n` of `lines`, or all of them.
pub open spec fn last_lines(lines: Seq<Seq<char>>, n: usize) -> Seq<Seq<char>> {
    if lines.len() > n {
        lines.skip(lines.len() - n)
    } else {
        lines
    }
}

/// The last `n` lines of a log file; a missing one has none.
pub open spec fn tail_of(log: LogTextView, n: usize) -> Result<Seq<Seq<char>>, ErrorView> {
    match log {
        LogTextView::Missing => Ok(Seq::empty()),
        LogTextView::Unreadable(e) => Err(e),
        LogTextView::Text(t) => Ok(last_lines(line_seq(t), n)),
    }
}

/// The last lines of the logs that `source` names, standard output first.
pub open spec fn tails_of(
    source: LogSource,
    out: LogTextView,
    err: LogTextView,
    n: usize,
) -> Result<Seq<Seq<char>>, ErrorView> {
    match source {
        LogSource::Stdout => tail_of(out, n),
        LogSource::Stderr => tail_of(err, n),
        LogSource::Both => match (tail_of(out, n), tail_of(err, n)) {
            (Ok(a), Ok(b)) => Ok(a + b),
            (Err(e), _) => Err(e),
            (_, Err(e)) => Err(e),
        },
    }
}

impl Supervisor {
    /// The last `tail` lines of a log file.
    pub fn tail_file(log: LogText, tail: usize) -> (r: Result<Vec<String>, PyopsError>)
        ensures
            names_result(r) == tail_of(log@, tail),
    {
        match log {
            LogText::Missing => {
                let none: Vec<String> = Vec::new();
                assert(texts(none@) =~= Seq::empty());
                Ok(none)
            },
            LogText::Unreadable(f) => Err(PyopsError::Io(f)),
            LogText::Text(text) => {
                let mut lines = split_lines(text.as_str());
                let ghost all = texts(lines@);
                assert(all.len() == lines@.len());
                if lines.len() > tail {
                    let drop_count: usize = lines.len() - tail;
                    let kept = lines.split_off(drop_count);
                    assert(texts(kept@) =~= all.skip(drop_count as int));
                    lines = kept;
                }
                Ok(lines)
            },
        }
    }

    /// The last `tail` lines of the logs of the app of that name, given what
    /// its log files hold.
    pub fn tail_logs(
        &self,
        name: &str,
        source: LogSource,
        tail: usize,
        out: LogText,
        err: LogText,
    ) -> (r: Result<Vec<String>, PyopsError>)
        ensures
            names_result(r) == match lookup(self@.apps, name@) {
                Some(_) => tails_of(source, out@, err@, tail),
                None => Err(unknown(name@)),
            },
    {
        if self.find(name).is_none() {
            return Err(unknown_app(name));
        }
        match source {
            LogSource::Stdout => Self::tail_file(out, tail),
            LogSource::Stderr => Self::tail_file(err, tail),
            LogSource::Both => {
                let mut lines = Self::tail_file(out, tail)?;
                let mut more = Self::tail_file(err, tail)?;
                let ghost a = texts(lines@);
                let ghost b = texts(more@);
                lines.append(&mut more);
                assert(texts(lines@) =~= a + b);
                Ok(lines)
            },
        }
    }
}

// ---- Lists ----

/// The app in a list; `present` holds the paths at which something exists.
pub open spec fn summary_of(app: ManagedView, present: Seq<Seq<char>>) -> SummaryView {
    SummaryView {
        name: app.spec.name,
        cwd: app.spec.cwd,
        command: app.spec.command_line(present.contains(app.spec.uvicorn())),
        entry: app.spec.entry,
        restart: app.spec.restart,
        runtime: app.state,
    }
}

impl SupervisorView {
    /// The apps, as they are listed, in the order in which they are kept.
    pub open spec fn summaries(self, present: Seq<Seq<char>>) -> Seq<SummaryView> {
        self.apps.map_values(|e: (Seq<char>, ManagedView)| summary_of(e.1, present))
    }

    /// Where each app would have its own `uvicorn`.
    pub open spec fn uvicorns(self) -> Seq<Seq<char>> {
        self.apps.map_values(|e: (Seq<char>, ManagedView)| e.1.spec.uvicorn())
    }
}

fn holds(paths: &Vec<String>, path: &str) -> (r: bool)
    ensures
        r == texts(paths@).contains(path@),
{
    let mut i: usize = 0;
    while i < paths.len()
        invariant
            i <= paths@.len(),
            forall|j: int| 0 <= j < i ==> (#[trigger] texts(paths@)[j]) != path@,
        decreases paths@.len() - i,
    {
        assert(texts(paths@)[i as int] == paths@[i as int]@);
        if same(paths[i].as_str(), path) {
            return true;
        }
        i += 1;
    }
    false
}

impl Supervisor {
    /// Where each app would have its own `uvicorn`.
    pub fn uvicorn_paths(&self) -> (r: Vec<String>)
        ensures
            texts(r@) == self@.uvicorns(),
    {
        let mut out: Vec<String> = Vec::new();
        let mut i: usize = 0;
        while i < self.apps.len()
            invariant
                i <= self.apps@.len(),
                texts(out@) == self@.uvicorns().take(i as int),
            decreases self.apps@.len() - i,
        {
            let ghost before = texts(out@);
            out.push(uvicorn_path(&self.apps[i].spec));
            assert(texts(out@) =~= before.push(self@.uvicorns()[i as int]));
            assert(self@.uvicorns().take(i + 1) =~= before.push(self@.uvicorns()[i as int]));
            i += 1;
        }
        assert(self@.uvicorns().take(i as int) =~= self@.uvicorns());
        out
    }

    /// The apps in the order of their names; `present` holds those of their
    /// `uvicorn_paths` at which something exists.
    pub fn list_apps(&self, present: &Vec<String>) -> (r: Vec<AppSummary>)
        ensures
            summaries_view(r@) == by_name(self@.summaries(texts(present@))),
    {
        let ghost all = self@.summaries(texts(present@));
        let mut out: Vec<AppSummary> = Vec::new();
        let mut i: usize = 0;
        assert(summaries_view(out@) =~= all.take(0));
        while i < self.apps.len()
            invariant
                all == self@.summaries(texts(present@)),
                i <= self.apps@.len(),
                summaries_view(out@) == all.take(i as int),
            decreases self.apps@.len() - i,
        {
            let ghost before = summaries_view(out@);
            let spec = &self.apps[i].spec;
            let own = uvicorn_path(spec);
            let summary = AppSummary {
                name: spec.name.clone(),
                cwd: spec.cwd.clone(),
                command: effective_command(spec, holds(present, own.as_str())),
                entry: spec.entry.clone(),
                restart: spec.restart,
                runtime: self.apps[i].state.clone(),
            };
            assert(summary@ == all[i as int]);
            out.push(summary);
            assert(summaries_view(out@) =~= before.push(all[i as int]));
            assert(all.take(i + 1) =~= before.push(all[i as int]));
            i += 1;
        }
        assert(all.take(i as int) =~= all);
        sort_by_name(out)
    }
}

// ---- Persistence ----

/// What is kept of the apps on disk.
pub struct PersistedRuntimeState {
    pub schema_version: u32,
    pub apps: NameMap<AppRuntimeState>,
}

pub struct PersistedView {
    pub schema_version: u32,
    pub apps: Seq<(Seq<char>, RuntimeView)>,
}

/// The states in a table, each under its name.
pub open spec fn states_view(m: Seq<(Seq<char>, AppRuntimeState)>) -> Seq<
    (Seq<char>, RuntimeView),
> {
    m.map_values(|e: (Seq<char>, AppRuntimeState)| (e.0, e.1@))
}

impl View for PersistedRuntimeState {
    type V = PersistedView;

    open spec fn view(&self) -> PersistedView {
        PersistedView { schema_version: self.schema_version, apps: states_view(self.apps@) }
    }
}

/// The version of what is kept on disk.
pub fn default_runtime_schema_version() -> (r: u32)
    ensures
        r == 1,
{
    1
}

/// What was found on disk.
pub enum RuntimeSource {
    Missing,
    Unreadable(PyopsError),
    Parsed(PersistedRuntimeState),
}

pub enum RuntimeSourceView {
    Missing,
    Unreadable(ErrorView),
    Parsed(PersistedView),
}

impl View for RuntimeSource {
    type V = RuntimeSourceView;

    open spec fn view(&self) -> RuntimeSourceView {
        match self {
            RuntimeSource::Missing => RuntimeSourceView::Missing,
            RuntimeSource::Unreadable(e) => RuntimeSourceView::Unreadable(e@),
            RuntimeSource::Parsed(p) => RuntimeSourceView::Parsed(p@),
        }
    }
}

/// A state from disk, given the processes that are alive: an app whose process
/// is gone, or that has none, does not run.
pub open spec fn sanitized(state: RuntimeView, alive: Seq<u32>) -> RuntimeView {
    if state.status != AppStatus::Running {
        state
    } else {
        match state.pid {
            Some(pid) if alive.contains(pid) => state,
            _ => RuntimeView {
                status: AppStatus::Stopped,
                pid: None,
                started_at: if state.pid is Some {
                    None
                } else {
                    state.started_at
                },
                ..state
            },
        }
    }
}

impl SupervisorView {
    /// The states of the apps, each under its name.
    pub open spec fn snapshot(self) -> Seq<(Seq<char>, RuntimeView)> {
        self.apps.map_values(|e: (Seq<char>, ManagedView)| (e.0, e.1.state))
    }

    /// What is kept of the apps on disk.
    pub open spec fn persisted(self) -> PersistedView {
        PersistedView { schema_version: 1, apps: self.snapshot() }
    }

    /// With the states from disk, of the apps that have one there.
    pub open spec fn restored(
        self,
        states: Seq<(Seq<char>, RuntimeView)>,
        alive: Seq<u32>,
    ) -> SupervisorView {
        SupervisorView {
            apps: self.apps.map_values(
                |e: (Seq<char>, ManagedView)|
                    (
                        e.0,
                        match lookup(states, e.0) {
                            Some(state) => ManagedView { state: sanitized(state, alive), ..e.1 },
                            None => e.1,
                        },
                    ),
            ),
            ..self
        }
    }

    /// After what was found on disk was taken over, and what came of it.
    pub open spec fn restored_from(self, source: RuntimeSourceView, alive: Seq<u32>) -> (
        SupervisorView,
        Result<(), ErrorView>,
    ) {
        match source {
            RuntimeSourceView::Missing => (self, Ok(())),
            RuntimeSourceView::Unreadable(e) => (self, Err(e)),
            RuntimeSourceView::Parsed(p) => if p.schema_version != 1 {
                (
                    self,
                    Err(
                        ErrorView::Supervisor(
                            "unsupported runtime_state schema_version "@ + decimal_int(
                                p.schema_version as int,
                            ) + ", expected "@ + decimal_int(1),
                        ),
                    ),
                )
            } else {
                (self.restored(p.apps, alive), Ok(()))
            },
        }
    }

    /// Whether the agent has no child.
    pub open spec fn childless(self) -> bool {
        forall|i: int| 0 <= i < self.apps.len() ==> !(#[trigger] self.apps[i]).1.child
    }
}

/// The process that a state names as running.
pub open spec fn running_pid(state: RuntimeView) -> Option<u32> {
    if state.status == AppStatus::Running {
        state.pid
    } else {
        None
    }
}

impl PersistedRuntimeState {
    /// The processes that are to be looked for before the states are taken over.
    pub fn running_pids(&self) -> (r: Vec<u32>)
        ensures
            r@ == self@.apps.filter_map(|e: (Seq<char>, RuntimeView)| running_pid(e.1)),
    {
        let ghost all = self@.apps;
        let ghost f = |e: (Seq<char>, RuntimeView)| running_pid(e.1);
        let n = self.apps.len();
        let mut out: Vec<u32> = Vec::new();
        let mut i: usize = 0;
        while i < n
            invariant
                n == self.apps@.len(),
                all == states_view(self.apps@),
                f == |e: (Seq<char>, RuntimeView)| running_pid(e.1),
                i <= n,
                out@ == all.take(i as int).filter_map(f),
            decreases n - i,
        {
            let state = self.apps.value_at(i);
            proof {
                assert(all.take(i + 1).drop_last() =~= all.take(i as int));
                assert(all.take(i + 1).last() == (all[i as int].0, state@));
            }
            let ghost before = out@;
            if state.status == AppStatus::Running {
                if let Some(pid) = state.pid {
                    out.push(pid);
                    assert(out@ =~= before + seq![pid]);
                }
            }
            i += 1;
        }
        assert(all.take(i as int) =~= all);
        out
    }
}

fn sanitize(state: &AppRuntimeState, alive: &Vec<u32>) -> (r: AppRuntimeState)
    ensures
        r@ == sanitized(state@, alive@),
{
    let mut out = state.clone();
    if out.status == AppStatus::Running {
        match out.pid {
            Some(pid) => {
                let mut found = false;
                let mut i: usize = 0;
                while i < alive.len()
                    invariant
                        i <= alive@.len(),
                        found == alive@.take(i as int).contains(pid),
                    decreases alive@.len() - i,
                {
                    assert(alive@.take(i + 1) =~= alive@.take(i as int).push(alive@[i as int]));
                    proof {
                        vstd::seq_lib::lemma_seq_contains_after_push(
                            alive@.take(i as int),
                            alive@[i as int],
                            pid,
                        );
                    }
                    if alive[i] == pid {
                        found = true;
                    }
                    i += 1;
                }
                assert(alive@.take(i as int) =~= alive@);
                if !found {
                    out.status = AppStatus::Stopped;
                    out.pid = None;
                    out.started_at = None;
                }
            },
            None => {
                out.status = AppStatus::Stopped;
            },
        }
    }
    out
}

/// Where the states of the apps are kept on disk.
pub open spec fn states_file(state_dir: Seq<char>) -> Seq<char> {
    joined(state_dir, "runtime_state.json"@)
}

/// Where the states of the apps are kept on disk.
pub fn states_path(state_dir: &str) -> (r: String)
    ensures
        r@ == states_file(state_dir@),
{
    join_path(state_dir, "runtime_state.json")
}

impl Supervisor {
    /// Where the states of the apps are kept on disk.
    pub fn runtime_state_path(&self) -> (r: String)
        ensures
            r@ == states_file(self@.state_dir),
    {
        states_path(self.state_dir.as_str())
    }

    /// The states of the apps, each under its name.
    pub fn runtime_snapshot(&self) -> (r: NameMap<AppRuntimeState>)
        ensures
            states_view(r@) == self@.snapshot(),
    {
        proof {
            use_type_invariant(self);
        }
        let ghost all = self@.snapshot();
        let mut out: NameMap<AppRuntimeState> = NameMap::new();
        let mut i: usize = 0;
        assert(states_view(out@) =~= all.take(0));
        while i < self.apps.len()
            invariant
                all == self@.snapshot(),
                distinct(self@.apps),
                i <= self.apps@.len(),
                states_view(out@) == all.take(i as int),
            decreases self.apps@.len() - i,
        {
            let name = self.apps[i].spec.name.clone();
            let state = self.apps[i].state.clone();
            let ghost before = out@;
            assert(name@ == self@.apps[i as int].0);
            proof {
                assert(before.len() == states_view(before).len());
                assert forall|j: int| 0 <= j < before.len() implies (#[trigger] before[j]).0
                    != name@ by {
                    assert(states_view(before)[j] == all[j]);
                    assert(self@.apps[j].0 != self@.apps[i as int].0);
                }
                lemma_position_is(before, name@, before.len() as int);
            }
            let ghost kept = state@;
            out.insert(name, state);
            assert(states_view(out@) =~= states_view(before).push((name@, kept)));
            assert(all.take(i + 1) =~= all.take(i as int).push(all[i as int]));
            i += 1;
        }
        assert(all.take(i as int) =~= all);
        out
    }

    /// What is to be kept of the apps on disk.
    pub fn persisted_state(&self) -> (r: PersistedRuntimeState)
        ensures
            r@ == self@.persisted(),
    {
        PersistedRuntimeState {
            schema_version: default_runtime_schema_version(),
            apps: self.runtime_snapshot(),
        }
    }

    /// Takes over what was found on disk, given those of its `running_pids` that
    /// are alive.
    pub fn restore_runtime_state(&mut self, source: RuntimeSource, alive: &Vec<u32>) -> (r: Result<
        (),
        PyopsError,
    >)
        ensures
            (final(self)@, outcome(r)) == old(self)@.restored_from(source@, alive@),
            old(self)@.wf() && old(self)@.childless() ==> final(self)@.wf()
                && final(self)@.childless(),
    {
        let persisted = match source {
            RuntimeSource::Missing => return Ok(()),
            RuntimeSource::Unreadable(e) => return Err(e),
            RuntimeSource::Parsed(p) => p,
        };
        let version = default_runtime_schema_version();
        if persisted.schema_version != version {
            let found = u64_text(persisted.schema_version as u64);
            let expected = u64_text(version as u64);
            return Err(
                PyopsError::Supervisor(
                    cat4(
                        "unsupported runtime_state schema_version ",
                        found.as_str(),
                        ", expected ",
                        expected.as_str(),
                    ),
                ),
            );
        }
        let ghost before = self@;
        let ghost states = persisted@.apps;
        let ghost target = before.restored(states, alive@).apps;
        let mut apps = self.lend();
        let mut i: usize = 0;
        while i < apps.len()
            invariant
                states == states_view(persisted.apps@),
                target == before.restored(states, alive@).apps,
                apps@.len() == before.apps.len(),
                i <= apps@.len(),
                forall|j: int| 0 <= j < i ==> (#[trigger] roster(apps@)[j]) == target[j],
                forall|j: int|
                    i <= j < before.apps.len() ==> (#[trigger] roster(apps@)[j]) == before.apps[j],
            decreases apps@.len() - i,
        {
            let ghost now = roster(apps@);
            assert(now[i as int] == before.apps[i as int]);
            let name = apps[i].spec.name.clone();
            proof {
                lemma_position(persisted.apps@, name@);
                lemma_states_position(persisted.apps@, name@);
            }
            if let Some(state) = persisted.apps.get(name.as_str()) {
                let clean = sanitize(state, alive);
                apps[i].state = clean;
            }
            assert forall|j: int| 0 <= j < apps@.len() && j != i implies (
            #[trigger] roster(apps@)[j]) == now[j] by {}
            assert(roster(apps@)[i as int] == target[i as int]);
            i += 1;
        }
        assert(roster(apps@) =~= target);
        self.settle(apps);
        Ok(())
    }
}

impl Supervisor {
    fn enroll_all(cfg: &ConfigFile, state_dir: String, logs_dir: String) -> (r: Self)
        ensures
            r@ == opened(cfg@, state_dir@, logs_dir@),
            r@.wf(),
            r@.childless(),
    {
        let mut sup = Supervisor { state_dir, logs_dir, apps: Vec::new() };
        let ghost specs = cfg@.apps;
        let mut i: usize = 0;
        assert(sup@.apps =~= enrolled(specs.take(0)));
        while i < cfg.apps.len()
            invariant
                specs == cfg@.apps,
                i <= cfg.apps@.len(),
                sup@.wf(),
                sup@.childless(),
                sup@ == (SupervisorView {
                    state_dir: state_dir@,
                    logs_dir: logs_dir@,
                    apps: enrolled(specs.take(i as int)),
                }),
            decreases cfg.apps@.len() - i,
        {
            let spec = cfg.apps[i].clone();
            let schedule = match &spec.restart_schedule {
                Some(text) => match parse_restart_schedule(text.as_str()) {
                    Ok(schedule) => Some(schedule),
                    Err(_) => None,
                },
                None => None,
            };
            proof {
                assert(specs.take(i + 1).drop_last() =~= specs.take(i as int));
                assert(specs.take(i + 1).last() == spec@);
            }
            let app = ManagedApp {
                spec,
                schedule,
                state: AppRuntimeState::default(),
                child: false,
                recent_restarts: VecDeque::new(),
                consecutive_restarts: 0,
            };
            assert(app@ == fresh_app(specs[i as int]));
            let ghost before = sup@;
            proof {
                lemma_position(before.apps, app@.spec.name);
            }
            sup.enroll(app);
            i += 1;
        }
        assert(specs.take(i as int) =~= specs);
        sup
    }

    /// A supervisor of the apps of `cfg`, in the states that were found on disk,
    /// given those of the processes named there that are alive. What cannot be
    /// taken over counts as nothing found.
    pub fn new(
        cfg: ConfigFile,
        state_dir: String,
        logs_dir: String,
        source: RuntimeSource,
        alive: &Vec<u32>,
    ) -> (r: Self)
        ensures
            r@ == opened(cfg@, state_dir@, logs_dir@).restored_from(source@, alive@).0,
            r@.wf(),
            r@.childless(),
    {
        let mut sup = Self::enroll_all(&cfg, state_dir, logs_dir);
        let _ = sup.restore_runtime_state(source, alive);
        sup
    }
}

proof fn lemma_states_position(m: Seq<(Seq<char>, AppRuntimeState)>, name: Seq<char>)
    ensures
        position(states_view(m), name) == position(m, name),
{
    lemma_position(m, name);
    let p = position(m, name);
    assert forall|j: int| 0 <= j < p implies (#[trigger] states_view(m)[j]).0 != name by {
        assert(m[j].0 != name);
    }
    lemma_position_is(states_view(m), name, p);
}

// ---- Laws ----

impl SupervisorView {
    /// Whether a job can be so while the apps are so.
    pub open spec fn admits(self, job: JobView) -> bool {
        &&& job.wf()
        &&& match lookup(self.apps, job.current()) {
            None => true,
            Some(app) => match job.stage {
                Stage::Start(phase) => phase.fits(app),
                Stage::ScheduledStart(phase, _) => phase.fits(app),
                Stage::Revive(phase) => phase.fits(app),
                Stage::Stop(phase) => phase.fits(app),
                Stage::ScheduledStop(phase, _) => phase.fits(app),
                Stage::Look(phase) => phase.fits(app),
                _ => true,
            },
        }
    }
}

pub proof fn lemma_with(sup: SupervisorView, name: Seq<char>, app: ManagedView)
    requires
        sup.wf(),
        lookup(sup.apps, name) is Some,
        lookup(sup.apps, name)->0.still(app),
    ensures
        sup.with(name, app).wf(),
        lookup(sup.with(name, app).apps, name) == Some(app),
        names_of(sup.with(name, app).apps) == names_of(sup.apps),
{
    lemma_position(sup.apps, name);
    lemma_filed(sup.apps, name, app, name);
    assert(names_of(sup.with(name, app).apps) =~= names_of(sup.apps));
}

/// Every step of a job keeps the supervisor well formed, with the same apps, and
/// leaves a job that it admits: whatever is done outside, and whatever comes of
/// it, no app is ever held to have a child without a running process.
pub proof fn law_jobs_keep_well_formed(
    sup: SupervisorView,
    job: JobView,
    reply: ReplyView,
    now: Moment,
)
    requires
        sup.wf(),
        sup.admits(job),
    ensures
        ({
            let (after, (further, _)) = sup.step(job, reply, now);
            &&& after.wf()
            &&& after.admits(further)
            &&& names_of(after.apps) == names_of(sup.apps)
            &&& after.logs_dir == sup.logs_dir
            &&& after.state_dir == sup.state_dir
        }),
{
    let name = job.current();
    lemma_position(sup.apps, name);
    match lookup(sup.apps, name) {
        None => {},
        Some(app) => {
            match job.stage {
                Stage::Start(phase) => lemma_start_admits(sup, name, phase, reply, now),
                Stage::ScheduledStart(phase, _) => lemma_start_admits(
                    sup,
                    name,
                    phase,
                    reply,
                    now,
                ),
                Stage::Revive(phase) => lemma_start_admits(sup, name, phase, reply, now),
                Stage::Stop(phase) => lemma_stop_admits(sup, name, phase, reply, now),
                Stage::ScheduledStop(phase, _) => lemma_stop_admits(sup, name, phase, reply, now),
                Stage::Look(phase) => {
                    crate::lifecycle::law_look_keeps_well_formed(
                        app,
                        phase,
                        reply,
                        job.opened,
                        now,
                    );
                    lemma_with(sup, name, app.look_step(phase, reply, job.opened, now).0);
                },
                Stage::Aim(_) => lemma_with(sup, name, app.aimed(None)),
                Stage::Aimed(_) => {
                    if reply is Due {
                        lemma_with(sup, name, app.aimed(reply->Due_0));
                    }
                },
                _ => {},
            }
        },
    }
}

pub proof fn lemma_start_admits(
    sup: SupervisorView,
    name: Seq<char>,
    phase: StartPhase,
    reply: ReplyView,
    now: Moment,
)
    requires
        sup.wf(),
        lookup(sup.apps, name) is Some,
        phase.fits(lookup(sup.apps, name)->0),
    ensures
        ({
            let (after, progress) = sup.start_one(name, phase, reply, now);
            &&& after.wf()
            &&& lookup(after.apps, name) is Some
            &&& progress matches ProgressView::Ask(next, _) ==> next.fits(
                lookup(after.apps, name)->0,
            )
            &&& names_of(after.apps) == names_of(sup.apps)
        }),
{
    let app = lookup(sup.apps, name)->0;
    lemma_position(sup.apps, name);
    crate::lifecycle::law_start_keeps_well_formed(app, sup.logs_dir, phase, reply, now);
    lemma_with(sup, name, app.start_step(sup.logs_dir, phase, reply, now).0);
}

pub proof fn lemma_stop_admits(
    sup: SupervisorView,
    name: Seq<char>,
    phase: StopPhase,
    reply: ReplyView,
    now: Moment,
)
    requires
        sup.wf(),
        lookup(sup.apps, name) is Some,
        phase.fits(lookup(sup.apps, name)->0),
    ensures
        ({
            let (after, progress) = sup.stop_one(name, phase, reply, now);
            &&& after.wf()
            &&& lookup(after.apps, name) is Some
            &&& progress matches ProgressView::Ask(next, _) ==> next.fits(
                lookup(after.apps, name)->0,
            )
            &&& names_of(after.apps) == names_of(sup.apps)
        }),
{
    let app = lookup(sup.apps, name)->0;
    lemma_position(sup.apps, name);
    crate::lifecycle::law_stop_keeps_well_formed(app, phase, reply, now);
    lemma_with(sup, name, app.stop_step(phase, reply, now).0);
}

/// A request to start, stop or restart an app that is not configured fails and
/// changes nothing.
pub proof fn law_unknown_app_is_refused(
    sup: SupervisorView,
    goal: Goal,
    name: Seq<char>,
    now: Moment,
)
    requires
        goal == Goal::Start || goal == Goal::Stop || goal == Goal::Restart,
        name != "all"@,
        lookup(sup.apps, name) is None,
    ensures
        ({
            let (one, (job, first)) = sup.step(
                begun(goal, sup.meant(name), now),
                ReplyView::Proceed,
                now,
            );
            let (two, (_, second)) = one.step(job, ReplyView::Proceed, now);
            &&& first == ActionView::Proceed
            &&& two == sup
            &&& second == ActionView::Finish(Err(unknown(name)))
        }),
        unknown(name) == ErrorView::Supervisor("unknown app '"@ + name + "'"@),
{
}

/// A request to start, stop or restart apps reports success only when the
/// runtime state was written, and then for the apps it was about.
pub proof fn law_success_is_saved(
    sup: SupervisorView,
    job: JobView,
    reply: ReplyView,
    now: Moment,
)
    requires
        job.goal == Goal::Start || job.goal == Goal::Stop || job.goal == Goal::Restart,
        job.wf(),
    ensures
        sup.step(job, reply, now).1.1 matches ActionView::Finish(Ok(names)) ==> {
            &&& job.stage is Save
            &&& reply == ReplyView::Persisted(None)
            &&& names == job.queue
        },
{
    lemma_asks_no_finish(sup, reply, now);
}

/// What a step of a start, a stop or a look asks for is never the end of a job.
pub proof fn lemma_asks_no_finish(sup: SupervisorView, reply: ReplyView, now: Moment)
    ensures
        forall|name: Seq<char>, phase: StartPhase|
            (#[trigger] sup.start_one(name, phase, reply, now)).1 matches ProgressView::Ask(_, a)
                ==> !(a is Finish),
        forall|name: Seq<char>, phase: StopPhase|
            (#[trigger] sup.stop_one(name, phase, reply, now)).1 matches ProgressView::Ask(_, a)
                ==> !(a is Finish),
{
    reveal(ManagedView::start_step);
    reveal(ManagedView::stop_step);
}

/// What the agent does of its own accord goes on whatever fails on the way: it
/// ends in an error only where a reply answered something else.
pub proof fn law_background_jobs_go_on(
    sup: SupervisorView,
    job: JobView,
    reply: ReplyView,
    now: Moment,
)
    requires
        job.goal == Goal::Tick || job.goal == Goal::Shutdown || job.goal == Goal::Autostart
            || job.goal == Goal::Refresh,
        job.wf(),
    ensures
        sup.step(job, reply, now).1.1 matches ActionView::Finish(Err(e)) ==> e == stray(),
{
    lemma_asks_no_finish(sup, reply, now);
    reveal(ManagedView::look_step);
}

/// A round that found or made a change ends with the runtime state written.
pub proof fn law_changes_are_saved(sup: SupervisorView, job: JobView, now: Moment)
    requires
        job.goal == Goal::Tick,
        job.stage is Next,
        job.at >= job.queue.len(),
    ensures
        sup.step(job, ReplyView::Proceed, now).1.1 == if job.changed {
            ActionView::Persist
        } else {
            ActionView::Finish(Ok(Seq::empty()))
        },
{
}

/// What is written is what is read back: an app of the same name gets the state
/// it had, except that one held to run whose process is gone is stopped. No app
/// is held to run without a live process.
pub proof fn law_saved_state_is_restored(
    saved: SupervisorView,
    fresh: SupervisorView,
    alive: Seq<u32>,
    i: int,
)
    requires
        saved.wf(),
        names_of(fresh.apps) == names_of(saved.apps),
        0 <= i < saved.apps.len(),
    ensures
        ({
            let (after, result) = fresh.restored_from(
                RuntimeSourceView::Parsed(saved.persisted()),
                alive,
            );
            let state = after.apps[i].1.state;
            &&& result is Ok
            &&& after.apps[i].0 == saved.apps[i].0
            &&& state == sanitized(saved.apps[i].1.state, alive)
            &&& state.status == AppStatus::Running ==> state.pid is Some && alive.contains(
                state.pid->0,
            )
            &&& (running_pid(saved.apps[i].1.state) matches Some(pid) ==> alive.contains(pid)) && (
            saved.apps[i].1.state.status == AppStatus::Running
                ==> saved.apps[i].1.state.pid is Some) ==> state == saved.apps[i].1.state
        }),
{
    let states = saved.snapshot();
    assert(names_of(fresh.apps).len() == fresh.apps.len());
    assert(names_of(saved.apps).len() == saved.apps.len());
    assert(names_of(fresh.apps)[i] == fresh.apps[i].0);
    assert(names_of(saved.apps)[i] == saved.apps[i].0);
    assert forall|j: int| 0 <= j < i implies (#[trigger] states[j]).0 != saved.apps[i].0 by {
        assert(saved.apps[j].0 != saved.apps[i].0);
    }
    lemma_position_is(states, saved.apps[i].0, i);
}

/// In a restart an app is started only once it is stopped.
pub proof fn law_restart_stops_first(
    sup: SupervisorView,
    job: JobView,
    reply: ReplyView,
    now: Moment,
)
    requires
        sup.wf(),
        sup.admits(job),
        job.goal == Goal::Restart,
        job.stage is Stop,
        sup.step(job, reply, now).1.0.stage is Start,
    ensures
        ({
            let (after, (further, _)) = sup.step(job, reply, now);
            &&& further.current() == job.current()
            &&& further.stage == Stage::Start(StartPhase::Begin)
            &&& lookup(after.apps, job.current()) is Some
            &&& lookup(after.apps, job.current())->0.is_stopped()
        }),
{
    let name = job.current();
    let phase = job.stage->Stop_0;
    lemma_position(sup.apps, name);
    let app = lookup(sup.apps, name)->0;
    lemma_stop_admits(sup, name, phase, reply, now);
    crate::lifecycle::law_stopped_apps_are_stopped(app, phase, reply, now);
    crate::lifecycle::law_stop_keeps_well_formed(app, phase, reply, now);
    lemma_with(sup, name, app.stop_step(phase, reply, now).0);
}

/// A round restarts an app on schedule only where the app runs and the moment of
/// its scheduled restart has come.
pub proof fn law_scheduled_restarts_are_due(
    sup: SupervisorView,
    job: JobView,
    reply: ReplyView,
    now: Moment,
)
    requires
        job.stage is Look,
        sup.step(job, reply, now).1.0.stage is ScheduledStop,
    ensures
        ({
            let (after, _) = sup.step(job, reply, now);
            let app = lookup(after.apps, job.current());
            &&& app is Some
            &&& app->0.state.status == AppStatus::Running
            &&& app->0.state.next_scheduled_restart_at is Some
            &&& app->0.state.next_scheduled_restart_at->0 <= job.opened.epoch
        }),
{
    let name = job.current();
    let app = lookup(sup.apps, name)->0;
    reveal(ManagedView::look_step);
    lemma_position(sup.apps, name);
    let seen = app.look_step(job.stage->Look_0, reply, job.opened, now).0;
    lemma_filed(sup.apps, name, seen, name);
}


impl SupervisorView {
    /// Whether the app `name` is as a job with that goal is to leave it.
    pub open spec fn attained(self, goal: Goal, name: Seq<char>) -> bool {
        match (goal, lookup(self.apps, name)) {
            (Goal::Start, Some(app)) => app.is_running(),
            (Goal::Restart, Some(app)) => app.is_running(),
            (Goal::Stop, Some(app)) => app.is_stopped(),
            (Goal::Start, None) => false,
            (Goal::Restart, None) => false,
            (Goal::Stop, None) => false,
            _ => true,
        }
    }

    /// Whether the apps that a job is done with are as it is to leave them; no app
    /// is its concern twice.
    pub open spec fn on_course(self, job: JobView) -> bool {
        &&& job.queue.no_duplicates()
        &&& forall|k: int|
            0 <= k < job.at ==> self.attained(job.goal, #[trigger] job.queue[k])
    }
}

/// A request to start or restart apps reports success only when each of them
/// runs, and a request to stop apps only when each of them is stopped: every step
/// keeps to that.
pub proof fn law_success_is_attained(
    sup: SupervisorView,
    job: JobView,
    reply: ReplyView,
    now: Moment,
)
    requires
        sup.wf(),
        sup.admits(job),
        sup.on_course(job),
    ensures
        ({
            let (after, (further, action)) = sup.step(job, reply, now);
            &&& after.on_course(further)
            &&& job.asked() ==> (action matches ActionView::Finish(Ok(names)) ==> {
                &&& names == job.queue
                &&& forall|k: int|
                    0 <= k < names.len() ==> after.attained(job.goal, #[trigger] names[k])
            })
        }),
{
    lemma_same_concern(sup, job, reply, now);
    if job.asked() {
        match job.stage {
            Stage::Start(phase) => lemma_start_on_course(sup, job, phase, reply, now),
            Stage::Stop(phase) => lemma_stop_on_course(sup, job, phase, reply, now),
            _ => {},
        }
    }
}

/// A job keeps its goal and its apps.
pub proof fn lemma_same_concern(sup: SupervisorView, job: JobView, reply: ReplyView, now: Moment)
    ensures
        sup.step(job, reply, now).1.0.goal == job.goal,
        sup.step(job, reply, now).1.0.queue == job.queue,
{
}

proof fn lemma_start_on_course(
    sup: SupervisorView,
    job: JobView,
    phase: StartPhase,
    reply: ReplyView,
    now: Moment,
)
    requires
        sup.wf(),
        sup.admits(job),
        sup.on_course(job),
        job.asked(),
        job.stage == Stage::Start(phase),
    ensures
        sup.at_start(job, phase, reply, now).0.on_course(sup.at_start(job, phase, reply, now).1.0),
        !(sup.at_start(job, phase, reply, now).1.1 matches ActionView::Finish(Ok(_))),
{
    let name = job.current();
    lemma_asks_no_finish(sup, reply, now);
    lemma_position(sup.apps, name);
    if lookup(sup.apps, name) is Some {
        let app = lookup(sup.apps, name)->0;
        crate::lifecycle::law_started_apps_run(app, sup.logs_dir, phase, reply, now);
        lemma_others_stay(sup, job, app.start_step(sup.logs_dir, phase, reply, now).0);
    }
}

proof fn lemma_stop_on_course(
    sup: SupervisorView,
    job: JobView,
    phase: StopPhase,
    reply: ReplyView,
    now: Moment,
)
    requires
        sup.wf(),
        sup.admits(job),
        sup.on_course(job),
        job.asked(),
        job.stage == Stage::Stop(phase),
    ensures
        sup.at_stop(job, phase, reply, now).0.on_course(sup.at_stop(job, phase, reply, now).1.0),
        !(sup.at_stop(job, phase, reply, now).1.1 matches ActionView::Finish(Ok(_))),
{
    let name = job.current();
    lemma_asks_no_finish(sup, reply, now);
    lemma_position(sup.apps, name);
    if lookup(sup.apps, name) is Some {
        let app = lookup(sup.apps, name)->0;
        crate::lifecycle::law_stopped_apps_are_stopped(app, phase, reply, now);
        lemma_others_stay(sup, job, app.stop_step(phase, reply, now).0);
    }
}

proof fn lemma_others_stay(sup: SupervisorView, job: JobView, seen: ManagedView)
    requires
        job.wf(),
        job.stage.busy(),
        sup.on_course(job),
    ensures
        lookup(sup.with(job.current(), seen).apps, job.current()) == Some(seen),
        forall|k: int|
            0 <= k < job.at ==> sup.with(job.current(), seen).attained(
                job.goal,
                #[trigger] job.queue[k],
            ),
{
    let name = job.current();
    lemma_filed(sup.apps, name, seen, name);
    assert forall|k: int| 0 <= k < job.at implies sup.with(name, seen).attained(
        job.goal,
        #[trigger] job.queue[k],
    ) by {
        assert(job.queue[k] != job.queue[job.at]);
        lemma_filed(sup.apps, name, seen, job.queue[k]);
        assert(sup.attained(job.goal, job.queue[k]));
    }
}

pub proof fn lemma_begun_on_course(sup: SupervisorView, goal: Goal, name: Seq<char>, now: Moment)
    requires
        distinct(sup.apps),
    ensures
        sup.on_course(begun(goal, sup.meant(name), now)),
{
    let names = names_of(sup.apps);
    assert(names.no_duplicates()) by {
        assert forall|i: int, j: int| 0 <= i < j < names.len() implies names[i] != names[j] by {
            assert(sup.apps[i].0 != sup.apps[j].0);
        }
    }
}

/// What answers an action of a job that finds scheduled restarts, where `next`
/// says when a schedule of an app is next due after a moment.
pub open spec fn calendar_reply(
    job: JobView,
    action: ActionView,
    next: spec_fn(Seq<char>, RestartSchedule, u64) -> Option<u64>,
) -> ReplyView {
    match action {
        ActionView::NextOccurrence(schedule, from) => ReplyView::Due(
            next(job.current(), schedule, from),
        ),
        _ => ReplyView::Proceed,
    }
}

impl SupervisorView {
    /// Where a job that finds scheduled restarts has come to after as many steps
    /// as there are moments, or at its end: each action is answered, at its
    /// moment, as `next` says.
    pub open spec fn refreshing(
        self,
        job: JobView,
        action: ActionView,
        moments: Seq<Moment>,
        next: spec_fn(Seq<char>, RestartSchedule, u64) -> Option<u64>,
    ) -> (SupervisorView, ActionView)
        decreases moments.len(),
    {
        if moments.len() == 0 || action is Finish {
            (self, action)
        } else {
            let (after, (further, then)) = self.step(
                job,
                calendar_reply(job, action, next),
                moments[0],
            );
            after.refreshing(further, then, moments.skip(1), next)
        }
    }

    /// The apps with the next restart of each set to what `next` says of its
    /// schedule from `now` on, and to none where it has no schedule.
    pub open spec fn retargeted(
        self,
        now: Moment,
        next: spec_fn(Seq<char>, RestartSchedule, u64) -> Option<u64>,
    ) -> SupervisorView {
        SupervisorView {
            apps: self.apps.map_values(
                |e: (Seq<char>, ManagedView)|
                    (
                        e.0,
                        e.1.aimed(
                            match e.1.schedule {
                                Some(schedule) => next(e.0, schedule, now.epoch),
                                None => None,
                            },
                        ),
                    ),
            ),
            ..self
        }
    }

    /// Whether a job that finds scheduled restarts, begun while the apps were as
    /// in `first`, can be so while they are as in `self`, with that action
    /// pending: those before the current one have their next restart set, and
    /// those from it on are as they were.
    spec fn part_way(
        self,
        first: SupervisorView,
        job: JobView,
        action: ActionView,
        next: spec_fn(Seq<char>, RestartSchedule, u64) -> Option<u64>,
    ) -> bool {
        &&& job.goal == Goal::Refresh
        &&& job.queue == names_of(first.apps)
        &&& 0 <= job.at <= first.apps.len()
        &&& self.state_dir == first.state_dir
        &&& self.logs_dir == first.logs_dir
        &&& self.apps.len() == first.apps.len()
        &&& forall|j: int|
            0 <= j < job.at ==> (#[trigger] self.apps[j]) == first.retargeted(
                job.opened,
                next,
            ).apps[j]
        &&& forall|j: int| job.at <= j < first.apps.len() ==> (#[trigger] self.apps[j]) == first.apps[j]
        &&& match job.stage {
            Stage::Next => action == ActionView::Proceed,
            Stage::Aim(revive) => !revive && job.at < first.apps.len() && action
                == ActionView::Proceed,
            Stage::Aimed(revive) => {
                &&& !revive
                &&& job.at < first.apps.len()
                &&& first.apps[job.at].1.schedule matches Some(schedule) && action
                    == ActionView::NextOccurrence(schedule, job.opened.epoch)
            },
            Stage::Over => job.at == first.apps.len() && action == ActionView::Finish(
                Ok(Seq::empty()),
            ),
            _ => false,
        }
    }
}

/// The steps that a job that finds scheduled restarts has ahead, at most.
spec fn steps_ahead(job: JobView) -> int {
    match job.stage {
        Stage::Next => 3 * (job.queue.len() - job.at) + 1,
        Stage::Aim(_) => 3 * (job.queue.len() - job.at),
        Stage::Aimed(_) => 3 * (job.queue.len() - job.at) - 1,
        _ => 0,
    }
}

proof fn lemma_refresh_step(
    first: SupervisorView,
    sup: SupervisorView,
    job: JobView,
    action: ActionView,
    now: Moment,
    next: spec_fn(Seq<char>, RestartSchedule, u64) -> Option<u64>,
)
    requires
        distinct(first.apps),
        sup.part_way(first, job, action, next),
        !(action is Finish),
    ensures
        ({
            let (after, (further, then)) = sup.step(job, calendar_reply(job, action, next), now);
            &&& after.part_way(first, further, then, next)
            &&& further.opened == job.opened
            &&& steps_ahead(further) < steps_ahead(job)
        }),
{
    if job.at < first.apps.len() {
        let name = job.current();
        assert(names_of(first.apps)[job.at] == first.apps[job.at].0);
        assert(sup.apps[job.at] == first.apps[job.at]);
        assert forall|j: int| 0 <= j < job.at implies (#[trigger] sup.apps[j]).0 != name by {
            assert(first.apps[j].0 != first.apps[job.at].0);
            assert(first.retargeted(job.opened, next).apps[j].0 == first.apps[j].0);
        }
        lemma_position_is(sup.apps, name, job.at);
    }
}

proof fn lemma_refreshing(
    first: SupervisorView,
    sup: SupervisorView,
    job: JobView,
    action: ActionView,
    moments: Seq<Moment>,
    next: spec_fn(Seq<char>, RestartSchedule, u64) -> Option<u64>,
)
    requires
        distinct(first.apps),
        sup.part_way(first, job, action, next),
    ensures
        ({
            let (after, last) = sup.refreshing(job, action, moments, next);
            &&& moments.len() >= steps_ahead(job) ==> last is Finish
            &&& last is Finish ==> last == ActionView::Finish(Ok(Seq::empty())) && after
                == first.retargeted(job.opened, next)
        }),
    decreases moments.len(),
{
    if action is Finish {
        assert(sup.apps =~= first.retargeted(job.opened, next).apps);
    } else if moments.len() > 0 {
        let (after, (further, then)) = sup.step(
            job,
            calendar_reply(job, action, next),
            moments[0],
        );
        lemma_refresh_step(first, sup, job, action, moments[0], next);
        lemma_refreshing(first, after, further, then, moments.skip(1), next);
    }
}

/// A job that finds scheduled restarts comes to its end, and a good one, in at
/// most three steps for each app and one more, whatever the moments are. At its
/// end the next restart of each app is what was answered for its schedule, from
/// the moment on at which the job was begun; without a schedule there is none;
/// and nothing else of any app has changed.
pub proof fn law_refresh_sets_every_target(
    sup: SupervisorView,
    now: Moment,
    moments: Seq<Moment>,
    next: spec_fn(Seq<char>, RestartSchedule, u64) -> Option<u64>,
)
    requires
        distinct(sup.apps),
    ensures
        ({
            let (after, last) = sup.refreshing(
                begun(Goal::Refresh, names_of(sup.apps), now),
                ActionView::Proceed,
                moments,
                next,
            );
            &&& moments.len() > 3 * sup.apps.len() ==> last is Finish
            &&& last is Finish ==> last == ActionView::Finish(Ok(Seq::empty())) && after
                == sup.retargeted(now, next)
        }),
{
    lemma_refreshing(
        sup,
        sup,
        begun(Goal::Refresh, names_of(sup.apps), now),
        ActionView::Proceed,
        moments,
        next,
    );
}

proof fn lemma_enrolled_distinct(specs: Seq<AppSpecView>)
    ensures
        distinct(enrolled(specs)),
    decreases specs.len(),
{
    if specs.len() > 0 {
        let front = enrolled(specs.drop_last());
        lemma_enrolled_distinct(specs.drop_last());
        lemma_position(front, specs.last().name);
    }
}

/// A new supervisor, once the job that finds scheduled restarts is done, has for
/// each app the next restart that was answered for its schedule, and none without
/// a schedule, whatever was found on disk; all else is as it was taken over.
pub proof fn law_new_supervisors_have_targets(
    cfg: ConfigView,
    state_dir: Seq<char>,
    logs_dir: Seq<char>,
    source: RuntimeSourceView,
    alive: Seq<u32>,
    now: Moment,
    moments: Seq<Moment>,
    next: spec_fn(Seq<char>, RestartSchedule, u64) -> Option<u64>,
)
    ensures
        ({
            let sup = opened(cfg, state_dir, logs_dir).restored_from(source, alive).0;
            let (after, last) = sup.refreshing(
                begun(Goal::Refresh, names_of(sup.apps), now),
                ActionView::Proceed,
                moments,
                next,
            );
            &&& moments.len() > 3 * sup.apps.len() ==> last is Finish
            &&& last is Finish ==> {
                &&& after == sup.retargeted(now, next)
                &&& forall|i: int|
                    0 <= i < after.apps.len() ==> (
                    #[trigger] after.apps[i]).1.state.next_scheduled_restart_at == match
                        sup.apps[i].1.schedule {
                        Some(schedule) => next(sup.apps[i].0, schedule, now.epoch),
                        None => None,
                    }
            }
        }),
{
    let first = opened(cfg, state_dir, logs_dir);
    let sup = first.restored_from(source, alive).0;
    lemma_enrolled_distinct(cfg.apps);
    assert forall|i: int, j: int| 0 <= i < j < sup.apps.len() implies (#[trigger] sup.apps[i]).0 != (
    #[trigger] sup.apps[j]).0 by {
        assert(first.apps[i].0 != first.apps[j].0);
    }
    law_refresh_sets_every_target(sup, now, moments, next);
}

/// In a round, an app whose restart was put off is started again once its moment
/// has come, and not before; a running app is stopped and started again once the
/// moment of its scheduled restart has come, and not before.
pub proof fn law_rounds_do_what_is_due(sup: SupervisorView, job: JobView, now: Moment, i: int)
    requires
        sup.wf(),
        sup.admits(job),
        job.goal == Goal::Tick,
        job.at < job.queue.len(),
        0 <= i < sup.apps.len(),
        sup.apps[i].0 == job.queue[job.at],
    ensures
        ({
            let app = sup.apps[i].1;
            let (after, (further, action)) = sup.step(job, ReplyView::Proceed, now);
            &&& job.stage is Next ==> after == sup && further.stage == Stage::Look(
                LookPhase::Begin,
            ) && further.at == job.at
            &&& job.stage == Stage::Look(LookPhase::Begin) && !app.child && app.state.status
                != AppStatus::Running && app.state.next_scheduled_restart_at is None ==> {
                &&& after.apps[i] == sup.apps[i]
                &&& app.state.backoff_until is Some && now.epoch >= app.state.backoff_until->0
                    ==> further.stage == Stage::Revive(StartPhase::Begin) && further.at == job.at
                &&& app.state.backoff_until is None || now.epoch < app.state.backoff_until->0
                    ==> further.stage is Next && further.at == job.at + 1
            }
            &&& job.stage == Stage::Revive(StartPhase::Begin) && !app.child && app.state.status
                != AppStatus::Running ==> action is OpenLogs || action is ProbePath
        }),
        ({
            let app = sup.apps[i].1;
            let (after, (further, _)) = sup.step(job, ReplyView::ChildRunning, now);
            let next = app.state.next_scheduled_restart_at;
            job.stage == Stage::Look(LookPhase::Polled) && app.child ==> {
                &&& after.apps[i] == sup.apps[i]
                &&& next is Some && job.opened.epoch >= next->0 ==> further.stage
                    == Stage::ScheduledStop(StopPhase::Begin, false) && further.at == job.at
                &&& next is None || job.opened.epoch < next->0 ==> further.stage is Next
                    && further.at == job.at + 1
            }
        }),
{
    let name = job.queue[job.at];
    assert forall|j: int| 0 <= j < i implies (#[trigger] sup.apps[j]).0 != name by {}
    lemma_position_is(sup.apps, name, i);
    lemma_filed(sup.apps, name, sup.apps[i].1, name);
    reveal(ManagedView::look_step);
    reveal(ManagedView::start_step);
}

/// A restart on schedule goes on: where the stop came to a good end the app is
/// started, and where it did not it is left as it is; then, either way, the next
/// scheduled restart is looked for from that moment on, and remembered.
pub proof fn law_scheduled_restarts_go_on(
    sup: SupervisorView,
    job: JobView,
    reply: ReplyView,
    at: Option<u64>,
    now: Moment,
    i: int,
)
    requires
        sup.wf(),
        sup.admits(job),
        job.goal == Goal::Tick,
        job.at < job.queue.len(),
        0 <= i < sup.apps.len(),
        sup.apps[i].0 == job.queue[job.at],
    ensures
        job.stage matches Stage::ScheduledStop(phase, revive) ==> {
            let (_, (further, _)) = sup.step(job, reply, now);
            match sup.apps[i].1.stop_step(phase, reply, now).1 {
                ProgressView::Done(Ok(_)) => further.stage == Stage::ScheduledStart(
                    StartPhase::Begin,
                    revive,
                ),
                ProgressView::Done(Err(_)) => further.stage == Stage::Aim(revive),
                ProgressView::Ask(next, _) => further.stage == Stage::ScheduledStop(next, revive),
            }
        },
        job.stage matches Stage::ScheduledStart(phase, revive) ==> {
            let (_, (further, _)) = sup.step(job, reply, now);
            match sup.apps[i].1.start_step(sup.logs_dir, phase, reply, now).1 {
                ProgressView::Done(_) => further.stage == Stage::Aim(revive),
                ProgressView::Ask(next, _) => further.stage == Stage::ScheduledStart(next, revive),
            }
        },
        job.stage matches Stage::Aim(revive) ==> (sup.apps[i].1.schedule matches Some(schedule)
            ==> sup.step(job, ReplyView::Proceed, now).1.1 == ActionView::NextOccurrence(
            schedule,
            now.epoch,
        )),
        job.stage is Aimed ==> sup.step(
            job,
            ReplyView::Due(at),
            now,
        ).0.apps[i].1.state.next_scheduled_restart_at == at,
{
    let name = job.queue[job.at];
    assert forall|j: int| 0 <= j < i implies (#[trigger] sup.apps[j]).0 != name by {}
    lemma_position_is(sup.apps, name, i);
}

/// With the agent are started the apps that are configured so, and no others.
pub proof fn law_autostart_is_configured(sup: SupervisorView, now: Moment, i: int)
    requires
        distinct(sup.apps),
        0 <= i < sup.apps.len(),
        forall|j: int| 0 <= j < sup.apps.len() ==> (#[trigger] sup.apps[j]).0 != "all"@,
    ensures
        begun_with_agent(sup.autostart_groups(), now).queue.contains(sup.apps[i].0)
            <==> sup.apps[i].1.spec.autostart,
        begun_with_agent(sup.autostart_groups(), now).goal == Goal::Autostart,
{
    let auto = |e: (Seq<char>, ManagedView)| e.1.spec.autostart;
    let kept = sup.apps.filter(auto);
    let names = sup.autostarted();
    let groups = sup.autostart_groups();
    broadcast use vstd::seq_lib::group_filter_ensures;

    assert forall|k: int| 0 <= k < groups.len() implies #[trigger] groups[k] == seq![names[k]] by {
        assert(kept.contains(kept[k]));
        assert(names[k] == kept[k].0);
        lemma_kept_from(sup.apps, auto, k);
    }
    lemma_lined_up_single(groups, names);
    if sup.apps[i].1.spec.autostart {
        assert(kept.contains(sup.apps[i]));
        let k = choose|k: int| 0 <= k < kept.len() && kept[k] == sup.apps[i];
        assert(names[k] == sup.apps[i].0);
    }
    if names.contains(sup.apps[i].0) {
        let k = choose|k: int| 0 <= k < names.len() && names[k] == sup.apps[i].0;
        lemma_kept_from(sup.apps, auto, k);
        let j = choose|j: int| 0 <= j < sup.apps.len() && sup.apps[j] == kept[k];
        assert(auto(kept[k]));
        assert(names[k] == kept[k].0);
        if i < j {
            assert(sup.apps[i].0 != sup.apps[j].0);
        }
        if j < i {
            assert(sup.apps[j].0 != sup.apps[i].0);
        }
    }
}

proof fn lemma_kept_from(
    s: Seq<(Seq<char>, ManagedView)>,
    pred: spec_fn((Seq<char>, ManagedView)) -> bool,
    k: int,
)
    requires
        0 <= k < s.filter(pred).len(),
    ensures
        exists|j: int| 0 <= j < s.len() && s[j] == s.filter(pred)[k],
    decreases s.len(),
{
    reveal(Seq::filter);
    let front = s.drop_last();
    if k < front.filter(pred).len() {
        lemma_kept_from(front, pred, k);
        let j = choose|j: int| 0 <= j < front.len() && front[j] == front.filter(pred)[k];
        assert(s[j] == s.filter(pred)[k]);
    } else {
        assert(s[s.len() - 1] == s.filter(pred)[k]);
    }
}

proof fn lemma_lined_up_single(groups: Seq<Seq<Seq<char>>>, names: Seq<Seq<char>>)
    requires
        groups.len() == names.len(),
        forall|k: int| 0 <= k < groups.len() ==> #[trigger] groups[k] == seq![names[k]],
    ensures
        lined_up(groups).0 == names,
    decreases groups.len(),
{
    if groups.len() > 0 {
        let front = groups.drop_last();
        assert forall|k: int| 0 <= k < front.len() implies #[trigger] front[k] == seq![
            names.drop_last()[k],
        ] by {
            assert(front[k] == groups[k]);
        }
        lemma_lined_up_single(front, names.drop_last());
        assert(groups.last() == groups[groups.len() - 1]);
        assert(names.drop_last() + seq![names.last()] =~= names);
    } else {
        assert(names =~= Seq::empty());
    }
}

/// Every app of a configuration is looked after, under its name, as it is
/// configured, and none was started yet; of two with one name the later counts.
pub proof fn law_every_app_is_enrolled(specs: Seq<AppSpecView>, spec: AppSpecView, name: Seq<char>)
    ensures
        lookup(enrolled(specs.push(spec)), name) == if spec.name == name {
            Some(fresh_app(spec))
        } else {
            lookup(enrolled(specs), name)
        },
        lookup(enrolled(Seq::empty()), name) is None,
        fresh_app(spec).spec == spec && !fresh_app(spec).child,
        fresh_app(spec).state.status == AppStatus::Stopped && fresh_app(spec).state.pid is None,
        fresh_app(spec).state.restart_count == 0 && fresh_app(spec).state.started_at is None,
        fresh_app(spec).state.last_exit_code is None && fresh_app(
            spec,
        ).state.last_exit_signal is None,
        fresh_app(spec).state.last_error is None && fresh_app(spec).state.last_reason is None,
        fresh_app(spec).state.backoff_until is None && fresh_app(
            spec,
        ).state.last_start_attempt_at is None && fresh_app(
            spec,
        ).state.next_scheduled_restart_at is None,
        fresh_app(spec).recent.len() == 0 && fresh_app(spec).consecutive == 0,
        spec.restart_schedule is None ==> fresh_app(spec).schedule is None,
        spec.restart_schedule matches Some(text) ==> (schedule_of(text) matches Ok(schedule)
            ==> fresh_app(spec).schedule == Some(schedule)),
        spec.restart_schedule matches Some(text) ==> (schedule_of(text) is Err ==> fresh_app(
            spec,
        ).schedule is None),
{
    assert(specs.push(spec).drop_last() =~= specs);
    lemma_filed(enrolled(specs), spec.name, fresh_app(spec), name);
    lemma_position(enrolled(Seq::empty()), name);
}

/// What is kept on disk has the version that is read back, and holds the state of
/// every app under its name. Another version is refused, and changes nothing.
pub proof fn law_kept_states_have_a_version(
    sup: SupervisorView,
    kept: PersistedView,
    alive: Seq<u32>,
)
    ensures
        sup.persisted().schema_version == 1,
        sup.persisted().apps.len() == sup.apps.len(),
        forall|i: int|
            0 <= i < sup.apps.len() ==> (#[trigger] sup.persisted().apps[i]).0 == sup.apps[i].0
                && sup.persisted().apps[i].1 == sup.apps[i].1.state,
        kept.schema_version != 1 ==> sup.restored_from(
            RuntimeSourceView::Parsed(kept),
            alive,
        ).0 == sup && sup.restored_from(RuntimeSourceView::Parsed(kept), alive).1 is Err,
        kept.schema_version == 1 ==> sup.restored_from(
            RuntimeSourceView::Parsed(kept),
            alive,
        ).1 is Ok,
        sup.restored_from(RuntimeSourceView::Missing, alive) == (sup, Ok::<(), ErrorView>(())),
        forall|e: ErrorView|
            #[trigger] sup.restored_from(RuntimeSourceView::Unreadable(e), alive) == (
                sup,
                Err::<(), ErrorView>(e),
            ),
{
}

/// An app that was held to run is so no longer where its process is gone; one
/// that was not, or whose process is alive, is taken over as it was.
pub proof fn law_stale_processes_are_not_taken_over(state: RuntimeView, alive: Seq<u32>)
    ensures
        state.status != AppStatus::Running ==> sanitized(state, alive) == state,
        state.status == AppStatus::Running ==> (state.pid matches Some(pid) ==> if alive.contains(
            pid,
        ) {
            sanitized(state, alive) == state
        } else {
            &&& sanitized(state, alive).status == AppStatus::Stopped
            &&& sanitized(state, alive).pid is None
            &&& sanitized(state, alive).started_at is None
        }),
        state.status == AppStatus::Running && state.pid is None ==> sanitized(state, alive).status
            == AppStatus::Stopped && sanitized(state, alive).pid is None && sanitized(
            state,
            alive,
        ).started_at == state.started_at,
        sanitized(state, alive).last_exit_signal == state.last_exit_signal,
        sanitized(state, alive).last_start_attempt_at == state.last_start_attempt_at,
        sanitized(state, alive).next_scheduled_restart_at == state.next_scheduled_restart_at,
        sanitized(state, alive).restart_count == state.restart_count,
        sanitized(state, alive).last_exit_code == state.last_exit_code,
        sanitized(state, alive).last_reason == state.last_reason,
        sanitized(state, alive).last_error == state.last_error,
        sanitized(state, alive).backoff_until == state.backoff_until,
        running_pid(state) == if state.status == AppStatus::Running {
            state.pid
        } else {
            None
        },
{
}

/// The end of a log is its last lines, as many as were asked for, or all of them
/// where it has no more; a missing log has none. Of both logs the standard output
/// comes first.
pub proof fn law_tails_are_the_last_lines(text: Seq<char>, other: Seq<char>, n: usize)
    ensures
        ({
            let all = line_seq(text);
            let tail = tail_of(LogTextView::Text(text), n);
            &&& tail is Ok
            &&& tail->Ok_0.len() == if all.len() < n {
                all.len() as int
            } else {
                n as int
            }
            &&& forall|k: int|
                0 <= k < tail->Ok_0.len() ==> #[trigger] tail->Ok_0[k] == all[all.len()
                    - tail->Ok_0.len() + k]
        }),
        tail_of(LogTextView::Missing, n) == Ok::<Seq<Seq<char>>, ErrorView>(Seq::empty()),
        ({
            let out = LogTextView::Text(text);
            let err = LogTextView::Text(other);
            &&& tails_of(LogSource::Stdout, out, err, n) == tail_of(out, n)
            &&& tails_of(LogSource::Stderr, out, err, n) == tail_of(err, n)
            &&& tails_of(LogSource::Both, out, err, n) == Ok::<Seq<Seq<char>>, ErrorView>(
                tail_of(out, n)->Ok_0 + tail_of(err, n)->Ok_0,
            )
        }),
{
}

/// The list shows every app as it is: its name, its directory, its command line,
/// its policy and its state.
pub proof fn law_lists_show_every_app(sup: SupervisorView, present: Seq<Seq<char>>, i: int)
    requires
        0 <= i < sup.apps.len(),
    ensures
        ({
            let app = sup.apps[i].1;
            let shown = sup.summaries(present)[i];
            &&& sup.summaries(present).len() == sup.apps.len()
            &&& shown.name == app.spec.name && shown.cwd == app.spec.cwd
            &&& shown.entry == app.spec.entry && shown.restart == app.spec.restart
            &&& shown.runtime == app.state
            &&& present.contains(app.spec.uvicorn()) ==> shown.command == app.spec.command_line(
                true,
            )
            &&& !present.contains(app.spec.uvicorn()) ==> shown.command == app.spec.command_line(
                false,
            )
        }),
{
}

/// When all apps are stopped with the agent, each is, one after the other; the
/// runtime state is written in the end, also where one could not be.
pub proof fn law_shutdown_takes_its_course(
    sup: SupervisorView,
    job: JobView,
    reply: ReplyView,
    problem: Option<ErrorView>,
    now: Moment,
    i: int,
)
    requires
        sup.wf(),
        sup.admits(job),
        job.goal == Goal::Shutdown,
        job.at < job.queue.len() ==> 0 <= i < sup.apps.len() && sup.apps[i].0
            == job.queue[job.at],
    ensures
        job.stage is Next ==> ({
            let (after, (further, action)) = sup.step(job, ReplyView::Proceed, now);
            &&& after == sup
            &&& job.at < job.queue.len() ==> further.stage == Stage::Stop(StopPhase::Begin)
                && further.at == job.at
            &&& job.at >= job.queue.len() ==> action == ActionView::Persist
        }),
        job.stage matches Stage::Stop(phase) ==> ({
            let (_, (further, action)) = sup.step(job, reply, now);
            match sup.apps[i].1.stop_step(phase, reply, now).1 {
                ProgressView::Ask(next, asked) => further.stage == Stage::Stop(next) && action
                    == asked,
                ProgressView::Done(Ok(_)) => further.stage is Next && further.at == job.at + 1,
                ProgressView::Done(Err(_)) => action == ActionView::Persist,
            }
        }),
        job.stage is Save ==> (sup.step(job, ReplyView::Persisted(problem), now).1.1 matches
            ActionView::Finish(Ok(_))),
{
    if job.at < job.queue.len() {
        let name = job.queue[job.at];
        assert forall|j: int| 0 <= j < i implies (#[trigger] sup.apps[j]).0 != name by {}
        lemma_position_is(sup.apps, name, i);
    }
}

/// When the apps are started that are started with the agent, one that fails does
/// not keep those from being started that are not meant to be started together with
/// it; what was started is written down.
pub proof fn law_autostart_takes_its_course(
    sup: SupervisorView,
    job: JobView,
    reply: ReplyView,
    problem: Option<ErrorView>,
    now: Moment,
    i: int,
)
    requires
        sup.wf(),
        sup.admits(job),
        job.goal == Goal::Autostart,
        job.at < job.queue.len() ==> 0 <= i < sup.apps.len() && sup.apps[i].0
            == job.queue[job.at],
    ensures
        job.stage is Next ==> ({
            let (after, (further, action)) = sup.step(job, ReplyView::Proceed, now);
            &&& after == sup
            &&& job.at < job.queue.len() ==> further.stage == Stage::Start(StartPhase::Begin)
                && further.at == job.at
            &&& job.at >= job.queue.len() ==> (action matches ActionView::Finish(Ok(_)))
        }),
        job.stage matches Stage::Start(phase) ==> ({
            let (_, (further, action)) = sup.step(job, reply, now);
            match sup.apps[i].1.start_step(sup.logs_dir, phase, reply, now).1 {
                ProgressView::Ask(next, asked) => further.stage == Stage::Start(next) && action
                    == asked,
                ProgressView::Done(Ok(_)) => if job.at + 1 < job.ends[job.at] {
                    further.stage is Next && further.at == job.at + 1
                } else {
                    action == ActionView::Persist
                },
                ProgressView::Done(Err(_)) => further.stage is Next && further.at
                    == job.ends[job.at],
            }
        }),
        job.stage is Save ==> sup.step(
            job,
            ReplyView::Persisted(problem),
            now,
        ).1.0.stage is Next && sup.step(job, ReplyView::Persisted(problem), now).1.0.at == job.at
            + 1,
{
    if job.at < job.queue.len() {
        let name = job.queue[job.at];
        assert forall|j: int| 0 <= j < i implies (#[trigger] sup.apps[j]).0 != name by {}
        lemma_position_is(sup.apps, name, i);
    }
}

/// What a round finds or changes is noticed, and stays so to its end: an app whose
/// process ended, was lost or is gone, an app that was restarted on schedule, and
/// one that was started after its delay.
pub proof fn law_changes_are_noticed(
    sup: SupervisorView,
    job: JobView,
    reply: ReplyView,
    now: Moment,
    i: int,
)
    requires
        sup.wf(),
        sup.admits(job),
        job.goal == Goal::Tick,
        job.at < job.queue.len(),
        0 <= i < sup.apps.len(),
        sup.apps[i].0 == job.queue[job.at],
    ensures
        ({
            let (_, (further, _)) = sup.step(job, reply, now);
            &&& job.changed ==> further.changed
            &&& job.stage matches Stage::Look(phase) ==> (sup.apps[i].1.look_step(
                phase,
                reply,
                job.opened,
                now,
            ).1 matches LookView::Done(v) ==> (v.changed ==> further.changed))
            &&& job.stage matches Stage::Revive(phase) ==> (sup.apps[i].1.start_step(
                sup.logs_dir,
                phase,
                reply,
                now,
            ).1 is Done ==> further.changed)
            &&& job.stage matches Stage::ScheduledStart(phase, _) ==> (sup.apps[i].1.start_step(
                sup.logs_dir,
                phase,
                reply,
                now,
            ).1 matches ProgressView::Done(Ok(_)) ==> further.changed)
        }),
        sup.apps[i].1.look_step(LookPhase::Polled, reply, job.opened, now).1 matches LookView::Done(
            v,
        ) ==> (reply is ChildExited || reply is ChildLost ==> v.changed),
        sup.apps[i].1.look_step(
            LookPhase::PidProbed { changed: true },
            reply,
            job.opened,
            now,
        ).1 matches LookView::Done(v) ==> (reply is Pid ==> v.changed),
        sup.apps[i].1.look_step(
            LookPhase::PidProbed { changed: false },
            reply,
            job.opened,
            now,
        ).1 matches LookView::Done(v) ==> (reply matches ReplyView::Pid { rc, errno } ==> (rc != 0
            && errno != Some(1i32) ==> v.changed)),
{
    let name = job.queue[job.at];
    assert forall|j: int| 0 <= j < i implies (#[trigger] sup.apps[j]).0 != name by {}
    lemma_position_is(sup.apps, name, i);
    reveal(ManagedView::look_step);
}

/// In a job that was asked for, what goes wrong with an app, or with writing the
/// runtime state, is what the job ends with.
pub proof fn law_asked_jobs_tell_what_went_wrong(
    sup: SupervisorView,
    job: JobView,
    reply: ReplyView,
    e: ErrorView,
    now: Moment,
    i: int,
)
    requires
        sup.wf(),
        sup.admits(job),
        job.asked(),
        job.at < job.queue.len() ==> 0 <= i < sup.apps.len() && sup.apps[i].0
            == job.queue[job.at],
    ensures
        job.stage matches Stage::Start(phase) ==> (sup.apps[i].1.start_step(
            sup.logs_dir,
            phase,
            reply,
            now,
        ).1 matches ProgressView::Done(Err(why)) ==> sup.step(job, reply, now).1.1
            == ActionView::Finish(Err(why))),
        job.stage matches Stage::Stop(phase) ==> (sup.apps[i].1.stop_step(
            phase,
            reply,
            now,
        ).1 matches ProgressView::Done(Err(why)) ==> sup.step(job, reply, now).1.1
            == ActionView::Finish(Err(why))),
        job.stage is Save ==> sup.step(job, ReplyView::Persisted(Some(e)), now).1.1
            == ActionView::Finish(Err(e)),
        job.stage is Save ==> sup.step(job, ReplyView::Persisted(None), now).1.1
            == ActionView::Finish(Ok(job.queue)),
{
    if job.at < job.queue.len() {
        let name = job.queue[job.at];
        assert forall|j: int| 0 <= j < i implies (#[trigger] sup.apps[j]).0 != name by {}
        lemma_position_is(sup.apps, name, i);
    }
}

/// Of what is found on disk, each app takes the state under its own name, and one
/// that is not there stays as it was.
pub proof fn law_states_go_to_their_apps(
    sup: SupervisorView,
    states: Seq<(Seq<char>, RuntimeView)>,
    alive: Seq<u32>,
    i: int,
    k: int,
)
    requires
        0 <= i < sup.apps.len(),
    ensures
        ({
            let after = sup.restored(states, alive);
            &&& after.apps.len() == sup.apps.len()
            &&& after.apps[i].0 == sup.apps[i].0
            &&& after.apps[i].1.spec == sup.apps[i].1.spec
            &&& after.apps[i].1.child == sup.apps[i].1.child
            &&& (forall|j: int| 0 <= j < states.len() ==> (#[trigger] states[j]).0
                != sup.apps[i].0) ==> after.apps[i] == sup.apps[i]
            &&& 0 <= k < states.len() && states[k].0 == sup.apps[i].0 && distinct(states)
                ==> after.apps[i].1.state == sanitized(states[k].1, alive)
        }),
{
    let name = sup.apps[i].0;
    lemma_position(states, name);
    if 0 <= k < states.len() && states[k].0 == name && distinct(states) {
        assert forall|j: int| 0 <= j < k implies (#[trigger] states[j]).0 != name by {
            assert(states[j].0 != states[k].0);
        }
        lemma_position_is(states, name, k);
    }
}

/// The files that are kept stand where the configuration says: the logs in one
/// directory, and what is known of the apps in a file of the other.
pub proof fn law_everything_in_its_place(
    cfg: ConfigView,
    state_dir: Seq<char>,
    logs_dir: Seq<char>,
)
    ensures
        opened(cfg, state_dir, logs_dir).state_dir == state_dir,
        opened(cfg, state_dir, logs_dir).logs_dir == logs_dir,
        opened(cfg, state_dir, logs_dir).apps == enrolled(cfg.apps),
        state_dir.len() > 0 && state_dir.last() != '/' ==> states_file(state_dir) == state_dir
            + "/"@ + "runtime_state.json"@,
        state_dir.len() > 0 && state_dir.last() == '/' ==> states_file(state_dir) == state_dir
            + "runtime_state.json"@,
{
    reveal_strlit("/");
    reveal_strlit("runtime_state.json");
    assert("runtime_state.json"@.take(1)[0] == 'r');
}

/// For a list of the apps it is looked up of each whether its uvicorn is there.
pub proof fn law_uvicorns_are_looked_up(sup: SupervisorView, i: int)
    requires
        0 <= i < sup.apps.len(),
    ensures
        sup.uvicorns().len() == sup.apps.len(),
        ({
            let spec = sup.apps[i].1.spec;
            sup.uvicorns()[i] == joined(joined(spec.cwd, spec.venv), "bin/uvicorn"@)
        }),
{
}

/// A job begins with its first app, and nothing has changed by then.
pub proof fn law_jobs_begin_at_the_beginning(goal: Goal, queue: Seq<Seq<char>>, now: Moment)
    ensures
        ({
            let job = begun(goal, queue, now);
            &&& job.goal == goal && job.queue == queue && job.at == 0
            &&& job.stage is Next && !job.changed && job.opened == now
        }),
        forall|groups: Seq<Seq<Seq<char>>>|
            ({
                let job = #[trigger] begun_with_agent(groups, now);
                &&& job.at == 0 && job.stage is Next && !job.changed && job.opened == now
            }),
{
}

/// Apps that are started with the agent are started in their order, each on its own;
/// one that is called `all` stands for every app, which are then started together.
pub proof fn law_groups_stand_together(
    sup: SupervisorView,
    groups: Seq<Seq<Seq<char>>>,
    group: Seq<Seq<char>>,
    k: int,
)
    ensures
        ({
            let before = lined_up(groups);
            let (queue, ends) = lined_up(groups.push(group));
            &&& queue == before.0 + group
            &&& before.0.len() == before.1.len() ==> {
                &&& ends.len() == queue.len()
                &&& 0 <= k < before.1.len() ==> ends[k] == before.1[k]
                &&& before.1.len() <= k < queue.len() ==> ends[k] == queue.len()
            }
        }),
        sup.autostart_groups().len() == sup.autostarted().len(),
        0 <= k < sup.autostarted().len() ==> {
            let one = sup.autostart_groups()[k];
            &&& sup.autostarted()[k] != "all"@ ==> one == seq![sup.autostarted()[k]]
            &&& sup.autostarted()[k] == "all"@ ==> one.len() == sup.apps.len() && forall|i: int|
                0 <= i < one.len() ==> #[trigger] one[i] == sup.apps[i].0
        },
{
    assert(groups.push(group).drop_last() =~= groups);
}

} // verus!
