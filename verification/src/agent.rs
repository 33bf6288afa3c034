//! The agent: what it answers to a request, what it tells those who watch, and
//! what it sends to those who follow a log.

use crate::error::{outcome, ErrorView, IoKind, PyopsError};
use crate::lifecycle::{names_result, Action, ActionView};
use crate::listing::by_name;
use crate::managed::Moment;
use crate::model::{
    clone_opt, err_reply, events_view, log_events_view, ok_reply, AgentEvent,
    AgentEventKind, AppRuntimeState, AppStatus, DataView, DetailsView, EventView, IpcRequest,
    IpcResponse, LogEventView, LogSource, PingData, PingView, RequestView, ResponseData,
    ResponseView, RuntimeView, StreamLogEvent,
};
use crate::names::{lemma_position, lemma_position_is, lookup, position, NameMap};
use crate::paths::{stderr_log, stdout_log};
use crate::supervisor::{
    begun, states_view, tail_of, tails_of, unknown, Goal, Job, JobView, LogText, LogTextView,
    Supervisor, SupervisorView,
};
use crate::text::{texts, trim_end_of, trimmed_end_of};
use vstd::prelude::*;

verus! {

// ---- Requests ----

/// How a request is served.
pub enum Route {
    /// By sending the log of an app, and what is added to it.
    StreamLogs { name: String, tail: usize, source: LogSource, follow_interval_ms: u64 },
    /// By sending the events as they come.
    WatchEvents,
    /// By a single reply.
    Dispatch(IpcRequest),
}

pub enum RouteView {
    StreamLogs(Seq<char>, usize, LogSource, u64),
    WatchEvents,
    Dispatch(RequestView),
}

impl View for Route {
    type V = RouteView;

    open spec fn view(&self) -> RouteView {
        match self {
            Route::StreamLogs { name, tail, source, follow_interval_ms } => RouteView::StreamLogs(
                name@,
                *tail,
                *source,
                *follow_interval_ms,
            ),
            Route::WatchEvents => RouteView::WatchEvents,
            Route::Dispatch(req) => RouteView::Dispatch(req@),
        }
    }
}

/// How a request is served.
pub open spec fn routed(req: RequestView) -> RouteView {
    match req {
        RequestView::StreamLogs(name, tail, source, ms) => RouteView::StreamLogs(
            name,
            tail,
            source,
            ms,
        ),
        RequestView::WatchEvents => RouteView::WatchEvents,
        _ => RouteView::Dispatch(req),
    }
}

/// How the request of a client is served.
pub fn handle_client(req: IpcRequest) -> (r: Route)
    ensures
        r@ == routed(req@),
{
    match req {
        IpcRequest::StreamLogs { name, tail, source, follow_interval_ms } => Route::StreamLogs {
            name,
            tail,
            source,
            follow_interval_ms,
        },
        IpcRequest::WatchEvents => Route::WatchEvents,
        other => Route::Dispatch(other),
    }
}

/// What is to be done for a reply: a job, whose result `finish` takes; a look
/// for the paths, before the apps are listed; a read of the log files, before
/// their ends are returned; or nothing.
pub enum Plan {
    Run(Job, Action),
    List(Vec<String>),
    Tail { name: String, tail: usize, source: LogSource, stdout: String, stderr: String },
    Answer(IpcResponse),
}

pub enum PlanView {
    Run(JobView, ActionView),
    List(Seq<Seq<char>>),
    Tail { name: Seq<char>, tail: usize, source: LogSource, stdout: Seq<char>, stderr: Seq<char> },
    Answer(ResponseView),
}

impl View for Plan {
    type V = PlanView;

    open spec fn view(&self) -> PlanView {
        match self {
            Plan::Run(job, action) => PlanView::Run(job@, action@),
            Plan::List(paths) => PlanView::List(texts(paths@)),
            Plan::Tail { name, tail, source, stdout, stderr } => PlanView::Tail {
                name: name@,
                tail: *tail,
                source: *source,
                stdout: stdout@,
                stderr: stderr@,
            },
            Plan::Answer(resp) => PlanView::Answer(resp@),
        }
    }
}

/// The plan of a job.
pub open spec fn job_plan(goal: Goal, queue: Seq<Seq<char>>, now: Moment) -> PlanView {
    PlanView::Run(begun(goal, queue, now), ActionView::Proceed)
}

/// The details of an app, or why there are none.
pub open spec fn details_of(sup: SupervisorView, name: Seq<char>) -> Result<
    DetailsView,
    ErrorView,
> {
    match lookup(sup.apps, name) {
        Some(app) => Ok(DetailsView { spec: app.spec, runtime: app.state }),
        None => Err(unknown(name)),
    }
}

/// What is to be done for a reply to `req`. `me` is what the agent says of
/// itself, and `refusal` what it says to a request that has no single reply.
pub open spec fn planned(
    sup: SupervisorView,
    req: RequestView,
    me: Option<PingView>,
    refusal: Seq<char>,
    now: Moment,
) -> PlanView {
    match req {
        RequestView::Ping => match me {
            Some(p) => PlanView::Answer(ok_reply(DataView::Ping(p))),
            None => PlanView::Answer(err_reply(refusal)),
        },
        RequestView::Start(name) => job_plan(Goal::Start, sup.meant(name), now),
        RequestView::Stop(name) => job_plan(Goal::Stop, sup.meant(name), now),
        RequestView::Restart(name) => job_plan(Goal::Restart, sup.meant(name), now),
        RequestView::ListApps => PlanView::List(sup.uvicorns()),
        RequestView::GetApp(name) => PlanView::Answer(
            match details_of(sup, name) {
                Ok(d) => ok_reply(DataView::App(d)),
                Err(e) => err_reply(e.text()),
            },
        ),
        RequestView::TailLogs(name, tail, source) => match lookup(sup.apps, name) {
            Some(_) => PlanView::Tail {
                name,
                tail,
                source,
                stdout: stdout_log(sup.logs_dir, name),
                stderr: stderr_log(sup.logs_dir, name),
            },
            None => PlanView::Answer(err_reply(unknown(name).text())),
        },
        RequestView::StreamLogs(_, _, _, _) => PlanView::Answer(err_reply(refusal)),
        RequestView::WatchEvents => PlanView::Answer(err_reply(refusal)),
    }
}

fn plan_request(
    sup: &Supervisor,
    req: IpcRequest,
    me: Option<PingData>,
    refusal: &str,
    now: Moment,
) -> (r: Plan)
    ensures
        r@ == planned(
            sup@,
            req@,
            match me {
                Some(p) => Some(p@),
                None => None,
            },
            refusal@,
            now,
        ),
        r matches Plan::Run(job, _) ==> sup@.admits(job@),
{
    match req {
        IpcRequest::Ping => match me {
            Some(p) => Plan::Answer(IpcResponse::ok(ResponseData::Ping(p))),
            None => Plan::Answer(IpcResponse::err(refusal.to_owned())),
        },
        IpcRequest::Start { name } => {
            let (job, action) = sup.start(name.as_str(), now);
            Plan::Run(job, action)
        },
        IpcRequest::Stop { name } => {
            let (job, action) = sup.stop(name.as_str(), now);
            Plan::Run(job, action)
        },
        IpcRequest::Restart { name } => {
            let (job, action) = sup.restart(name.as_str(), now);
            Plan::Run(job, action)
        },
        IpcRequest::ListApps => Plan::List(sup.uvicorn_paths()),
        IpcRequest::GetApp { name } => match sup.get_app(name.as_str()) {
            Ok(app) => Plan::Answer(IpcResponse::ok(ResponseData::App(app))),
            Err(e) => Plan::Answer(IpcResponse::err(e.to_string())),
        },
        IpcRequest::TailLogs { name, tail, source } => match sup.log_paths(name.as_str()) {
            Ok((stdout, stderr)) => Plan::Tail { name, tail, source, stdout, stderr },
            Err(e) => Plan::Answer(IpcResponse::err(e.to_string())),
        },
        IpcRequest::StreamLogs { .. } => Plan::Answer(IpcResponse::err(refusal.to_owned())),
        IpcRequest::WatchEvents => Plan::Answer(IpcResponse::err(refusal.to_owned())),
    }
}

/// What is to be done for the reply to a request that came over the socket.
pub fn dispatch(sup: &Supervisor, req: IpcRequest, me: PingData, now: Moment) -> (r: Plan)
    ensures
        r@ == planned(sup@, req@, Some(me@), "invalid dispatch route"@, now),
        r matches Plan::Run(job, _) ==> sup@.admits(job@),
{
    plan_request(sup, req, Some(me), "invalid dispatch route", now)
}

/// What is to be done for the reply to a request that came over the web.
pub fn handle_ipc_like(sup: &Supervisor, req: IpcRequest, now: Moment) -> (r: Plan)
    ensures
        r@ == planned(sup@, req@, None, "unsupported request in web ui"@, now),
        r matches Plan::Run(job, _) ==> sup@.admits(job@),
{
    plan_request(sup, req, None, "unsupported request in web ui", now)
}

/// The reply to a request whose job is over.
pub open spec fn job_reply(goal: Goal, result: Result<Seq<Seq<char>>, ErrorView>) -> ResponseView {
    match result {
        Ok(names) => ok_reply(
            match goal {
                Goal::Stop => DataView::Stopped(names),
                Goal::Restart => DataView::Restarted(names),
                _ => DataView::Started(names),
            },
        ),
        Err(e) => err_reply(e.text()),
    }
}

/// The reply to a request whose job is over.
pub fn finish(job: &Job, result: Result<Vec<String>, PyopsError>) -> (r: IpcResponse)
    ensures
        r@ == job_reply(job@.goal, names_result(result)),
{
    match result {
        Ok(names) => match job.goal() {
            Goal::Stop => IpcResponse::ok(ResponseData::Stopped(names)),
            Goal::Restart => IpcResponse::ok(ResponseData::Restarted(names)),
            _ => IpcResponse::ok(ResponseData::Started(names)),
        },
        Err(e) => IpcResponse::err(e.to_string()),
    }
}

/// The reply to a request for the list of apps; `present` holds the paths at
/// which something exists.
pub fn list_reply(sup: &Supervisor, present: &Vec<String>) -> (r: IpcResponse)
    ensures
        r@ == ok_reply(DataView::Apps(by_name(sup@.summaries(texts(present@))))),
{
    IpcResponse::ok(ResponseData::Apps(sup.list_apps(present)))
}

/// The reply to a request for the end of a log.
pub open spec fn lines_reply(result: Result<Seq<Seq<char>>, ErrorView>) -> ResponseView {
    match result {
        Ok(lines) => ok_reply(DataView::Lines(lines)),
        Err(e) => err_reply(e.text()),
    }
}

/// The reply to a request for the end of the logs of the app `name`, given what
/// its log files hold.
pub fn tail_reply(
    sup: &Supervisor,
    name: &str,
    source: LogSource,
    tail: usize,
    out: LogText,
    err: LogText,
) -> (r: IpcResponse)
    ensures
        r@ == lines_reply(
            match lookup(sup@.apps, name@) {
                Some(_) => tails_of(source, out@, err@, tail),
                None => Err(unknown(name@)),
            },
        ),
{
    match sup.tail_logs(name, source, tail, out, err) {
        Ok(lines) => IpcResponse::ok(ResponseData::Lines(lines)),
        Err(e) => IpcResponse::err(e.to_string()),
    }
}

// ---- Events ----

/// What a change from `prev` to `next` is called.
pub open spec fn event_kind(prev: Option<RuntimeView>, next: RuntimeView) -> AgentEventKind {
    match next.status {
        AppStatus::Errored => AgentEventKind::ProcessErrored,
        AppStatus::Running => AgentEventKind::ProcessStarted,
        AppStatus::Stopped => match prev {
            Some(p) if p.status == AppStatus::Running => AgentEventKind::ProcessStopped,
            _ => AgentEventKind::StateChanged,
        },
    }
}

/// Which apps are in another state than before.
pub open spec fn changed_since(before: Seq<(Seq<char>, RuntimeView)>) -> spec_fn(
    (Seq<char>, RuntimeView),
) -> bool {
    |e: (Seq<char>, RuntimeView)| lookup(before, e.0) != Some(e.1)
}

/// The event that tells of the new state of an app.
pub open spec fn change_event(before: Seq<(Seq<char>, RuntimeView)>, ts: u64) -> spec_fn(
    (Seq<char>, RuntimeView),
) -> EventView {
    |e: (Seq<char>, RuntimeView)|
        EventView {
            ts,
            kind: event_kind(lookup(before, e.0), e.1),
            app: e.0,
            runtime: e.1,
            message: e.1.last_error,
        }
}

/// The events that tell of what changed: one for each app in another state.
pub open spec fn change_events(
    before: Seq<(Seq<char>, RuntimeView)>,
    after: Seq<(Seq<char>, RuntimeView)>,
    ts: u64,
) -> Seq<EventView> {
    after.filter(changed_since(before)).map_values(change_event(before, ts))
}

fn kind_of(prev: Option<&AppRuntimeState>, next: &AppRuntimeState) -> (r: AgentEventKind)
    ensures
        r == event_kind(
            match prev {
                Some(p) => Some(p@),
                None => None,
            },
            next@,
        ),
{
    if next.status == AppStatus::Errored {
        return AgentEventKind::ProcessErrored;
    }
    if next.status == AppStatus::Running {
        return AgentEventKind::ProcessStarted;
    }
    match prev {
        Some(p) => if p.status == AppStatus::Running {
            AgentEventKind::ProcessStopped
        } else {
            AgentEventKind::StateChanged
        },
        None => AgentEventKind::StateChanged,
    }
}

proof fn lemma_state_lookup(m: Seq<(Seq<char>, AppRuntimeState)>, name: Seq<char>)
    ensures
        lookup(states_view(m), name) == match lookup(m, name) {
            Some(s) => Some(s@),
            None => None,
        },
{
    lemma_position(m, name);
    let p = position(m, name);
    assert forall|j: int| 0 <= j < p implies (#[trigger] states_view(m)[j]).0 != name by {
        assert(m[j].0 != name);
    }
    lemma_position_is(states_view(m), name, p);
}

/// The events that tell of what changed between two looks at all apps.
pub fn collect_state_change_events(
    before: &NameMap<AppRuntimeState>,
    after: &NameMap<AppRuntimeState>,
    ts: u64,
) -> (r: Vec<AgentEvent>)
    ensures
        events_view(r@) == change_events(states_view(before@), states_view(after@), ts),
{
    let ghost all = states_view(after@);
    let ghost old_states = states_view(before@);
    let ghost pred = changed_since(old_states);
    let ghost made = change_event(old_states, ts);
    let n = after.len();
    let mut events: Vec<AgentEvent> = Vec::new();
    let mut i: usize = 0;
    proof {
        reveal(Seq::filter);
        assert(events_view(events@) =~= all.take(0).filter(pred).map_values(made));
    }
    while i < n
        invariant
            n == after@.len(),
            all == states_view(after@),
            old_states == states_view(before@),
            pred == changed_since(old_states),
            made == change_event(old_states, ts),
            i <= n,
            events_view(events@) == all.take(i as int).filter(pred).map_values(made),
        decreases n - i,
    {
        let name = after.name_at(i);
        let next = after.value_at(i);
        let prev = before.get(name.as_str());
        let ghost kept = all.take(i as int).filter(pred);
        let ghost so_far = events_view(events@);
        let ghost entry = all[i as int];
        proof {
            lemma_state_lookup(before@, name@);
            reveal(Seq::filter);
            assert(all.take(i + 1).drop_last() =~= all.take(i as int));
            assert(all.take(i + 1).last() == entry);
            assert(kept.push(entry).map_values(made) =~= kept.map_values(made).push(made(entry)));
        }
        let unchanged = match prev {
            Some(p) => p.same_as(next),
            None => false,
        };
        if !unchanged {
            let event = AgentEvent {
                ts,
                kind: kind_of(prev, next),
                app: name.clone(),
                runtime: next.clone(),
                message: clone_opt(&next.last_error),
            };
            assert(event@ == made(entry));
            events.push(event);
            assert(events_view(events@) =~= so_far.push(made(entry)));
        }
        i += 1;
    }
    assert(all.take(i as int) =~= all);
    events
}

/// Where nothing changed nothing is told.
pub proof fn law_no_change_no_event(states: Seq<(Seq<char>, RuntimeView)>, ts: u64)
    requires
        crate::names::distinct(states),
    ensures
        change_events(states, states, ts).len() == 0,
{
    lemma_unchanged(states, states.len() as int);
    assert(states.take(states.len() as int) =~= states);
}

proof fn lemma_unchanged(states: Seq<(Seq<char>, RuntimeView)>, n: int)
    requires
        crate::names::distinct(states),
        0 <= n <= states.len(),
    ensures
        states.take(n).filter(changed_since(states)).len() == 0,
    decreases n,
{
    reveal(Seq::filter);
    if n > 0 {
        lemma_unchanged(states, n - 1);
        assert(states.take(n).drop_last() =~= states.take(n - 1));
        assert(forall|j: int| 0 <= j < n - 1 ==> (#[trigger] states[j]).0 != states[n - 1].0);
        lemma_position_is(states, states[n - 1].0, n - 1);
    }
}

/// An app in another state than before is told of, with the state it is in; an
/// app that is not is left out.
pub proof fn law_every_change_is_told(
    before: Seq<(Seq<char>, RuntimeView)>,
    after: Seq<(Seq<char>, RuntimeView)>,
    ts: u64,
    i: int,
)
    requires
        crate::names::distinct(after),
        0 <= i < after.len(),
    ensures
        lookup(before, after[i].0) != Some(after[i].1) ==> change_events(
            before,
            after,
            ts,
        ).contains(change_event(before, ts)(after[i])),
        lookup(before, after[i].0) == Some(after[i].1) ==> forall|k: int|
            0 <= k < change_events(before, after, ts).len() ==> (#[trigger] change_events(
                before,
                after,
                ts,
            )[k]).app != after[i].0,
{
    let pred = changed_since(before);
    let kept = after.filter(pred);
    let told = change_events(before, after, ts);
    broadcast use vstd::seq_lib::group_filter_ensures;

    if pred(after[i]) {
        assert(kept.contains(after[i]));
        let k = choose|k: int| 0 <= k < kept.len() && kept[k] == after[i];
        assert(told[k] == change_event(before, ts)(after[i]));
    } else {
        assert forall|k: int| 0 <= k < told.len() implies (#[trigger] told[k]).app
            != after[i].0 by {
            assert(pred(kept[k]));
            lemma_kept_from(after, pred, k);
        }
    }
}

proof fn lemma_kept_from(
    s: Seq<(Seq<char>, RuntimeView)>,
    pred: spec_fn((Seq<char>, RuntimeView)) -> bool,
    k: int,
)
    requires
        0 <= k < s.filter(pred).len(),
    ensures
        exists|j: int| 0 <= j < s.len() && s[j] == s.filter(pred)[k],
    decreases s.len(),
{
    reveal(Seq::filter);
    let front = s.drop_last();
    if k < front.filter(pred).len() {
        lemma_kept_from(front, pred, k);
        let j = choose|j: int| 0 <= j < front.len() && front[j] == front.filter(pred)[k];
        assert(s[j] == s.filter(pred)[k]);
    } else {
        assert(s[s.len() - 1] == s.filter(pred)[k]);
    }
}

/// The event that tells someone who begins to watch of the state of an app.
pub open spec fn first_event(ts: u64) -> spec_fn((Seq<char>, RuntimeView)) -> EventView {
    |e: (Seq<char>, RuntimeView)|
        EventView {
            ts,
            kind: AgentEventKind::StateChanged,
            app: e.0,
            runtime: e.1,
            message: Some("initial_snapshot"@),
        }
}

/// The events that tell someone who begins to watch of the states of all apps.
pub fn watch_events(states: &NameMap<AppRuntimeState>, ts: u64) -> (r: Vec<AgentEvent>)
    ensures
        events_view(r@) == states_view(states@).map_values(first_event(ts)),
{
    let ghost all = states_view(states@);
    let ghost made = all.map_values(first_event(ts));
    let n = states.len();
    let mut events: Vec<AgentEvent> = Vec::new();
    let mut i: usize = 0;
    assert(events_view(events@) =~= made.take(0));
    while i < n
        invariant
            n == states@.len(),
            all == states_view(states@),
            made == all.map_values(first_event(ts)),
            i <= n,
            events_view(events@) == made.take(i as int),
        decreases n - i,
    {
        let ghost so_far = events_view(events@);
        let event = AgentEvent {
            ts,
            kind: AgentEventKind::StateChanged,
            app: states.name_at(i).clone(),
            runtime: states.value_at(i).clone(),
            message: Some("initial_snapshot".to_string()),
        };
        assert(event@ == made[i as int]);
        events.push(event);
        assert(events_view(events@) =~= so_far.push(made[i as int]));
        assert(made.take(i + 1) =~= so_far.push(made[i as int]));
        i += 1;
    }
    assert(made.take(i as int) =~= made);
    events
}

/// What a failure to send an event means: a watcher that is gone is no failure
/// of the agent.
pub open spec fn event_sent(r: Result<(), ErrorView>) -> Result<(), ErrorView> {
    match r {
        Err(ErrorView::Io(kind, _)) if kind == IoKind::BrokenPipe || kind
            == IoKind::ConnectionReset => Err(ErrorView::Ipc("watcher disconnected"@)),
        _ => r,
    }
}

/// What came of sending an event.
pub fn write_event(sent: Result<(), PyopsError>) -> (r: Result<(), PyopsError>)
    ensures
        outcome(r) == event_sent(outcome(sent)),
{
    match sent {
        Ok(()) => Ok(()),
        Err(PyopsError::Io(f)) => {
            if f.kind == IoKind::BrokenPipe || f.kind == IoKind::ConnectionReset {
                Err(PyopsError::Ipc("watcher disconnected".to_string()))
            } else {
                Err(PyopsError::Io(f))
            }
        },
        Err(e) => Err(e),
    }
}

/// Those who watch.
pub struct EventBus<S> {
    pub subscribers: Vec<S>,
}

impl<S> Default for EventBus<S> {
    fn default() -> (r: Self)
        ensures
            r.subscribers@.len() == 0,
    {
        EventBus { subscribers: Vec::new() }
    }
}

/// Those of `s` for which `kept` says so.
pub open spec fn kept_of<S>(s: Seq<S>, kept: Seq<bool>) -> Seq<S>
    decreases s.len(),
{
    if s.len() == 0 {
        s
    } else if kept[s.len() - 1] {
        kept_of(s.drop_last(), kept).push(s.last())
    } else {
        kept_of(s.drop_last(), kept)
    }
}

/// Whether `reached` says for each of `s` what a call of `send` with the event
/// returned.
pub open spec fn sent_to<S, F: Fn(&S, &AgentEvent) -> bool>(
    s: Seq<S>,
    send: F,
    event: AgentEvent,
    reached: Seq<bool>,
) -> bool {
    &&& reached.len() == s.len()
    &&& forall|i: int|
        0 <= i < s.len() ==> call_ensures(send, (&#[trigger] s[i], &event), reached[i])
}

impl<S> EventBus<S> {
    /// One more watches.
    pub fn subscribe(&mut self, subscriber: S)
        ensures
            final(self).subscribers@ == old(self).subscribers@.push(subscriber),
    {
        self.subscribers.push(subscriber);
    }

    /// Sends the event to each who watches, with `send`; those it does not reach
    /// are dropped.
    pub fn broadcast<F: Fn(&S, &AgentEvent) -> bool>(&mut self, event: AgentEvent, send: F)
        requires
            forall|s: &S, e: &AgentEvent| call_requires(send, (s, e)),
        ensures
            exists|reached: Seq<bool>|
                sent_to(old(self).subscribers@, send, event, reached) && final(self).subscribers@
                    == #[trigger] kept_of(old(self).subscribers@, reached),
    {
        let ghost all = self.subscribers@;
        let mut rest: Vec<S> = Vec::new();
        std::mem::swap(&mut rest, &mut self.subscribers);
        let mut kept: Vec<S> = Vec::new();
        let ghost mut reached: Seq<bool> = Seq::empty();
        let ghost mut done: int = 0;
        while rest.len() > 0
            invariant
                forall|s: &S, e: &AgentEvent| call_requires(send, (s, e)),
                0 <= done <= all.len(),
                rest@ == all.skip(done),
                sent_to(all.take(done), send, event, reached),
                kept@ == kept_of(all.take(done), reached),
            decreases rest@.len(),
        {
            let s = rest.remove(0);
            let ok = send(&s, &event);
            proof {
                let before = reached;
                let was = all.take(done);
                reached = reached.push(ok);
                let now = all.take(done + 1);
                assert(s == all[done]);
                assert(now.drop_last() =~= was);
                assert(now.last() == s);
                lemma_kept_prefix(was, before, reached);
                assert forall|i: int| 0 <= i < now.len() implies call_ensures(
                    send,
                    (&#[trigger] now[i], &event),
                    reached[i],
                ) by {
                    if i < done {
                        assert(now[i] == was[i]);
                    }
                }
                assert(rest@ =~= all.skip(done + 1));
                done = done + 1;
            }
            if ok {
                kept.push(s);
            }
        }
        assert(all.take(done) =~= all);
        self.subscribers = kept;
    }
}

proof fn lemma_kept_prefix<S>(s: Seq<S>, a: Seq<bool>, b: Seq<bool>)
    requires
        s.len() <= a.len(),
        s.len() <= b.len(),
        forall|i: int| 0 <= i < s.len() ==> a[i] == b[i],
    ensures
        kept_of(s, a) == kept_of(s, b),
    decreases s.len(),
{
    if s.len() > 0 {
        lemma_kept_prefix(s.drop_last(), a, b);
    }
}

// ---- Logs ----

/// Whether someone who asked for `requested` gets the log `actual`.
pub open spec fn wants(requested: LogSource, actual: LogSource) -> bool {
    requested == LogSource::Both || (requested == actual && actual != LogSource::Both)
}

/// Whether someone who asked for `requested` gets the log `actual`.
pub fn wants_log(requested: LogSource, actual: LogSource) -> (r: bool)
    ensures
        r == wants(requested, actual),
{
    requested == LogSource::Both || (requested == actual && actual != LogSource::Both)
}

/// The lines of the log `source`, to be sent one by one.
pub open spec fn log_events(source: LogSource) -> spec_fn(Seq<char>) -> LogEventView {
    |line: Seq<char>| LogEventView { source, line }
}

/// What is sent first of the log `actual` to someone who asked for `requested`:
/// its last `tail` lines.
pub open spec fn tail_events(
    log: LogTextView,
    actual: LogSource,
    tail: usize,
    requested: LogSource,
) -> Result<Seq<LogEventView>, ErrorView> {
    if !wants(requested, actual) {
        Ok(Seq::empty())
    } else {
        match tail_of(log, tail) {
            Ok(lines) => Ok(lines.map_values(log_events(actual))),
            Err(e) => Err(e),
        }
    }
}

/// The log events in a result, or its error.
pub open spec fn log_events_result(r: Result<Vec<StreamLogEvent>, PyopsError>) -> Result<
    Seq<LogEventView>,
    ErrorView,
> {
    match r {
        Ok(v) => Ok(log_events_view(v@)),
        Err(e) => Err(e@),
    }
}

/// What is sent first of the log `actual` to someone who asked for `requested`.
pub fn send_tail(log: LogText, actual: LogSource, tail: usize, requested: LogSource) -> (r: Result<
    Vec<StreamLogEvent>,
    PyopsError,
>)
    ensures
        log_events_result(r) == tail_events(log@, actual, tail, requested),
{
    let mut events: Vec<StreamLogEvent> = Vec::new();
    if !wants_log(requested, actual) {
        assert(log_events_view(events@) =~= Seq::empty());
        return Ok(events);
    }
    let lines = match Supervisor::tail_file(log, tail) {
        Ok(lines) => lines,
        Err(e) => return Err(e),
    };
    let ghost made = texts(lines@).map_values(log_events(actual));
    let mut i: usize = 0;
    assert(log_events_view(events@) =~= made.take(0));
    while i < lines.len()
        invariant
            made == texts(lines@).map_values(log_events(actual)),
            i <= lines@.len(),
            log_events_view(events@) == made.take(i as int),
        decreases lines@.len() - i,
    {
        let ghost so_far = log_events_view(events@);
        let event = StreamLogEvent { source: actual, line: lines[i].clone() };
        assert(event@ == made[i as int]);
        events.push(event);
        assert(log_events_view(events@) =~= so_far.push(made[i as int]));
        assert(made.take(i + 1) =~= so_far.push(made[i as int]));
        i += 1;
    }
    assert(made.take(i as int) =~= made);
    Ok(events)
}

/// Where a log that was read up to `offset` is to be read on, now that it holds
/// `len` bytes: from the start where it became shorter, and not at all where
/// nothing was added. The first part is the place; the second says whether
/// there is something to read.
pub fn stream_new_lines(offset: u64, len: u64) -> (r: (u64, bool))
    ensures
        r.0 == if len < offset {
            0
        } else {
            offset
        },
        r.1 == (len != r.0),
{
    let from: u64 = if len < offset {
        0
    } else {
        offset
    };
    (from, len != from)
}

/// A line that was added to the log `source`, as it is sent.
pub fn new_line(source: LogSource, raw: &str) -> (r: StreamLogEvent)
    ensures
        r@ == (LogEventView { source, line: trim_end_of(raw@, '\n') }),
{
    StreamLogEvent { source, line: trimmed_end_of(raw, '\n') }
}

/// How long to wait, in milliseconds, before a log is looked at again.
pub fn follow_interval(requested_ms: u64) -> (r: u64)
    ensures
        r == if requested_ms > 100 {
            requested_ms
        } else {
            100
        },
{
    if requested_ms > 100 {
        requested_ms
    } else {
        100
    }
}

/// Whether a failure to accept a client is only that there is none.
pub fn accept_again(kind: IoKind) -> (r: bool)
    ensures
        r == (kind == IoKind::WouldBlock),
{
    kind == IoKind::WouldBlock
}

/// Whether the agent is to look after its apps: once per second, and at first at
/// once. `since_last_ms` is how long ago it last did.
pub fn tick_due(since_last_ms: Option<u64>) -> (r: bool)
    ensures
        r == (since_last_ms is None || since_last_ms->0 >= 1000),
{
    match since_last_ms {
        Some(ms) => ms >= 1000,
        None => true,
    }
}

// ---- Laws ----

/// The web interface and the socket serve the requests that both know alike:
/// neither has a way of its own to an app.
pub proof fn law_web_and_socket_agree(
    sup: SupervisorView,
    req: RequestView,
    me: PingView,
    one: Seq<char>,
    other: Seq<char>,
    now: Moment,
)
    requires
        !(req is Ping || req is StreamLogs || req is WatchEvents),
    ensures
        planned(sup, req, Some(me), one, now) == planned(sup, req, None, other, now),
{
}

/// A ping is answered with what the agent says of itself; a question after an app
/// with how it is configured and how it is, or, for one that is not configured,
/// with an error that names it; a question after the end of its logs with a look
/// at its own.
pub proof fn law_questions_are_answered(
    sup: SupervisorView,
    me: PingView,
    refusal: Seq<char>,
    tail: usize,
    source: LogSource,
    now: Moment,
    i: int,
    stranger: Seq<char>,
)
    requires
        sup.wf(),
        0 <= i < sup.apps.len(),
        forall|j: int| 0 <= j < sup.apps.len() ==> (#[trigger] sup.apps[j]).0 != stranger,
    ensures
        planned(sup, RequestView::Ping, Some(me), refusal, now) == PlanView::Answer(
            ResponseView { ok: true, data: Some(DataView::Ping(me)), error: None },
        ),
        ({
            let (name, app) = sup.apps[i];
            &&& planned(sup, RequestView::GetApp(name), Some(me), refusal, now)
                == PlanView::Answer(
                ResponseView {
                    ok: true,
                    data: Some(DataView::App(DetailsView { spec: app.spec, runtime: app.state })),
                    error: None,
                },
            )
            &&& planned(sup, RequestView::TailLogs(name, tail, source), Some(me), refusal, now)
                == (PlanView::Tail {
                name,
                tail,
                source,
                stdout: stdout_log(sup.logs_dir, name),
                stderr: stderr_log(sup.logs_dir, name),
            })
        }),
        planned(sup, RequestView::GetApp(stranger), Some(me), refusal, now) == PlanView::Answer(
            ResponseView {
                ok: false,
                data: None,
                error: Some("supervisor error: unknown app '"@ + stranger + "'"@),
            },
        ),
        planned(sup, RequestView::TailLogs(stranger, tail, source), Some(me), refusal, now)
            == PlanView::Answer(
            ResponseView {
                ok: false,
                data: None,
                error: Some("supervisor error: unknown app '"@ + stranger + "'"@),
            },
        ),
        planned(sup, RequestView::ListApps, Some(me), refusal, now) == PlanView::List(
            sup.uvicorns(),
        ),
{
    reveal_strlit("supervisor error: ");
    reveal_strlit("supervisor error: unknown app '");
    reveal_strlit("unknown app '");
    let (name, app) = sup.apps[i];
    assert forall|j: int| 0 <= j < i implies (#[trigger] sup.apps[j]).0 != name by {}
    lemma_position_is(sup.apps, name, i);
    lemma_position_is(sup.apps, stranger, sup.apps.len() as int);
    assert("supervisor error: "@ + ("unknown app '"@ + stranger + "'"@)
        =~= "supervisor error: unknown app '"@ + stranger + "'"@);
}

/// Followed logs and watched events are sent as they come, as they were asked for;
/// every other request gets a single reply.
pub proof fn law_requests_keep_what_they_ask(
    name: Seq<char>,
    tail: usize,
    source: LogSource,
    ms: u64,
)
    ensures
        routed(RequestView::StreamLogs(name, tail, source, ms)) == RouteView::StreamLogs(
            name,
            tail,
            source,
            ms,
        ),
        routed(RequestView::WatchEvents) == RouteView::WatchEvents,
        forall|req: RequestView|
            !(req is StreamLogs || req is WatchEvents) ==> #[trigger] routed(req)
                == RouteView::Dispatch(req),
{
}

/// A job that failed is answered with its error.
pub proof fn law_failures_are_told(goal: Goal, e: ErrorView)
    ensures
        !job_reply(goal, Err(e)).ok,
        job_reply(goal, Err(e)).error == Some(e.text()),
        job_reply(goal, Err(e)).data is None,
{
}

/// What is told of a change is what it is: an app that now runs was started, one
/// that is now in error failed, and one that ran and is stopped was stopped. The
/// event names the app and the moment, and carries its state and its error.
pub proof fn law_events_say_what_happened(
    before: Seq<(Seq<char>, RuntimeView)>,
    name: Seq<char>,
    state: RuntimeView,
    ts: u64,
)
    ensures
        ({
            let event = change_event(before, ts)((name, state));
            let ran = lookup(before, name) is Some && lookup(before, name)->0.status
                == AppStatus::Running;
            &&& event.app == name && event.ts == ts && event.runtime == state && event.message
                == state.last_error
            &&& state.status == AppStatus::Running ==> event.kind
                == AgentEventKind::ProcessStarted
            &&& state.status == AppStatus::Errored ==> event.kind
                == AgentEventKind::ProcessErrored
            &&& state.status == AppStatus::Stopped && ran ==> event.kind
                == AgentEventKind::ProcessStopped
            &&& state.status == AppStatus::Stopped && !ran ==> event.kind
                == AgentEventKind::StateChanged
        }),
        ({
            let event = first_event(ts)((name, state));
            &&& event.app == name && event.ts == ts && event.runtime == state
            &&& event.kind == AgentEventKind::StateChanged
            &&& event.message == Some("initial_snapshot"@)
        }),
{
}

/// Who asked for both logs gets both, and who asked for one gets that one alone:
/// its last lines, each as one of that log.
pub proof fn law_logs_go_to_who_asked(
    log: LogTextView,
    actual: LogSource,
    tail: usize,
    requested: LogSource,
)
    requires
        actual != LogSource::Both,
        tail_of(log, tail) is Ok,
    ensures
        tail_events(log, actual, tail, requested) is Ok,
        requested != LogSource::Both && requested != actual ==> tail_events(
            log,
            actual,
            tail,
            requested,
        )->Ok_0.len() == 0,
        requested == LogSource::Both || requested == actual ==> {
            let sent = tail_events(log, actual, tail, requested)->Ok_0;
            &&& sent.len() == tail_of(log, tail)->Ok_0.len()
            &&& forall|k: int|
                0 <= k < sent.len() ==> (#[trigger] sent[k]).source == actual && sent[k].line
                    == tail_of(log, tail)->Ok_0[k]
        },
{
}

/// Of those who watch, the ones that were reached stay, in their order, and the
/// others are dropped.
pub proof fn law_who_was_reached_stays<S>(s: Seq<S>, reached: Seq<bool>, one: S, ok: bool)
    requires
        s.len() == reached.len(),
    ensures
        kept_of(s.push(one), reached.push(ok)) == if ok {
            kept_of(s, reached).push(one)
        } else {
            kept_of(s, reached)
        },
{
    assert(s.push(one).drop_last() =~= s);
    lemma_kept_prefix(s, reached, reached.push(ok));
}

/// A watcher that is gone is told of as such, and any other failure as it is.
pub proof fn law_lost_watchers(kind: IoKind, m: Seq<char>)
    ensures
        event_sent(Ok(())) == Ok::<(), ErrorView>(()),
        kind == IoKind::BrokenPipe || kind == IoKind::ConnectionReset ==> event_sent(
            Err(ErrorView::Io(kind, m)),
        ) == Err::<(), ErrorView>(ErrorView::Ipc("watcher disconnected"@)),
        kind != IoKind::BrokenPipe && kind != IoKind::ConnectionReset ==> event_sent(
            Err(ErrorView::Io(kind, m)),
        ) == Err::<(), ErrorView>(ErrorView::Io(kind, m)),
{
}

/// Lines of a log that could not be read are not answered with: why is told.
pub proof fn law_unreadable_logs_are_told(lines: Seq<Seq<char>>, e: ErrorView)
    ensures
        lines_reply(Ok(lines)).ok && lines_reply(Ok(lines)).data == Some(DataView::Lines(lines)),
        !lines_reply(Err(e)).ok && lines_reply(Err(e)).data is None,
        lines_reply(Err(e)).error == Some(e.text()),
{
}

/// A request that has no answer where it arrived is refused, in the words of that
/// place: one to be kept informed, and one to be told who is there where nobody is.
pub proof fn law_misplaced_requests_are_refused(
    sup: SupervisorView,
    name: Seq<char>,
    tail: usize,
    source: LogSource,
    ms: u64,
    me: Option<PingView>,
    refusal: Seq<char>,
    now: Moment,
)
    ensures
        ({
            let refused = PlanView::Answer(
                ResponseView { ok: false, data: None, error: Some(refusal) },
            );
            &&& planned(sup, RequestView::StreamLogs(name, tail, source, ms), me, refusal, now)
                == refused
            &&& planned(sup, RequestView::WatchEvents, me, refusal, now) == refused
            &&& planned(sup, RequestView::Ping, None, refusal, now) == refused
        }),
{
}

} // verus!
