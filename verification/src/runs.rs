//! Whole runs: what comes of a request, from the moment it is made to the reply,
//! whatever is answered to the actions on the way.

use crate::agent::{job_reply, planned, routed, PlanView, RouteView};
use crate::cli::{client_action, ClientActionView, Commands};
use crate::lifecycle::{ActionView, ReplyView, StartPhase, StopPhase};
use crate::managed::{ManagedView, Moment};
use crate::model::{AppStatus, DataView, PingView, RequestView, SummaryView};
use crate::names::{lemma_filed, lemma_position, lemma_position_is, lookup};
use crate::supervisor::{
    begun, law_jobs_keep_well_formed, law_success_is_attained, lemma_asks_no_finish,
    lemma_begun_on_course, lemma_same_concern, lemma_start_admits, lemma_stop_admits, Goal, JobView,
    Stage, SupervisorView,
};
use crate::tui::{InputMode, UiView};
use crate::web::{web_plan, HttpView, ParamView, WebPlanView};
use vstd::prelude::*;

verus! {

impl SupervisorView {
    /// Where a job has come to once each reply was given, in its order and at its
    /// moment, to the action that was pending, or at its end.
    pub open spec fn ran(
        self,
        job: JobView,
        action: ActionView,
        replies: Seq<(ReplyView, Moment)>,
    ) -> (SupervisorView, JobView, ActionView)
        decreases replies.len(),
    {
        if replies.len() == 0 || action is Finish {
            (self, job, action)
        } else {
            let (after, (further, then)) = self.step(job, replies[0].0, replies[0].1);
            after.ran(further, then, replies.skip(1))
        }
    }

    /// The actions of such a run that were answered, each with its reply.
    pub open spec fn told(
        self,
        job: JobView,
        action: ActionView,
        replies: Seq<(ReplyView, Moment)>,
    ) -> Seq<(ActionView, ReplyView)>
        decreases replies.len(),
    {
        if replies.len() == 0 || action is Finish {
            Seq::empty()
        } else {
            let (after, (further, then)) = self.step(job, replies[0].0, replies[0].1);
            seq![(action, replies[0].0)] + after.told(further, then, replies.skip(1))
        }
    }

    /// Whether the app of that name runs, with a process.
    pub open spec fn has_running(self, name: Seq<char>) -> bool {
        exists|i: int|
            0 <= i < self.apps.len() && (#[trigger] self.apps[i]).0 == name
                && self.apps[i].1.state.status == AppStatus::Running
                && self.apps[i].1.state.pid is Some
    }

    /// Whether the app of that name is stopped, by hand and without a process.
    pub open spec fn has_stopped(self, name: Seq<char>) -> bool {
        exists|i: int|
            0 <= i < self.apps.len() && (#[trigger] self.apps[i]).0 == name
                && self.apps[i].1.state.status == AppStatus::Stopped
                && self.apps[i].1.state.last_reason == Some("manual_stop"@)
                && self.apps[i].1.state.pid is None && !self.apps[i].1.child
    }

    /// Whether the app of that name has that process.
    pub open spec fn has_process(self, name: Seq<char>, pid: u32) -> bool {
        exists|i: int|
            0 <= i < self.apps.len() && (#[trigger] self.apps[i]).0 == name
                && self.apps[i].1.state.pid == Some(pid)
    }
}

/// What a user wants of an app.
pub enum Wish {
    Start,
    Stop,
    Restart,
}

/// Whether a request, made of a supervisor, is one to do with `name` what is
/// wished: its job, if it comes to a good end, whatever was answered on the way,
/// is reported for that app, or for every app where `name` is `all`, and in the
/// words of the wish; and each of these apps is then as it was wished to be.
pub open spec fn obeyed(
    sup: SupervisorView,
    req: RequestView,
    me: Option<PingView>,
    refusal: Seq<char>,
    wish: Wish,
    name: Seq<char>,
    replies: Seq<(ReplyView, Moment)>,
    now: Moment,
) -> bool {
    planned(sup, req, me, refusal, now) matches PlanView::Run(job, first) && {
        let (after, further, last) = sup.ran(job, first, replies);
        last matches ActionView::Finish(Ok(names)) ==> {
            &&& name != "all"@ ==> names == seq![name]
            &&& name == "all"@ ==> names.len() == sup.apps.len() && forall|i: int|
                0 <= i < sup.apps.len() ==> names[i] == (#[trigger] sup.apps[i]).0
            &&& forall|k: int|
                0 <= k < names.len() ==> match wish {
                    Wish::Stop => after.has_stopped(#[trigger] names[k]),
                    _ => after.has_running(names[k]),
                }
            &&& job_reply(further.goal, Ok(names)).ok
            &&& job_reply(further.goal, Ok(names)).data == Some(
                match wish {
                    Wish::Start => DataView::Started(names),
                    Wish::Stop => DataView::Stopped(names),
                    Wish::Restart => DataView::Restarted(names),
                },
            )
        }
    }
}

proof fn lemma_run_attains(
    sup: SupervisorView,
    job: JobView,
    action: ActionView,
    replies: Seq<(ReplyView, Moment)>,
)
    requires
        sup.wf(),
        sup.admits(job),
        sup.on_course(job),
        job.asked(),
        action is Finish ==> (action matches ActionView::Finish(Ok(names)) ==> names == job.queue
            && forall|k: int|
            0 <= k < names.len() ==> sup.attained(job.goal, #[trigger] names[k])),
    ensures
        ({
            let (after, further, last) = sup.ran(job, action, replies);
            &&& further.goal == job.goal
            &&& after.wf()
            &&& last matches ActionView::Finish(Ok(names)) ==> {
                &&& names == job.queue
                &&& forall|k: int|
                    0 <= k < names.len() ==> after.attained(job.goal, #[trigger] names[k])
            }
        }),
    decreases replies.len(),
{
    if replies.len() > 0 && !(action is Finish) {
        let (reply, now) = replies[0];
        law_jobs_keep_well_formed(sup, job, reply, now);
        law_success_is_attained(sup, job, reply, now);
        lemma_same_concern(sup, job, reply, now);
        let (after, (further, then)) = sup.step(job, reply, now);
        lemma_run_attains(after, further, then, replies.skip(1));
    }
}

/// A request to start, stop or restart an app, or all of them, is answered with
/// success only when it was done, and with the kind of success that was asked for.
pub proof fn law_requests_are_carried_out(
    sup: SupervisorView,
    name: Seq<char>,
    me: Option<PingView>,
    refusal: Seq<char>,
    replies: Seq<(ReplyView, Moment)>,
    now: Moment,
)
    requires
        sup.wf(),
    ensures
        obeyed(sup, RequestView::Start(name), me, refusal, Wish::Start, name, replies, now),
        obeyed(sup, RequestView::Stop(name), me, refusal, Wish::Stop, name, replies, now),
        obeyed(sup, RequestView::Restart(name), me, refusal, Wish::Restart, name, replies, now),
{
    lemma_carried_out(sup, Goal::Start, name, replies, now);
    lemma_carried_out(sup, Goal::Stop, name, replies, now);
    lemma_carried_out(sup, Goal::Restart, name, replies, now);
}

proof fn lemma_carried_out(
    sup: SupervisorView,
    goal: Goal,
    name: Seq<char>,
    replies: Seq<(ReplyView, Moment)>,
    now: Moment,
)
    requires
        sup.wf(),
        goal == Goal::Start || goal == Goal::Stop || goal == Goal::Restart,
    ensures
        ({
            let job = begun(goal, sup.meant(name), now);
            let (after, further, last) = sup.ran(job, ActionView::Proceed, replies);
            &&& further.goal == goal
            &&& last matches ActionView::Finish(Ok(names)) ==> {
                &&& names == sup.meant(name)
                &&& forall|k: int|
                    0 <= k < names.len() ==> if goal == Goal::Stop {
                        after.has_stopped(#[trigger] names[k])
                    } else {
                        after.has_running(names[k])
                    }
            }
        }),
{
    let job = begun(goal, sup.meant(name), now);
    lemma_begun_on_course(sup, goal, name, now);
    lemma_run_attains(sup, job, ActionView::Proceed, replies);
    let (after, _, last) = sup.ran(job, ActionView::Proceed, replies);
    if let ActionView::Finish(Ok(names)) = last {
        assert forall|k: int| 0 <= k < names.len() implies if goal == Goal::Stop {
            after.has_stopped(#[trigger] names[k])
        } else {
            after.has_running(names[k])
        } by {
            assert(after.attained(goal, names[k]));
            lemma_position(after.apps, names[k]);
            let i = crate::names::position(after.apps, names[k]);
            assert(after.apps[i].0 == names[k]);
        }
    }
}

/// From the command line to the end of the job: a command to start, stop or
/// restart an app sends the agent a request that is one to do just that with the
/// app it names.
pub proof fn law_commands_are_carried_out(
    sup: SupervisorView,
    name: String,
    me: PingView,
    refusal: Seq<char>,
    replies: Seq<(ReplyView, Moment)>,
    now: Moment,
)
    requires
        sup.wf(),
    ensures
        client_action(Commands::Start { name }) matches ClientActionView::Simple(req) && (routed(
            req,
        ) matches RouteView::Dispatch(same) && obeyed(
            sup,
            same,
            Some(me),
            refusal,
            Wish::Start,
            name@,
            replies,
            now,
        )),
        client_action(Commands::Stop { name }) matches ClientActionView::Simple(req) && (routed(
            req,
        ) matches RouteView::Dispatch(same) && obeyed(
            sup,
            same,
            Some(me),
            refusal,
            Wish::Stop,
            name@,
            replies,
            now,
        )),
        client_action(Commands::Restart { name }) matches ClientActionView::Simple(req) && (routed(
            req,
        ) matches RouteView::Dispatch(same) && obeyed(
            sup,
            same,
            Some(me),
            refusal,
            Wish::Restart,
            name@,
            replies,
            now,
        )),
{
    law_requests_are_carried_out(sup, name@, Some(me), refusal, replies, now);
}

/// In the web interface, a request by `POST` to start, stop or restart the app
/// that the query names, where it may use the interface, is one to do just that.
pub proof fn law_web_commands_are_carried_out(
    sup: SupervisorView,
    web: crate::model::WebView,
    req: HttpView,
    name: Seq<char>,
    refusal: Seq<char>,
    replies: Seq<(ReplyView, Moment)>,
    now: Moment,
)
    requires
        sup.wf(),
        req.method == "POST"@,
        crate::web::admitted(web, req.headers, req.target) == Some(true),
        crate::web::param(crate::web::parts_of(req.target).1, "name"@) == ParamView::Value(name),
    ensures
        crate::web::parts_of(req.target).0 == "/api/start"@ ==> (web_plan(web, req) matches
            WebPlanView::Ask(asked) && obeyed(
            sup,
            asked,
            None,
            refusal,
            Wish::Start,
            name,
            replies,
            now,
        )),
        crate::web::parts_of(req.target).0 == "/api/stop"@ ==> (web_plan(web, req) matches
            WebPlanView::Ask(asked) && obeyed(
            sup,
            asked,
            None,
            refusal,
            Wish::Stop,
            name,
            replies,
            now,
        )),
        crate::web::parts_of(req.target).0 == "/api/restart"@ ==> (web_plan(web, req) matches
            WebPlanView::Ask(asked) && obeyed(
            sup,
            asked,
            None,
            refusal,
            Wish::Restart,
            name,
            replies,
            now,
        )),
{
    law_requests_are_carried_out(sup, name, None, refusal, replies, now);
    lemma_paths_differ();
}

proof fn lemma_paths_differ()
    ensures
        "/api/start"@ != "/"@ && "/api/start"@ != "/api/apps"@ && "/api/start"@ != "/api/app"@,
        "/api/stop"@ != "/"@ && "/api/stop"@ != "/api/apps"@ && "/api/stop"@ != "/api/app"@,
        "/api/restart"@ != "/"@ && "/api/restart"@ != "/api/apps"@ && "/api/restart"@
            != "/api/app"@,
        "/api/start"@ != "/api/stop"@ && "/api/start"@ != "/api/restart"@,
        "/api/stop"@ != "/api/restart"@,
        "/api/logs"@ != "/api/start"@ && "/api/logs"@ != "/api/stop"@ && "/api/logs"@
            != "/api/restart"@ && "/api/logs"@ != "/"@ && "/api/logs"@ != "/api/apps"@
            && "/api/logs"@ != "/api/app"@,
        "/api/app"@ != "/"@ && "/api/apps"@ != "/"@ && "/api/app"@ != "/api/apps"@,
        "GET"@ != "POST"@,
{
    reveal_strlit("/");
    reveal_strlit("/api/apps");
    reveal_strlit("/api/app");
    reveal_strlit("/api/start");
    reveal_strlit("/api/stop");
    reveal_strlit("/api/restart");
    reveal_strlit("/api/logs");
    reveal_strlit("GET");
    reveal_strlit("POST");
    assert("/api/start"@.len() == 10);
    assert("/api/restart"@.len() == 12);
    assert("/api/app"@.len() == 8);
    assert("/api/stop"@.len() == 9 && "/api/logs"@.len() == 9 && "/api/apps"@.len() == 9);
    assert("/"@.len() == 1 && "GET"@.len() == 3 && "POST"@.len() == 4);
    assert("/api/stop"@[5] != "/api/apps"@[5]);
    assert("/api/logs"@[5] != "/api/apps"@[5]);
    assert("/api/logs"@[5] != "/api/stop"@[5]);
}

/// On the screen, the keys `s`, `t` and `r` ask to start, to stop and to restart
/// the selected app, and the agent does just that with it.
pub proof fn law_keys_are_carried_out(
    sup: SupervisorView,
    ui: UiView,
    shown: Seq<SummaryView>,
    me: PingView,
    refusal: Seq<char>,
    replies: Seq<(ReplyView, Moment)>,
    now: Moment,
)
    requires
        sup.wf(),
        ui.mode == InputMode::Normal,
        ui.selected < shown.len(),
    ensures
        ({
            let name = shown[ui.selected as int].name;
            &&& ui.acted('s' as u8, shown).1 matches Some(req) && obeyed(
                sup,
                req,
                Some(me),
                refusal,
                Wish::Start,
                name,
                replies,
                now,
            )
            &&& ui.acted('t' as u8, shown).1 matches Some(req) && obeyed(
                sup,
                req,
                Some(me),
                refusal,
                Wish::Stop,
                name,
                replies,
                now,
            )
            &&& ui.acted('r' as u8, shown).1 matches Some(req) && obeyed(
                sup,
                req,
                Some(me),
                refusal,
                Wish::Restart,
                name,
                replies,
                now,
            )
        }),
{
    law_requests_are_carried_out(
        sup,
        shown[ui.selected as int].name,
        Some(me),
        refusal,
        replies,
        now,
    );
}

/// Whether an action with its reply showed that the process `pid` of an app is
/// done with: its child was seen to have ended, its group was seen to be gone, or
/// was sent `SIGKILL`.
pub open spec fn shows_end(e: (ActionView, ReplyView), name: Seq<char>, pid: u32) -> bool {
    match e {
        (ActionView::PollChild(n), ReplyView::ChildExited(_)) => n == name,
        (ActionView::ProbeGroup(p), ReplyView::Pid { rc, errno }) => p == pid && rc != 0 && errno
            != Some(1i32),
        (ActionView::Signal { pid: p, signal }, ReplyView::Signalled(a)) => p == pid && signal == 9
            && (a.rc != -1 || a.errno == Some(3i32)),
        _ => false,
    }
}

/// Whether an action with its reply started the process `pid` for an app.
pub open spec fn shows_start(e: (ActionView, ReplyView), name: Seq<char>, pid: u32) -> bool {
    match e {
        (ActionView::Spawn { name: n, .. }, ReplyView::Spawned(p)) => n == name && p == pid,
        _ => false,
    }
}

/// Whether among the actions there is one that showed the end of a process.
pub open spec fn ends_in(t: Seq<(ActionView, ReplyView)>, name: Seq<char>, pid: u32) -> bool {
    exists|i: int| 0 <= i < t.len() && shows_end(#[trigger] t[i], name, pid)
}

/// Whether among the actions there is one that started a process.
pub open spec fn starts_in(t: Seq<(ActionView, ReplyView)>, name: Seq<char>, pid: u32) -> bool {
    exists|i: int| 0 <= i < t.len() && shows_start(#[trigger] t[i], name, pid)
}

/// Whether among the actions there is one that showed the end of the process
/// `old`, and behind it one that started the process `new`.
pub open spec fn replaces_in(
    t: Seq<(ActionView, ReplyView)>,
    name: Seq<char>,
    old_pid: u32,
    new_pid: u32,
) -> bool {
    exists|i: int, j: int|
        0 <= i < j < t.len() && shows_end(#[trigger] t[i], name, old_pid) && shows_start(
            #[trigger] t[j],
            name,
            new_pid,
        )
}

/// Whether the pending action of a job is the one its stage waits for.
spec fn pends(app: ManagedView, stage: Stage, action: ActionView) -> bool {
    match stage {
        Stage::Start(StartPhase::Spawned) => action matches ActionView::Spawn { name, .. } && name
            == app.spec.name,
        Stage::Stop(StopPhase::Polled { .. }) => action == ActionView::PollChild(app.spec.name),
        Stage::Stop(StopPhase::GroupProbed { pid, .. }) => action == ActionView::ProbeGroup(pid),
        Stage::Stop(StopPhase::Killed { pid }) => action == (ActionView::Signal {
            pid,
            signal: 9,
        }),
        Stage::Over => action is Finish,
        _ => !(action is Finish),
    }
}

/// Whether a job that was asked for one app can be so: before the stop is done
/// with the process the app has it, and before the start is done it has none.
spec fn under_way(app: ManagedView, job: JobView, action: ActionView, pid: u32) -> bool {
    &&& job.asked()
    &&& job.queue.len() == 1
    &&& pends(app, job.stage, action)
    &&& match job.stage {
        Stage::Next => job.at == 1 || (job.at == 0 && if job.goal == Goal::Start {
            app.state.status != AppStatus::Running && !app.child
        } else {
            app.state.pid == Some(pid)
        }),
        Stage::Stop(StopPhase::Reaped) => job.at == 0,
        Stage::Stop(StopPhase::NextFound) => job.at == 0 && app.state.status
            != AppStatus::Running && !app.child,
        Stage::Stop(_) => job.at == 0 && app.state.pid == Some(pid),
        Stage::Start(StartPhase::NextFound) => job.at == 0 && app.state.pid is Some,
        Stage::Start(_) => job.at == 0 && app.state.status != AppStatus::Running && !app.child,
        Stage::Save => job.at == 1,
        Stage::Over => action is Finish && (action matches ActionView::Finish(Ok(_)) ==> job.at
            == 1),
        _ => false,
    }
}

/// What is still to be seen in a run that goes on from there and comes to a good
/// end.
spec fn outstanding(
    job: JobView,
    t: Seq<(ActionView, ReplyView)>,
    before: ManagedView,
    after: ManagedView,
    name: Seq<char>,
    pid: u32,
) -> bool {
    match job.stage {
        Stage::Next => if job.at == 1 {
            after.state.pid == before.state.pid
        } else {
            match job.goal {
                Goal::Start => after.state.pid matches Some(q) && starts_in(t, name, q),
                Goal::Stop => ends_in(t, name, pid),
                _ => after.state.pid matches Some(q) && replaces_in(t, name, pid, q),
            }
        },
        Stage::Stop(StopPhase::Reaped) | Stage::Stop(StopPhase::NextFound) => job.goal
            == Goal::Restart ==> (after.state.pid matches Some(q) && starts_in(t, name, q)),
        Stage::Stop(_) => if job.goal == Goal::Restart {
            after.state.pid matches Some(q) && replaces_in(t, name, pid, q)
        } else {
            ends_in(t, name, pid)
        },
        Stage::Start(StartPhase::NextFound) => after.state.pid == before.state.pid,
        Stage::Start(_) => after.state.pid matches Some(q) && starts_in(t, name, q),
        _ => after.state.pid == before.state.pid,
    }
}

proof fn lemma_later(
    t: Seq<(ActionView, ReplyView)>,
    rest: Seq<(ActionView, ReplyView)>,
    e: (ActionView, ReplyView),
    name: Seq<char>,
    pid: u32,
    q: u32,
)
    requires
        t == seq![e] + rest,
    ensures
        ends_in(rest, name, pid) ==> ends_in(t, name, pid),
        starts_in(rest, name, q) ==> starts_in(t, name, q),
        replaces_in(rest, name, pid, q) ==> replaces_in(t, name, pid, q),
        shows_end(e, name, pid) ==> ends_in(t, name, pid),
        shows_start(e, name, q) ==> starts_in(t, name, q),
        shows_end(e, name, pid) && starts_in(rest, name, q) ==> replaces_in(t, name, pid, q),
{
    assert(t[0] == e);
    assert forall|i: int| 0 <= i < rest.len() implies #[trigger] rest[i] == t[i + 1] by {}
    if ends_in(rest, name, pid) {
        let i = choose|i: int| 0 <= i < rest.len() && shows_end(#[trigger] rest[i], name, pid);
        assert(shows_end(t[i + 1], name, pid));
    }
    if starts_in(rest, name, q) {
        let i = choose|i: int| 0 <= i < rest.len() && shows_start(#[trigger] rest[i], name, q);
        assert(shows_start(t[i + 1], name, q));
        if shows_end(e, name, pid) {
            assert(shows_end(t[0], name, pid) && shows_start(t[i + 1], name, q));
        }
    }
    if replaces_in(rest, name, pid, q) {
        let (i, j) = choose|i: int, j: int|
            0 <= i < j < rest.len() && shows_end(#[trigger] rest[i], name, pid) && shows_start(
                #[trigger] rest[j],
                name,
                q,
            );
        assert(shows_end(t[i + 1], name, pid) && shows_start(t[j + 1], name, q));
    }
}

proof fn lemma_step_under_way(
    sup: SupervisorView,
    job: JobView,
    action: ActionView,
    reply: ReplyView,
    now: Moment,
    pid: u32,
)
    requires
        sup.wf(),
        sup.admits(job),
        job.queue.len() == 1,
        lookup(sup.apps, job.queue[0]) is Some,
        under_way(lookup(sup.apps, job.queue[0])->0, job, action, pid),
        !(action is Finish),
    ensures
        ({
            let name = job.queue[0];
            let app = lookup(sup.apps, name)->0;
            let (after, (further, then)) = sup.step(job, reply, now);
            let seen = lookup(after.apps, name)->0;
            &&& after.wf()
            &&& after.admits(further)
            &&& further.queue == job.queue
            &&& further.goal == job.goal
            &&& lookup(after.apps, name) is Some
            &&& !(then matches ActionView::Finish(Err(_))) ==> under_way(seen, further, then, pid)
            &&& then is Finish <==> further.stage is Over
            &&& job.stage is Next || job.stage is Save || job.stage == Stage::Start(
                StartPhase::NextFound,
            ) ==> seen.state.pid == app.state.pid
            &&& job.stage is Next && job.at == 1 && !(then is Finish) ==> further.stage is Save
            &&& job.stage is Next && job.at == 0 && !(then is Finish) ==> further.stage
                == if job.goal == Goal::Start {
                Stage::Start(StartPhase::Begin)
            } else {
                Stage::Stop(StopPhase::Begin)
            }
            &&& job.stage is Save ==> then is Finish
            &&& job.stage == Stage::Start(StartPhase::NextFound) && !(then is Finish)
                ==> further.stage is Next && further.at == 1
            &&& job.stage is Stop && (job.stage->Stop_0 is Reaped || job.stage->Stop_0 is NextFound)
                && further.stage is Stop ==> further.stage->Stop_0 is NextFound
            &&& job.stage is Stop && !(job.stage->Stop_0 is Reaped || job.stage->Stop_0 is NextFound)
                && !(then is Finish) ==> {
                ||| shows_end((action, reply), name, pid)
                ||| further.stage is Stop && !(further.stage->Stop_0 is Reaped
                    || further.stage->Stop_0 is NextFound)
            }
            &&& job.stage is Stop && !(then is Finish) && !(further.stage is Stop) ==> {
                ||| job.goal == Goal::Restart && further.stage == Stage::Start(StartPhase::Begin)
                ||| job.goal == Goal::Stop && further.stage is Next && further.at == 1
            }
            &&& job.stage is Start && !(then is Finish) && !(further.stage is Start) ==> {
                further.stage is Next && further.at == 1
            }
            &&& job.stage is Start && job.stage->Start_0 !is NextFound && !(then is Finish) ==> {
                ||| seen.state.pid matches Some(q) && shows_start((action, reply), name, q)
                ||| further.stage is Start && further.stage->Start_0 !is NextFound
            }
        }),
{
    let name = job.queue[0];
    law_jobs_keep_well_formed(sup, job, reply, now);
    lemma_same_concern(sup, job, reply, now);
    lemma_asks_no_finish(sup, reply, now);
    lemma_position(sup.apps, name);
    let app = lookup(sup.apps, name)->0;
    assert(app.spec.name == name);
    match job.stage {
        Stage::Start(phase) => {
            lemma_start_admits(sup, name, phase, reply, now);
            lemma_filed(
                sup.apps,
                name,
                app.start_step(sup.logs_dir, phase, reply, now).0,
                name,
            );
            reveal(ManagedView::start_step);
        },
        Stage::Stop(phase) => {
            lemma_stop_admits(sup, name, phase, reply, now);
            lemma_filed(sup.apps, name, app.stop_step(phase, reply, now).0, name);
            reveal(ManagedView::stop_step);
        },
        _ => {},
    }
}

proof fn lemma_under_way(
    sup: SupervisorView,
    job: JobView,
    action: ActionView,
    replies: Seq<(ReplyView, Moment)>,
    pid: u32,
)
    requires
        sup.wf(),
        sup.admits(job),
        job.queue.len() == 1,
        lookup(sup.apps, job.queue[0]) is Some,
        under_way(lookup(sup.apps, job.queue[0])->0, job, action, pid),
    ensures
        ({
            let name = job.queue[0];
            let (after, _, last) = sup.ran(job, action, replies);
            last matches ActionView::Finish(Ok(_)) ==> {
                &&& lookup(after.apps, name) is Some
                &&& outstanding(
                    job,
                    sup.told(job, action, replies),
                    lookup(sup.apps, name)->0,
                    lookup(after.apps, name)->0,
                    name,
                    pid,
                )
            }
        }),
    decreases replies.len(),
{
    let name = job.queue[0];
    if replies.len() > 0 && !(action is Finish) {
        let (reply, now) = replies[0];
        let (one, (further, then)) = sup.step(job, reply, now);
        lemma_step_under_way(sup, job, action, reply, now, pid);
        let t = sup.told(job, action, replies);
        let rest = one.told(further, then, replies.skip(1));
        let (after, _, last) = one.ran(further, then, replies.skip(1));
        if then matches ActionView::Finish(Err(_)) {
        } else {
            lemma_under_way(one, further, then, replies.skip(1), pid);
            if last matches ActionView::Finish(Ok(_)) {
                let q = lookup(after.apps, name)->0.state.pid;
                lemma_later(t, rest, (action, reply), name, pid, q->0);
            }
        }
    }
}

/// A request to restart a running app is answered with success only after its
/// former process was seen to be done with and, behind that, a new one was
/// started for it, which is the one it then has. A request to stop it is answered
/// with success only after its process was seen to be done with. A request to
/// start an app that does not run is answered with success only after a process
/// was started for it, which is the one it then has.
pub proof fn law_processes_are_replaced(
    sup: SupervisorView,
    i: int,
    me: Option<PingView>,
    refusal: Seq<char>,
    replies: Seq<(ReplyView, Moment)>,
    now: Moment,
)
    requires
        sup.wf(),
        0 <= i < sup.apps.len(),
        sup.apps[i].0 != "all"@,
    ensures
        ({
            let name = sup.apps[i].0;
            let state = sup.apps[i].1.state;
            &&& state.pid matches Some(pid) ==> (planned(
                sup,
                RequestView::Restart(name),
                me,
                refusal,
                now,
            ) matches PlanView::Run(job, first) && (sup.ran(job, first, replies).2 matches
                ActionView::Finish(Ok(_)) ==> exists|q: u32|
                sup.ran(job, first, replies).0.has_process(name, q) && #[trigger] replaces_in(
                    sup.told(job, first, replies),
                    name,
                    pid,
                    q,
                )))
            &&& state.pid matches Some(pid) ==> (planned(
                sup,
                RequestView::Stop(name),
                me,
                refusal,
                now,
            ) matches PlanView::Run(job, first) && (sup.ran(job, first, replies).2 matches
                ActionView::Finish(Ok(_)) ==> ends_in(
                sup.told(job, first, replies),
                name,
                pid,
            )))
            &&& state.status != AppStatus::Running ==> (planned(
                sup,
                RequestView::Start(name),
                me,
                refusal,
                now,
            ) matches PlanView::Run(job, first) && (sup.ran(job, first, replies).2 matches
                ActionView::Finish(Ok(_)) ==> exists|q: u32|
                sup.ran(job, first, replies).0.has_process(name, q) && #[trigger] starts_in(
                    sup.told(job, first, replies),
                    name,
                    q,
                )))
        }),
{
    let name = sup.apps[i].0;
    let state = sup.apps[i].1.state;
    assert forall|j: int| 0 <= j < i implies (#[trigger] sup.apps[j]).0 != name by {}
    lemma_position_is(sup.apps, name, i);
    if state.pid is Some {
        let pid = state.pid->0;
        let job = begun(Goal::Restart, sup.meant(name), now);
        lemma_under_way(sup, job, ActionView::Proceed, replies, pid);
        lemma_has(sup.ran(job, ActionView::Proceed, replies).0, name);
        let other = begun(Goal::Stop, sup.meant(name), now);
        lemma_under_way(sup, other, ActionView::Proceed, replies, pid);
    }
    if state.status != AppStatus::Running {
        let job = begun(Goal::Start, sup.meant(name), now);
        lemma_under_way(sup, job, ActionView::Proceed, replies, 0);
        lemma_has(sup.ran(job, ActionView::Proceed, replies).0, name);
    }
}

proof fn lemma_has(sup: SupervisorView, name: Seq<char>)
    ensures
        lookup(sup.apps, name) matches Some(app) ==> (app.state.pid matches Some(q)
            ==> sup.has_process(name, q)),
{
    lemma_position(sup.apps, name);
    if lookup(sup.apps, name) is Some {
        let i = crate::names::position(sup.apps, name);
        assert(sup.apps[i].0 == name);
    }
}

} // verus!
