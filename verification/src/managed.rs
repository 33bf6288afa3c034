//! One supervised app: what is remembered of it, and how its exits lead to
//! restarts, delays between them and an end to them.

use crate::model::{AppRuntimeState, AppSpec, AppSpecView, AppStatus, RestartPolicy, RuntimeView};
use crate::schedule::RestartSchedule;
use crate::signals::{signal_label, signal_name};
use crate::supervisor::Supervisor;
use crate::text::{cat2, decimal_int, i32_text};
use std::collections::VecDeque;
use vstd::arithmetic::power2::{lemma2_to64, lemma_pow2_strictly_increases, pow2};
use vstd::prelude::*;

verus! {

/// How long an app has to run for its earlier restarts to be forgotten.
pub const SUCCESS_AFTER_SECS: u64 = 10;

/// How far back restarts are counted.
pub const RESTART_WINDOW_SECS: u64 = 60;

/// How many restarts are granted in that time.
pub const MAX_RESTARTS_IN_WINDOW: usize = 5;

/// A moment: in seconds since the epoch, and in nanoseconds of a clock that
/// never goes back.
#[derive(Debug, Clone, Copy, PartialEq, Eq, Structural)]
pub struct Moment {
    pub epoch: u64,
    pub mono: u64,
}

/// How a process ended: the code it exited with, or the signal that ended it.
#[derive(Debug, Clone, Copy)]
pub struct ExitStatus {
    pub code: Option<i32>,
    pub signal: Option<i32>,
}

/// A supervised app. `child` says whether its process is a child of the agent;
/// `recent_restarts` holds the nanosecond readings at which restarts were asked
/// for.
pub struct ManagedApp {
    pub spec: AppSpec,
    pub schedule: Option<RestartSchedule>,
    pub state: AppRuntimeState,
    pub child: bool,
    pub recent_restarts: VecDeque<u64>,
    pub consecutive_restarts: u32,
}

pub struct ManagedView {
    pub spec: AppSpecView,
    pub schedule: Option<RestartSchedule>,
    pub state: RuntimeView,
    pub child: bool,
    pub recent: Seq<u64>,
    pub consecutive: u32,
}

impl View for ManagedApp {
    type V = ManagedView;

    open spec fn view(&self) -> ManagedView {
        ManagedView {
            spec: self.spec@,
            schedule: self.schedule,
            state: self.state@,
            child: self.child,
            recent: self.recent_restarts@,
            consecutive: self.consecutive_restarts,
        }
    }
}

/// How an exit is worded.
pub open spec fn exit_reason(status: ExitStatus) -> Seq<char> {
    match status.signal {
        Some(sig) => "signal="@ + signal_label(sig),
        None => "exit_code="@ + decimal_int(
            match status.code {
                Some(code) => code as int,
                None => 1,
            },
        ),
    }
}

/// Whether a process that ended so failed.
pub open spec fn failed(status: ExitStatus) -> bool {
    status.code != Some(0i32)
}

/// Whether an app with that policy is started again.
pub open spec fn restarts(policy: RestartPolicy, failure: bool) -> bool {
    match policy {
        RestartPolicy::Never => false,
        RestartPolicy::OnFailure => failure,
        RestartPolicy::Always => true,
    }
}

/// Whether a restart asked for at `then` is too long ago to count at `now`.
pub open spec fn forgotten(then: u64, now: u64) -> bool {
    now - then > RESTART_WINDOW_SECS * 1_000_000_000
}

/// The restarts in `recent` that are left after the oldest ones that no longer
/// count at `now` were dropped.
pub open spec fn counted_restarts(recent: Seq<u64>, now: u64) -> Seq<u64>
    decreases recent.len(),
{
    if recent.len() > 0 && forgotten(recent[0], now) {
        counted_restarts(recent.skip(1), now)
    } else {
        recent
    }
}

/// The seconds to wait before the restart number `n` in a row.
pub open spec fn backoff_secs(n: u32) -> int {
    if pow2((n - 1) as nat) < 30 {
        pow2((n - 1) as nat) as int
    } else {
        30
    }
}

/// `a + b`, but at most `max`.
pub open spec fn capped(a: int, b: int, max: int) -> int {
    if a + b <= max {
        a + b
    } else {
        max
    }
}

impl ManagedView {
    /// Whether what is remembered agrees: a child is a running process, and no
    /// restart of it is put off.
    pub open spec fn wf(self) -> bool {
        self.child ==> {
            &&& self.state.status == AppStatus::Running
            &&& self.state.pid is Some
            &&& self.state.backoff_until is None
        }
    }

    /// Whether the app ran long enough before it ended at `now_epoch`.
    pub open spec fn settled(self, now_epoch: u64) -> bool {
        match self.state.started_at {
            Some(at) => now_epoch - at >= SUCCESS_AFTER_SECS,
            None => false,
        }
    }

    /// After its process ended with `status`.
    pub open spec fn exited(self, status: ExitStatus, now_epoch: u64) -> ManagedView {
        ManagedView {
            child: false,
            recent: if self.settled(now_epoch) {
                Seq::empty()
            } else {
                self.recent
            },
            consecutive: if self.settled(now_epoch) {
                0
            } else {
                self.consecutive
            },
            state: RuntimeView {
                pid: None,
                started_at: None,
                last_exit_code: status.code,
                last_exit_signal: match status.signal {
                    Some(sig) => Some(signal_label(sig)),
                    None => None,
                },
                last_reason: Some(exit_reason(status)),
                ..self.state
            },
            ..self
        }
    }

    /// Whether a restart asked for at `now` is granted.
    pub open spec fn may_restart(self, now: u64) -> bool {
        counted_restarts(self.recent, now).len() < MAX_RESTARTS_IN_WINDOW
    }

    /// After a restart was asked for: it is put off for a while, or refused.
    pub open spec fn restart_asked(self, now: Moment) -> ManagedView {
        let counted = ManagedView {
            recent: counted_restarts(self.recent, now.mono).push(now.mono),
            state: RuntimeView {
                restart_count: capped(
                    self.state.restart_count as int,
                    1,
                    u32::MAX as int,
                ) as u32,
                ..self.state
            },
            ..self
        };
        if self.may_restart(now.mono) {
            let n = capped(self.consecutive as int, 1, u32::MAX as int) as u32;
            ManagedView {
                consecutive: n,
                state: RuntimeView {
                    status: AppStatus::Stopped,
                    backoff_until: Some(
                        capped(now.epoch as int, backoff_secs(n), u64::MAX as int) as u64,
                    ),
                    ..counted.state
                },
                ..counted
            }
        } else {
            ManagedView {
                state: RuntimeView {
                    status: AppStatus::Errored,
                    last_error: Some("crash loop protection triggered (>5 restarts in 60s)"@),
                    last_reason: Some("max_restarts_exceeded"@),
                    backoff_until: None,
                    ..counted.state
                },
                ..counted
            }
        }
    }
}

/// The seconds to wait before the restart number `n` in a row.
pub fn backoff_seconds(n: u32) -> (r: u64)
    requires
        n >= 1,
    ensures
        r == backoff_secs(n),
        1 <= r <= 30,
{
    proof {
        lemma2_to64();
        if n >= 7 {
            lemma_pow2_strictly_increases(5, (n - 1) as nat);
        }
    }
    if n == 1 {
        1
    } else if n == 2 {
        2
    } else if n == 3 {
        4
    } else if n == 4 {
        8
    } else if n == 5 {
        16
    } else {
        30
    }
}

impl Supervisor {
    /// Records that the process of `app` ended with `status`.
    pub fn record_exit(app: &mut ManagedApp, status: ExitStatus, now_epoch: u64)
        ensures
            final(app)@ == old(app)@.exited(status, now_epoch),
    {
        if let Some(started_at) = app.state.started_at {
            if now_epoch.saturating_sub(started_at) >= SUCCESS_AFTER_SECS {
                app.consecutive_restarts = 0;
                app.recent_restarts.clear();
            }
        }
        app.child = false;
        app.state.pid = None;
        app.state.started_at = None;
        app.state.last_exit_code = status.code;
        match status.signal {
            Some(sig) => {
                app.state.last_exit_signal = Some(signal_name(sig));
                let name = signal_name(sig);
                app.state.last_reason = Some(cat2("signal=", name.as_str()));
            },
            None => {
                app.state.last_exit_signal = None;
                let code: i32 = match status.code {
                    Some(code) => code,
                    None => 1,
                };
                let number = i32_text(code);
                app.state.last_reason = Some(cat2("exit_code=", number.as_str()));
            },
        }
    }

    /// Whether a process that ended with `status` failed.
    pub fn is_failure(status: ExitStatus) -> (r: bool)
        ensures
            r == failed(status),
    {
        match status.code {
            Some(code) => code != 0,
            None => true,
        }
    }

    /// Whether an app with that policy is started again.
    pub fn should_restart(policy: RestartPolicy, failure: bool) -> (r: bool)
        ensures
            r == restarts(policy, failure),
    {
        match policy {
            RestartPolicy::Never => false,
            RestartPolicy::OnFailure => failure,
            RestartPolicy::Always => true,
        }
    }

    /// Asks for a restart of `app`; whether it was granted.
    pub fn schedule_restart(app: &mut ManagedApp, now: Moment) -> (r: bool)
        ensures
            final(app)@ == old(app)@.restart_asked(now),
            r == old(app)@.may_restart(now.mono),
    {
        let ghost before = app@;
        while app.recent_restarts.len() > 0
            invariant_except_break
                counted_restarts(app.recent_restarts@, now.mono) == counted_restarts(
                    before.recent,
                    now.mono,
                ),
                app@ == (ManagedView { recent: app.recent_restarts@, ..before }),
            ensures
                app.recent_restarts@ == counted_restarts(before.recent, now.mono),
                app@ == (ManagedView { recent: app.recent_restarts@, ..before }),
            decreases app.recent_restarts@.len(),
        {
            let then: u64 = app.recent_restarts[0];
            if now.mono.saturating_sub(then) > RESTART_WINDOW_SECS * 1_000_000_000 {
                let ghost kept = app.recent_restarts@;
                app.recent_restarts.pop_front();
                assert(app.recent_restarts@ =~= kept.skip(1));
            } else {
                break;
            }
        }
        app.recent_restarts.push_back(now.mono);
        app.state.restart_count = app.state.restart_count.saturating_add(1);
        if app.recent_restarts.len() > MAX_RESTARTS_IN_WINDOW {
            app.state.status = AppStatus::Errored;
            app.state.last_error = Some(
                "crash loop protection triggered (>5 restarts in 60s)".to_string(),
            );
            app.state.last_reason = Some("max_restarts_exceeded".to_string());
            app.state.backoff_until = None;
            return false;
        }
        app.consecutive_restarts = app.consecutive_restarts.saturating_add(1);
        let backoff = backoff_seconds(app.consecutive_restarts);
        app.state.status = AppStatus::Stopped;
        app.state.backoff_until = Some(now.epoch.saturating_add(backoff));
        true
    }
}

pub proof fn lemma_backoff_bounds(n: u32)
    requires
        n >= 1,
    ensures
        1 <= backoff_secs(n) <= 30,
{
    lemma2_to64();
    if n >= 2 {
        lemma_pow2_strictly_increases(0, (n - 1) as nat);
    }
}

/// The delay before a restart is a second at first, doubles with each restart
/// in a row and never exceeds thirty seconds.
pub proof fn law_backoff_doubles(n: u32)
    requires
        1 <= n < u32::MAX,
    ensures
        backoff_secs(1) == 1,
        1 <= backoff_secs(n) <= 30,
        backoff_secs((n + 1) as u32) == if 2 * backoff_secs(n) < 30 {
            2 * backoff_secs(n)
        } else {
            30
        },
{
    lemma2_to64();
    if n >= 6 {
        lemma_pow2_strictly_increases(4, (n - 1) as nat);
    }
    if n >= 7 {
        lemma_pow2_strictly_increases(5, (n - 1) as nat);
    }
    if n >= 6 {
        lemma_pow2_strictly_increases(5, n as nat);
    }
}

/// Which restarts were asked for within the sixty seconds before `now`.
pub open spec fn counts_at(now: u64) -> spec_fn(u64) -> bool {
    |then: u64| now - then <= 60_000_000_000
}

/// Whether the readings never go back and end at `now` or before.
pub open spec fn in_order(recent: Seq<u64>, now: u64) -> bool {
    &&& forall|i: int, j: int| 0 <= i < j < recent.len() ==> recent[i] <= recent[j]
    &&& recent.len() > 0 ==> recent.last() <= now
}

proof fn lemma_counted(recent: Seq<u64>, now: u64)
    requires
        in_order(recent, now),
    ensures
        counted_restarts(recent, now) == recent.filter(counts_at(now)),
        in_order(counted_restarts(recent, now), now),
        forall|i: int|
            0 <= i < counted_restarts(recent, now).len() ==> !forgotten(
                #[trigger] counted_restarts(recent, now)[i],
                now,
            ),
    decreases recent.len(),
{
    let counts = counts_at(now);
    if recent.len() > 0 {
        assert(recent =~= seq![recent[0]] + recent.skip(1));
        Seq::filter_distributes_over_add(seq![recent[0]], recent.skip(1), counts);
        reveal_with_fuel(Seq::filter, 2);
        assert(seq![recent[0]].drop_last() =~= Seq::<u64>::empty());
        if forgotten(recent[0], now) {
            lemma_counted(recent.skip(1), now);
        } else {
            lemma_all_counted(recent, now);
        }
    } else {
        lemma_all_counted(recent, now);
    }
}

proof fn lemma_all_counted(recent: Seq<u64>, now: u64)
    requires
        forall|i: int| 0 <= i < recent.len() ==> !forgotten(#[trigger] recent[i], now),
    ensures
        recent.filter(counts_at(now)) == recent,
    decreases recent.len(),
{
    reveal(Seq::filter);
    if recent.len() > 0 {
        lemma_all_counted(recent.drop_last(), now);
        assert(recent =~= recent.drop_last().push(recent.last()));
    }
}

/// A restart is granted if and only if fewer than five were asked for within
/// the last sixty seconds. A refused one leaves the app errored, with the
/// reason and without a further attempt ahead. Either way what is remembered
/// stays within those sixty seconds.
pub proof fn law_crash_loop_limit(app: ManagedView, now: Moment)
    requires
        in_order(app.recent, now.mono),
    ensures
        app.may_restart(now.mono) <==> app.recent.filter(counts_at(now.mono)).len()
            < 5,
        !app.may_restart(now.mono) ==> {
            let after = app.restart_asked(now).state;
            &&& after.status == AppStatus::Errored
            &&& after.last_reason == Some("max_restarts_exceeded"@)
            &&& after.backoff_until is None
        },
        app.may_restart(now.mono) ==> {
            let after = app.restart_asked(now).state;
            &&& after.status == AppStatus::Stopped
            &&& after.last_reason == app.state.last_reason
            &&& after.backoff_until is Some
        },
        app.restart_asked(now).recent == app.recent.filter(counts_at(now.mono)).push(now.mono),
        app.state.restart_count < u32::MAX ==> app.restart_asked(now).state.restart_count
            == app.state.restart_count + 1,
        in_order(app.restart_asked(now).recent, now.mono),
        forall|i: int|
            0 <= i < app.restart_asked(now).recent.len() ==> now.mono - (
            #[trigger] app.restart_asked(now).recent[i]) <= 60_000_000_000,
{
    lemma_counted(app.recent, now.mono);
}

/// An app that ran for ten seconds or more before it ended has its restarts
/// forgotten: the next one is granted, and waits a single second. One that did
/// not has them remembered.
pub proof fn law_grace_resets(app: ManagedView, status: ExitStatus, ended: u64, now: Moment)
    requires
        now.epoch < u64::MAX,
    ensures
        !(app.state.started_at is Some && ended - app.state.started_at->0 >= 10) ==> {
            &&& app.exited(status, ended).consecutive == app.consecutive
            &&& app.exited(status, ended).recent == app.recent
        },
        app.state.started_at is Some && ended - app.state.started_at->0 >= 10 ==> {
            &&& app.exited(status, ended).consecutive == 0
            &&& app.exited(status, ended).recent.len() == 0
            &&& app.exited(status, ended).may_restart(now.mono)
            &&& app.exited(status, ended).restart_asked(now).state.backoff_until == Some(
                (now.epoch + 1) as u64,
            )
        },
{
    lemma2_to64();
}

/// A process failed unless it exited with code 0: one that was ended by a signal,
/// whichever, failed, and so did one with another code. An app that is to be
/// restarted on failure is restarted then and not otherwise; one that is always
/// to be restarted is so either way, and one that never is, never.
pub proof fn law_failures_lead_to_restarts(policy: RestartPolicy, status: ExitStatus)
    ensures
        status.code is None ==> failed(status),
        forall|code: i32| status.code == Some(code) ==> (failed(status) <==> code != 0),
        policy == RestartPolicy::OnFailure ==> (!restarts(policy, failed(status)) <==> status.code
            == Some(0i32)),
        policy == RestartPolicy::Always ==> restarts(policy, failed(status)),
        policy == RestartPolicy::Never ==> !restarts(policy, failed(status)),
{
}

/// The first restart in a row is put off for a second, and each that follows for
/// twice as long as the one before, up to thirty seconds.
pub proof fn law_delays_double(app: ManagedView, then: Moment, now: Moment)
    requires
        app.may_restart(then.mono),
        app.restart_asked(then).may_restart(now.mono),
        app.consecutive < u32::MAX - 1,
        then.epoch + 30 <= u64::MAX,
        now.epoch + 30 <= u64::MAX,
    ensures
        app.consecutive == 0 ==> app.restart_asked(then).state.backoff_until == Some(
            (then.epoch + 1) as u64,
        ),
        ({
            let first = app.restart_asked(then).state.backoff_until;
            let second = app.restart_asked(then).restart_asked(now).state.backoff_until;
            &&& first is Some && second is Some
            &&& 1 <= first->0 - then.epoch <= 30
            &&& second->0 - now.epoch == if 2 * (first->0 - then.epoch) < 30 {
                2 * (first->0 - then.epoch)
            } else {
                30
            }
        }),
{
    let n = (app.consecutive + 1) as u32;
    law_backoff_doubles(n);
    lemma_backoff_bounds((n + 1) as u32);
}

/// What is remembered of an exit: the code and the name of the signal; the reason
/// names the signal where there is one, and else the code.
pub proof fn law_exits_are_remembered(app: ManagedView, status: ExitStatus, ended: u64)
    ensures
        ({
            let after = app.exited(status, ended);
            &&& !after.child && after.state.pid is None && after.state.started_at is None
            &&& after.state.last_exit_code == status.code
            &&& status.signal is None ==> after.state.last_exit_signal is None
            &&& status.signal matches Some(sig) ==> after.state.last_exit_signal == Some(
                signal_label(sig),
            ) && after.state.last_reason == Some("signal="@ + signal_label(sig))
            &&& status.signal is None && status.code is Some ==> after.state.last_reason == Some(
                "exit_code="@ + decimal_int(status.code->0 as int),
            )
            &&& status.signal is None && status.code is None ==> after.state.last_reason == Some(
                "exit_code="@ + decimal_int(1),
            )
            &&& after.state.status == app.state.status
            &&& after.state.restart_count == app.state.restart_count
            &&& after.state.last_error == app.state.last_error
            &&& after.state.backoff_until == app.state.backoff_until
            &&& after.state.last_start_attempt_at == app.state.last_start_attempt_at
            &&& after.state.next_scheduled_restart_at == app.state.next_scheduled_restart_at
            &&& after.spec == app.spec && after.schedule == app.schedule
        }),
{
}

/// No more restarts are counted than are remembered.
pub proof fn lemma_counted_len(recent: Seq<u64>, now: u64)
    ensures
        counted_restarts(recent, now).len() <= recent.len(),
    decreases recent.len(),
{
    if recent.len() > 0 && forgotten(recent[0], now) {
        lemma_counted_len(recent.skip(1), now);
    }
}

} // verus!
