//! What holds of a run of a server as a whole.
use vstd::prelude::*;

use crate::auth::Credentials;
use crate::errors::ForkError;
use crate::forks::ForkManager;
use crate::handlers::{allowed_exactly_with_token, report_judgement};
use crate::instances::{InstanceManager, InstanceMessage};
use crate::launch::LaunchArg;
use crate::run::{InstanceRun, RunAction, RunEnd, RunError, RunEvent, RunPhase, WaitingForExitType};
use crate::text::decimal;

verus! {

/// A run from its beginning: its states, what happened in each and when, the instances before and
/// after that, and what was to be done next. Between two steps others may change the instances.
pub struct RunCourse {
    pub states: Seq<InstanceRun>,
    pub events: Seq<RunEvent>,
    pub moments: Seq<u128>,
    pub before: Seq<InstanceManager>,
    pub after: Seq<InstanceManager>,
    pub forks: ForkManager,
    pub actions: Seq<RunAction>,
}

impl RunCourse {
    /// Whether the run can go on like this from its state `k`.
    pub open spec fn goes_on(self, k: int) -> bool {
        let run = self.states[k];
        let event = self.events[k];
        let now = self.moments[k];
        &&& run.watch.expects(event)
        &&& self.before[k].instances@.contains_key(run.id@)
        &&& now + 5_000_000_000 <= u128::MAX
        &&& now + run.watch.timeout <= u128::MAX
        &&& event matches RunEvent::Spawned { timeout } ==> now + timeout <= u128::MAX
        &&& run.turns(
            event,
            now,
            self.before[k],
            self.forks,
            self.states[k + 1],
            self.after[k],
            self.actions[k],
        )
    }

    /// Whether the run can go like this.
    pub open spec fn runs(self) -> bool {
        &&& self.states.len() == self.events.len() + 1
        &&& self.moments.len() == self.events.len()
        &&& self.before.len() == self.events.len()
        &&& self.after.len() == self.events.len()
        &&& self.actions.len() == self.events.len()
        &&& self.states[0].watch.phase is Extracting
        &&& forall|k: int| 0 <= k < self.events.len() ==> #[trigger] self.goes_on(k)
    }

    /// The latest of the first `n` events that asked for a restart, or told of another fork or of
    /// an update, if any did.
    pub open spec fn latest_prompt(self, n: int) -> Option<RunEvent>
        decreases n,
    {
        if n <= 0 {
            None
        } else {
            match self.events[n - 1] {
                RunEvent::Received(InstanceMessage::Restart) => Some(self.events[n - 1]),
                RunEvent::Received(InstanceMessage::ForkChanged) => Some(self.events[n - 1]),
                RunEvent::ForkUpdated => Some(self.events[n - 1]),
                _ => self.latest_prompt(n - 1),
            }
        }
    }

    /// Whether the latest of the first `n` events that prompted anything asked for a restart.
    pub open spec fn is_to_restart(self, n: int) -> bool {
        self.latest_prompt(n) matches Some(RunEvent::Received(InstanceMessage::Restart))
    }

    /// Until when the run was last told to wait by the first `n` actions, if it was.
    pub open spec fn last_wait(self, n: int) -> Option<u128>
        decreases n,
    {
        if n <= 0 {
            None
        } else {
            match self.actions[n - 1] {
                RunAction::Wait { until } => Some(until),
                RunAction::Resubscribe { fork, until } => Some(until),
                _ => self.last_wait(n - 1),
            }
        }
    }

    /// How long the server may take to report, as was said when it was started.
    pub open spec fn timeout(self) -> u128 {
        self.events[1]->Spawned_timeout
    }

    /// Whether the process runs in state `n`.
    spec fn is_live(self, n: int) -> bool {
        match self.states[n].watch.phase {
            RunPhase::Extracting => false,
            RunPhase::Spawning => false,
            RunPhase::Over => false,
            _ => true,
        }
    }

    /// Whether the reason to expect an exit in state `n` is the latest prompt.
    spec fn waits_as_prompted(self, n: int) -> bool {
        match self.states[n].watch.waiting_for_exit {
            WaitingForExitType::Nothing => self.latest_prompt(n) is None,
            WaitingForExitType::Kill => self.is_to_restart(n),
            WaitingForExitType::Restart => self.latest_prompt(n) is Some && !self.is_to_restart(n),
        }
    }

    /// What holds of the run in state `n`.
    spec fn holds_at(self, n: int) -> bool {
        let run = self.states[n];
        &&& run.id == self.states[0].id
        &&& run.base_url == self.states[0].base_url
        &&& run.windows == self.states[0].windows
        &&& run.port == self.states[0].port
        &&& run.fork == self.states[0].fork
        &&& run.watch.phase is Extracting <==> n == 0
        &&& run.watch.phase is Spawning ==> n == 1
        &&& run.watch.phase is Spawning ==> self.latest_prompt(n) is None
        &&& n > 0 ==> run.internal_token == self.states[1].internal_token || !(self.events[0] is Extracted)
        &&& n > 0 && !(run.watch.phase is Over) ==> self.events[0] is Extracted
        &&& self.is_live(n) ==> {
            &&& n >= 2
            &&& self.events[1] is Spawned
            &&& run.watch.timeout == self.timeout()
            &&& self.last_wait(n) == Some(run.watch.deadline)
        }
        &&& match run.watch.phase {
            RunPhase::Watching => self.waits_as_prompted(n),
            RunPhase::Stopping => self.events[n - 1] == RunEvent::Received(InstanceMessage::Stop),
            RunPhase::Expiring => self.events[n - 1] is DeadlinePassed,
            RunPhase::NotifyingShutdown => self.events[n - 1] == RunEvent::Received(
                InstanceMessage::Restart,
            ),
            RunPhase::NotifyingForkChange => self.events[n - 1] == RunEvent::Received(
                InstanceMessage::ForkChanged,
            ),
            RunPhase::NotifyingUpdate => self.events[n - 1] is ForkUpdated,
            _ => true,
        }
    }

    proof fn lemma_holds(self, n: int)
        requires
            self.runs(),
            0 <= n < self.states.len(),
        ensures
            self.holds_at(n),
        decreases n,
    {
        if n > 0 {
            self.lemma_holds(n - 1);
            assert(self.goes_on(n - 1));
            reveal_with_fuel(RunCourse::latest_prompt, 2);
            reveal_with_fuel(RunCourse::last_wait, 2);
        }
    }
}

/// The server is started with what it needs to report: its id, the address of the watchdog, the
/// files of its instance, and a token that is the internal token of the instance from then on. If
/// the fork does not exist, nothing is started and the run ends for it.
pub proof fn launch_hands_over_id_address_and_token(course: RunCourse)
    requires
        course.runs(),
        course.events.len() > 0,
        course.events[0] is Extracted,
    ensures
        ({
            let run = course.states[0];
            if course.forks.forks@.contains_key(run.fork@) {
                &&& course.actions[0] matches RunAction::Spawn { plan, fork }
                &&& fork@ == run.fork@
                &&& plan.command@ == (if run.windows {
                    "Robust.Server.exe"@
                } else {
                    "Robust.Server"@
                })
                &&& plan.args@.len() == 8
                &&& plan.args@[0] matches LaunchArg::Text(arg) && arg@ == "--cvar"@
                &&& plan.args@[1] matches LaunchArg::Text(arg) && arg@ == "watchdog.key="@ + run.id@
                &&& plan.args@[2] matches LaunchArg::Text(arg) && arg@ == "--cvar"@
                &&& plan.args@[3] matches LaunchArg::Text(arg) && arg@ == "watchdog.baseUrl="@
                    + run.base_url@
                &&& plan.args@[4] matches LaunchArg::Text(arg) && arg@ == "--config-file"@
                &&& plan.args@[5] matches LaunchArg::InstancePath(arg) && arg@ == "config.toml"@
                &&& plan.args@[6] matches LaunchArg::Text(arg) && arg@ == "--data-dir"@
                &&& plan.args@[7] matches LaunchArg::InstancePath(arg) && arg@ == "data"@
                &&& plan.token_variable@ == "ROBUST_CVAR_watchdog__token"@
                &&& plan.token@ == course.after[0].instances@[run.id@].internal_token@
                &&& plan.token@.len() == 64
            } else {
                course.actions[0] matches RunAction::Finish(
                    RunEnd::Crashed(RunError::Fork(ForkError::InvalidForkForInstance)),
                )
            }
        }),
{
    assert(course.goes_on(0));
}

/// A launch changes the internal token of its own instance and nothing else; no other step of a run
/// changes the instances.
pub proof fn run_changes_only_its_token(course: RunCourse, k: int, other: Seq<char>)
    requires
        course.runs(),
        0 <= k < course.events.len(),
    ensures
        ({
            let id = course.states[0].id@;
            let before = course.before[k].instances@;
            let after = course.after[k].instances@;
            &&& !(course.events[k] is Extracted) ==> after == before
            &&& after.contains_key(other) == before.contains_key(other)
            &&& other != id && before.contains_key(other) ==> after[other] == before[other]
            &&& after[id].name@ == before[id].name@
            &&& after[id].token@ == before[id].token@
            &&& after[id].port == before[id].port
            &&& after[id].fork@ == before[id].fork@
        }),
{
    assert(course.goes_on(k));
    course.lemma_holds(k);
}

/// The server that is started can report: with the id from its command line as user name and the
/// token from its environment as password, its report is let through.
pub proof fn spawned_server_can_report(course: RunCourse, credentials: Credentials)
    requires
        course.runs(),
        course.events.len() > 0,
        course.events[0] is Extracted,
        course.actions[0] matches RunAction::Spawn { plan, fork } && (plan.args@[1]
            matches LaunchArg::Text(arg) && arg@ == "watchdog.key="@ + credentials.username@)
            && credentials.password@ == plan.token@,
    ensures
        report_judgement(course.after[0], credentials.username@, credentials) is Ok,
{
    assert(course.goes_on(0));
    launch_hands_over_id_address_and_token(course);
    let id = course.states[0].id@;
    let prefix = "watchdog.key="@;
    let whole = prefix + id;
    assert(whole == prefix + credentials.username@);
    assert(whole.skip(prefix.len() as int) =~= id);
    assert(whole.skip(prefix.len() as int) =~= credentials.username@);
    allowed_exactly_with_token(
        course.after[0],
        course.forks,
        credentials.username@,
        credentials,
    );
}

/// From the moment it is started, the server has its whole timeout to report.
pub proof fn start_grants_timeout(course: RunCourse, k: int)
    requires
        course.runs(),
        0 <= k < course.events.len(),
        course.events[k] is Spawned,
    ensures
        k == 1,
        course.actions[k] matches RunAction::Wait { until } && until == course.moments[k]
            + course.timeout(),
{
    assert(course.goes_on(k));
    course.lemma_holds(k);
}

/// A report gives the server its whole timeout again, counted from the report, unless the latest
/// that prompted anything was a request to restart; then the report changes nothing.
pub proof fn report_moves_deadline_unless_to_restart(course: RunCourse, k: int)
    requires
        course.runs(),
        0 <= k < course.events.len(),
        course.events[k] == RunEvent::Received(InstanceMessage::Ping),
    ensures
        course.events[1] is Spawned,
        course.actions[k] matches RunAction::Wait { until } && if course.is_to_restart(k) {
            course.last_wait(k) == Some(until)
        } else {
            until == course.moments[k] + course.timeout()
        },
{
    assert(course.goes_on(k));
    course.lemma_holds(k);
}

/// A server that was told to shut down has five seconds, counted from the notice. One that was told
/// of an update keeps the deadline it had. One that was assigned to another fork keeps it too, and
/// the run listens to the fork that the instance has then; if that fork does not exist, the run
/// ends for it.
pub proof fn notice_sets_deadline(course: RunCourse, k: int)
    requires
        course.runs(),
        0 <= k < course.events.len(),
        course.events[k] is Notified,
    ensures
        k > 0,
        match course.events[k - 1] {
            RunEvent::Received(InstanceMessage::Restart) => course.actions[k]
                matches RunAction::Wait { until } && until == course.moments[k] + 5_000_000_000,
            RunEvent::ForkUpdated => course.actions[k] matches RunAction::Wait { until }
                && course.last_wait(k) == Some(until),
            RunEvent::Received(InstanceMessage::ForkChanged) => {
                let current = course.before[k].instances@[course.states[0].id@].fork@;
                if course.forks.forks@.contains_key(current) {
                    course.actions[k] matches RunAction::Resubscribe { fork, until } && fork@
                        == current && course.last_wait(k) == Some(until)
                } else {
                    course.actions[k] matches RunAction::Finish(
                        RunEnd::Crashed(RunError::Fork(ForkError::InvalidForkForInstance)),
                    )
                }
            },
            _ => false,
        },
{
    assert(course.goes_on(k));
    course.lemma_holds(k);
}

/// A request to restart is passed on to the server as a shutdown, and an update or another fork as
/// an update. The notice goes to the port of the instance, with the token that the server was
/// started with.
pub proof fn prompts_are_passed_on(course: RunCourse, k: int)
    requires
        course.runs(),
        0 <= k < course.events.len(),
    ensures
        ({
            let address = "http://localhost:"@ + decimal(course.states[0].port as nat);
            match course.events[k] {
                RunEvent::Received(InstanceMessage::Restart) => {
                    &&& course.actions[k] matches RunAction::Post(notice)
                    &&& notice.url@ == address + "/shutdown"@
                    &&& notice.header@ == "WatchdogToken"@
                    &&& course.actions[0] matches RunAction::Spawn { plan, fork }
                    &&& notice.token@ == plan.token@
                    &&& notice.body matches Some(body) && body@
                        == r#"{"Reason":"Watchdog shutting down."}"#@
                },
                RunEvent::Received(InstanceMessage::ForkChanged) => {
                    &&& course.actions[k] matches RunAction::Post(notice)
                    &&& notice.url@ == address + "/update"@
                    &&& notice.header@ == "WatchdogToken"@
                    &&& course.actions[0] matches RunAction::Spawn { plan, fork }
                    &&& notice.token@ == plan.token@
                    &&& notice.body is None
                },
                RunEvent::ForkUpdated => {
                    &&& course.actions[k] matches RunAction::Post(notice)
                    &&& notice.url@ == address + "/update"@
                    &&& notice.header@ == "WatchdogToken"@
                    &&& course.actions[0] matches RunAction::Spawn { plan, fork }
                    &&& notice.token@ == plan.token@
                    &&& notice.body is None
                },
                _ => !(course.actions[k] is Post),
            }
        }),
{
    assert(course.goes_on(k));
    assert(course.goes_on(0));
    course.lemma_holds(k);
    if k > 1 {
        assert(course.goes_on(1));
        course.lemma_holds(1);
    }
}

/// A process that exits was expected to if anything ever prompted it, and is started again without
/// ado; otherwise it has crashed, and its exit code is told.
pub proof fn exit_is_a_crash_unless_prompted(course: RunCourse, k: int, code: Option<i32>)
    requires
        course.runs(),
        0 <= k < course.events.len(),
        course.events[k] == RunEvent::Exited(code),
    ensures
        if course.latest_prompt(k) is Some {
            course.actions[k] matches RunAction::Finish(RunEnd::Relaunch)
        } else {
            course.actions[k] matches RunAction::Finish(
                RunEnd::Crashed(RunError::ProcessExited(told)),
            ) && told == code
        },
{
    assert(course.goes_on(k));
    course.lemma_holds(k);
}

/// The process is killed exactly when it is to be stopped or its deadline passes. Then the run ends:
/// parked in the first case, crashed by timeout in the second. It also ends parked when nobody
/// can reach it any more, and crashed, for the given reason, when something fails.
pub proof fn run_ends_for_a_reason(course: RunCourse, k: int)
    requires
        course.runs(),
        0 <= k < course.events.len(),
    ensures
        course.actions[k] is Kill <==> (course.events[k] == RunEvent::Received(
            InstanceMessage::Stop,
        ) || course.events[k] is DeadlinePassed),
        course.events[k] is Killed ==> {
            &&& k > 0
            &&& course.actions[k - 1] is Kill
            &&& if course.events[k - 1] is DeadlinePassed {
                course.actions[k] matches RunAction::Finish(RunEnd::Crashed(RunError::TimedOut))
            } else {
                course.actions[k] matches RunAction::Finish(RunEnd::Parked)
            }
        },
        course.events[k] is Disconnected ==> (course.actions[k] matches RunAction::Finish(
            RunEnd::Parked,
        )),
        course.events[k] matches RunEvent::Failed(reason) ==> (course.actions[k]
            matches RunAction::Finish(RunEnd::Crashed(RunError::Failed(told))) && told@ == reason@),
{
    assert(course.goes_on(k));
    course.lemma_holds(k);
    if k > 0 {
        assert(course.goes_on(k - 1));
        course.lemma_holds(k - 1);
    }
}

/// A run waits for the answer to what it asked for, and, while the process runs, for whatever may
/// happen to it. A run that has finished waits for nothing.
pub proof fn run_awaits_its_answer(course: RunCourse, k: int, later: RunEvent)
    requires
        course.runs(),
        0 <= k < course.events.len(),
    ensures
        course.states[0].watch.expects(later) <==> later is Extracted || later is Failed,
        course.states[k + 1].watch.expects(later) <==> match course.actions[k] {
            RunAction::Spawn { .. } => later is Spawned || later is Failed,
            RunAction::Wait { .. } => !(later is Extracted || later is Spawned || later is Notified
                || later is Killed),
            RunAction::Resubscribe { .. } => !(later is Extracted || later is Spawned || later
                is Notified || later is Killed),
            RunAction::Post(_) => later is Notified,
            RunAction::Kill => later is Killed || later is Failed,
            RunAction::Finish(_) => false,
        },
{
    assert(course.goes_on(k));
    course.lemma_holds(k);
    course.lemma_holds(k + 1);
}

/// A server that reports in time is never killed for its silence: where each deadline that passes
/// has been reached, and the server has not been told to shut down, at least its timeout has gone by
/// since its start or its latest report.
pub proof fn silence_is_counted_from_the_latest_report(course: RunCourse, k: int, r: int)
    requires
        course.runs(),
        0 <= r < k < course.events.len(),
        course.events[r] is Spawned || (course.events[r] == RunEvent::Received(
            InstanceMessage::Ping,
        ) && !course.is_to_restart(r)),
        forall|n: int| r < n <= k ==> course.events[n] != RunEvent::Received(InstanceMessage::Ping),
        forall|n: int|
            r < n <= k ==> course.events[n] != RunEvent::Received(InstanceMessage::Restart),
        course.events[k] is DeadlinePassed,
        course.last_wait(k) matches Some(until) && until <= course.moments[k],
    ensures
        course.moments[r] + course.timeout() <= course.moments[k],
{
    if course.events[r] is Spawned {
        start_grants_timeout(course, r);
    } else {
        report_moves_deadline_unless_to_restart(course, r);
    }
    assert(course.last_wait(r + 1) == Some((course.moments[r] + course.timeout()) as u128));
    course.lemma_deadline_stands(r, k);
}

impl RunCourse {
    proof fn lemma_deadline_stands(self, r: int, k: int)
        requires
            self.runs(),
            0 <= r < k <= self.events.len(),
            self.last_wait(r + 1) is Some,
            self.events[r] is Spawned || self.events[r] == RunEvent::Received(InstanceMessage::Ping),
            forall|n: int|
                r < n < k ==> self.events[n] != RunEvent::Received(InstanceMessage::Ping),
            forall|n: int|
                r < n < k ==> self.events[n] != RunEvent::Received(InstanceMessage::Restart),
        ensures
            self.last_wait(k) == self.last_wait(r + 1),
        decreases k - r,
    {
        if k > r + 1 {
            let n = k - 1;
            self.lemma_deadline_stands(r, n);
            assert(self.goes_on(n));
            self.lemma_holds(n);
            assert(self.goes_on(r));
            self.lemma_holds(r);
            if self.events[n] is Notified {
                notice_sets_deadline(self, n);
                assert(self.events[n - 1] != RunEvent::Received(InstanceMessage::Restart));
            }
            if self.events[n] is Spawned {
                start_grants_timeout(self, n);
                assert(n > r);
            }
        }
    }
}

/// A run serves the instance that it was begun for: it starts the server of the fork that the
/// instance had then, with the id of the instance and the address that were given, and notifies
/// the server on the port of the instance.
pub proof fn run_serves_its_instance(
    course: RunCourse,
    instances: InstanceManager,
    id: Seq<char>,
    base_url: Seq<char>,
    windows: bool,
    k: int,
)
    requires
        course.runs(),
        course.states[0].begins(instances, id, base_url, windows),
        0 <= k < course.events.len(),
    ensures
        instances.instances@.contains_key(id),
        course.actions[k] matches RunAction::Spawn { plan, fork } ==> {
            &&& fork@ == instances.instances@[id].fork@
            &&& plan.args@[1] matches LaunchArg::Text(arg) && arg@ == "watchdog.key="@ + id
            &&& plan.args@[3] matches LaunchArg::Text(arg) && arg@ == "watchdog.baseUrl="@ + base_url
            &&& plan.command@ == (if windows {
                "Robust.Server.exe"@
            } else {
                "Robust.Server"@
            })
            &&& course.after[k].instances@[id].internal_token@ == plan.token@
        },
        course.actions[k] matches RunAction::Post(notice) ==> notice.url@ == "http://localhost:"@
            + decimal(instances.instances@[id].port as nat) + (if course.is_to_restart(k + 1) {
            "/shutdown"@
        } else {
            "/update"@
        }),
{
    assert(course.goes_on(k));
    course.lemma_holds(k);
    prompts_are_passed_on(course, k);
    if course.actions[k] is Spawn {
        assert(k == 0);
        launch_hands_over_id_address_and_token(course);
    }
}

} // verus!
