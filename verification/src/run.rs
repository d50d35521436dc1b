//! One run of a server: from the extraction of its files to the end of its process.
use vstd::prelude::*;
use vstd::string::*;

use crate::errors::ForkError;
use crate::forks::ForkManager;
use crate::instances::{InstanceManager, InstanceMessage, fresh_token, is_token};
use crate::launch::{LaunchPlan, plan_launch};
use crate::text::{
    decimal, decimal_text, optional_text, optional_texts_tell_codes_apart, optional_to_text,
};

verus! {

/// How long a server may take to shut down, in nanoseconds.
pub const SHUTDOWN_GRACE: u128 = 5_000_000_000;

/// Why the process of a server is expected to exit.
#[derive(Clone, Copy, Debug, PartialEq, Eq, Structural)]
pub enum WaitingForExitType {
    /// It is not.
    Nothing,
    /// It was told of an update and restarts when it sees fit.
    Restart,
    /// It was told to shut down and is killed if it does not.
    Kill,
}

/// What a run is waiting for.
#[derive(Clone, Copy, Debug, PartialEq, Eq, Structural)]
pub enum RunPhase {
    /// The server is being extracted.
    Extracting,
    /// The process is being started.
    Spawning,
    /// The process runs.
    Watching,
    /// The server is being told to shut down.
    NotifyingShutdown,
    /// The server is being told of an update, because it was assigned to another fork.
    NotifyingForkChange,
    /// The server is being told of an update.
    NotifyingUpdate,
    /// The process is being killed, because it was to be stopped.
    Stopping,
    /// The process is being killed, because its time was up.
    Expiring,
    /// The run has ended.
    Over,
}

/// What happens during a run.
pub enum RunEvent {
    /// The server was extracted.
    Extracted,
    /// The process was started. It has to report within `timeout` nanoseconds.
    Spawned { timeout: u128 },
    /// The process exited, with this code unless a signal ended it.
    Exited(Option<i32>),
    /// The instance was told something.
    Received(InstanceMessage),
    /// Nobody can tell the instance anything any more.
    Disconnected,
    /// The fork was updated.
    ForkUpdated,
    /// The deadline passed.
    DeadlinePassed,
    /// The server was notified, or could not be.
    Notified,
    /// The process was killed.
    Killed,
    /// What was to be done failed, for this reason.
    Failed(String),
}

/// Why a run ended badly.
pub enum RunError {
    /// The fork does not exist.
    Fork(ForkError),
    /// The process exited by itself.
    ProcessExited(Option<i32>),
    /// The process did not report in time.
    TimedOut,
    /// Something that was to be done failed.
    Failed(String),
}

impl RunError {
    /// The message for the operator.
    pub open spec fn text(self) -> Seq<char> {
        match self {
            RunError::Fork(error) => error.text(),
            RunError::ProcessExited(code) => "Process exited with code "@ + optional_text(code),
            RunError::TimedOut => "Timed out"@,
            RunError::Failed(reason) => reason@,
        }
    }

    /// Writes the message for the operator.
    pub fn message(&self) -> (message: String)
        ensures
            message@ == self.text(),
    {
        match self {
            RunError::Fork(error) => error.message(),
            RunError::ProcessExited(code) => "Process exited with code ".to_owned().concat(
                optional_to_text(*code).as_str(),
            ),
            RunError::TimedOut => "Timed out".to_owned(),
            RunError::Failed(reason) => reason.clone(),
        }
    }
}

/// How a run ended.
pub enum RunEnd {
    /// The server is not to run until it is restarted.
    Parked,
    /// The server is to run again.
    Relaunch,
    /// The server is to run again, and someone should know why it ended.
    Crashed(RunError),
}

/// A request to the server that was started: a POST to an address on this host, with the
/// internal token in a header.
pub struct Notice {
    pub url: String,
    pub header: String,
    pub token: String,
    pub body: Option<String>,
}

/// The address of a command of the server that listens on `port`.
pub open spec fn command_url(port: u16, command: Seq<char>) -> Seq<char> {
    "http://localhost:"@ + decimal(port as nat) + command
}

impl Notice {
    /// Whether `self` asks the server on `port` to shut down.
    pub open spec fn is_shutdown(self, port: u16, token: Seq<char>) -> bool {
        &&& self.url@ == command_url(port, "/shutdown"@)
        &&& self.header@ == "WatchdogToken"@
        &&& self.token@ == token
        &&& self.body matches Some(body)
        &&& body@ == r#"{"Reason":"Watchdog shutting down."}"#@
    }

    /// Whether `self` tells the server on `port` of an update.
    pub open spec fn is_update(self, port: u16, token: Seq<char>) -> bool {
        &&& self.url@ == command_url(port, "/update"@)
        &&& self.header@ == "WatchdogToken"@
        &&& self.token@ == token
        &&& self.body is None
    }
}

fn command_address(port: u16, command: &str) -> (url: String)
    ensures
        url@ == command_url(port, command@),
{
    "http://localhost:".to_owned().concat(decimal_text(port as u32).as_str()).concat(command)
}

fn shutdown_notice(port: u16, token: &str) -> (notice: Notice)
    ensures
        notice.is_shutdown(port, token@),
{
    Notice {
        url: command_address(port, "/shutdown"),
        header: "WatchdogToken".to_owned(),
        token: token.to_owned(),
        body: Some(r#"{"Reason":"Watchdog shutting down."}"#.to_owned()),
    }
}

fn update_notice(port: u16, token: &str) -> (notice: Notice)
    ensures
        notice.is_update(port, token@),
{
    Notice {
        url: command_address(port, "/update"),
        header: "WatchdogToken".to_owned(),
        token: token.to_owned(),
        body: None,
    }
}

/// What to do next during a run.
pub enum RunAction {
    /// Start the server as planned and listen for updates of this fork.
    Spawn { plan: LaunchPlan, fork: String },
    /// Wait for the process, a message, an update or the deadline, whichever comes first.
    Wait { until: u128 },
    /// Listen for updates of this fork instead, and wait.
    Resubscribe { fork: String, until: u128 },
    /// Send the notice to the server. That it cannot be sent is worth a warning only.
    Post(Notice),
    /// Kill the process.
    Kill,
    /// Nothing: the run has ended.
    Finish(RunEnd),
}

/// What decides the course of a run. Times are nanoseconds on a clock that only goes forward.
#[derive(Clone, Copy, Debug, PartialEq, Eq, Structural)]
pub struct Watch {
    pub phase: RunPhase,
    pub waiting_for_exit: WaitingForExitType,
    pub timeout: u128,
    pub deadline: u128,
}

impl Watch {
    /// Whether `event` is one that can happen now.
    pub open spec fn expects(self, event: RunEvent) -> bool {
        match self.phase {
            RunPhase::Extracting => event is Extracted || event is Failed,
            RunPhase::Spawning => event is Spawned || event is Failed,
            RunPhase::Watching => match event {
                RunEvent::Exited(_) => true,
                RunEvent::Received(_) => true,
                RunEvent::Disconnected => true,
                RunEvent::ForkUpdated => true,
                RunEvent::DeadlinePassed => true,
                RunEvent::Failed(_) => true,
                _ => false,
            },
            RunPhase::NotifyingShutdown => event is Notified,
            RunPhase::NotifyingForkChange => event is Notified,
            RunPhase::NotifyingUpdate => event is Notified,
            RunPhase::Stopping => event is Killed || event is Failed,
            RunPhase::Expiring => event is Killed || event is Failed,
            RunPhase::Over => false,
        }
    }

    /// The run in another phase.
    pub open spec fn in_phase(self, phase: RunPhase) -> Watch {
        Watch { phase, ..self }
    }

    /// The course of the run after `event`, which happened at the moment `now`. `fork_known`
    /// tells whether the fork that the instance is to run exists.
    pub open spec fn after(self, event: RunEvent, now: u128, fork_known: bool) -> Watch {
        match (self.phase, event) {
            (_, RunEvent::Failed(_)) => self.in_phase(RunPhase::Over),
            (RunPhase::Extracting, _) => self.in_phase(
                if fork_known {
                    RunPhase::Spawning
                } else {
                    RunPhase::Over
                },
            ),
            (RunPhase::Spawning, RunEvent::Spawned { timeout }) => Watch {
                phase: RunPhase::Watching,
                waiting_for_exit: WaitingForExitType::Nothing,
                timeout,
                deadline: (now + timeout) as u128,
            },
            (RunPhase::Watching, RunEvent::Exited(_)) => self.in_phase(RunPhase::Over),
            (RunPhase::Watching, RunEvent::Disconnected) => self.in_phase(RunPhase::Over),
            (RunPhase::Watching, RunEvent::DeadlinePassed) => self.in_phase(RunPhase::Expiring),
            (RunPhase::Watching, RunEvent::ForkUpdated) => self.in_phase(
                RunPhase::NotifyingUpdate,
            ),
            (RunPhase::Watching, RunEvent::Received(message)) => match message {
                InstanceMessage::Restart => self.in_phase(RunPhase::NotifyingShutdown),
                InstanceMessage::Stop => self.in_phase(RunPhase::Stopping),
                InstanceMessage::ForkChanged => self.in_phase(RunPhase::NotifyingForkChange),
                InstanceMessage::Ping => if self.waiting_for_exit == WaitingForExitType::Kill {
                    self
                } else {
                    Watch { deadline: (now + self.timeout) as u128, ..self }
                },
            },
            (RunPhase::NotifyingShutdown, _) => Watch {
                phase: RunPhase::Watching,
                waiting_for_exit: WaitingForExitType::Kill,
                deadline: (now + SHUTDOWN_GRACE) as u128,
                ..self
            },
            (RunPhase::NotifyingForkChange, _) => if fork_known {
                Watch {
                    phase: RunPhase::Watching,
                    waiting_for_exit: WaitingForExitType::Restart,
                    ..self
                }
            } else {
                self.in_phase(RunPhase::Over)
            },
            (RunPhase::NotifyingUpdate, _) => Watch {
                phase: RunPhase::Watching,
                waiting_for_exit: WaitingForExitType::Restart,
                ..self
            },
            (RunPhase::Stopping, _) => self.in_phase(RunPhase::Over),
            (RunPhase::Expiring, _) => self.in_phase(RunPhase::Over),
            (_, _) => self,
        }
    }

    /// Whether `end` is how the run ends if `event` ends it.
    pub open spec fn ends(self, event: RunEvent, end: RunEnd) -> bool {
        match (self.phase, event) {
            (_, RunEvent::Failed(reason)) => end matches RunEnd::Crashed(RunError::Failed(told))
                && told@ == reason@,
            (RunPhase::Watching, RunEvent::Exited(code)) => if self.waiting_for_exit
                != WaitingForExitType::Nothing {
                end is Relaunch
            } else {
                end matches RunEnd::Crashed(RunError::ProcessExited(told)) && told == code
            },
            (RunPhase::Watching, _) => end is Parked,
            (RunPhase::Stopping, _) => end is Parked,
            (RunPhase::Expiring, _) => end matches RunEnd::Crashed(RunError::TimedOut),
            (_, _) => end matches RunEnd::Crashed(RunError::Fork(error)) && error
                is InvalidForkForInstance,
        }
    }
}

/// A run of the server of one instance.
pub struct InstanceRun {
    pub id: String,
    pub base_url: String,
    pub windows: bool,
    pub port: u16,
    pub fork: String,
    pub internal_token: String,
    pub watch: Watch,
}

impl InstanceRun {
    /// The fork that matters when the current phase ends well: the one the run began with, or,
    /// after the instance was assigned to another, the one it has now.
    pub open spec fn relevant_fork(self, instances: InstanceManager) -> Seq<char> {
        if self.watch.phase == RunPhase::Extracting {
            self.fork@
        } else {
            instances.instances@[self.id@].fork@
        }
    }

    /// Whether `action` is what follows `event` in the run `before`, where `self` is the run
    /// after it and `fork` the fork that matters.
    pub open spec fn does(
        self,
        before: InstanceRun,
        event: RunEvent,
        fork: Seq<char>,
        action: RunAction,
    ) -> bool {
        match self.watch.phase {
            RunPhase::Over => action matches RunAction::Finish(end) && before.watch.ends(event, end),
            RunPhase::Spawning => {
                &&& action matches RunAction::Spawn { plan, fork: subscribed }
                &&& plan.starts(self.id@, self.base_url@, self.internal_token@, self.windows)
                &&& subscribed@ == before.fork@
            },
            RunPhase::Watching => if before.watch.phase == RunPhase::NotifyingForkChange {
                &&& action matches RunAction::Resubscribe { fork: subscribed, until }
                &&& subscribed@ == fork
                &&& until == self.watch.deadline
            } else {
                action matches RunAction::Wait { until } && until == self.watch.deadline
            },
            RunPhase::NotifyingShutdown => action matches RunAction::Post(notice)
                && notice.is_shutdown(self.port, self.internal_token@),
            RunPhase::NotifyingForkChange => action matches RunAction::Post(notice)
                && notice.is_update(self.port, self.internal_token@),
            RunPhase::NotifyingUpdate => action matches RunAction::Post(notice)
                && notice.is_update(self.port, self.internal_token@),
            RunPhase::Stopping => action is Kill,
            RunPhase::Expiring => action is Kill,
            RunPhase::Extracting => false,
        }
    }

    /// Whether `self` is a run of the instance `id` at its beginning.
    pub open spec fn begins(
        self,
        instances: InstanceManager,
        id: Seq<char>,
        base_url: Seq<char>,
        windows: bool,
    ) -> bool {
        &&& instances.instances@.contains_key(id)
        &&& self.id@ == id
        &&& self.base_url@ == base_url
        &&& self.windows == windows
        &&& self.port == instances.instances@[id].port
        &&& self.fork@ == instances.instances@[id].fork@
        &&& self.internal_token@ == instances.instances@[id].internal_token@
        &&& self.watch.phase is Extracting
        &&& self.watch.waiting_for_exit is Nothing
        &&& self.watch.timeout == 0
        &&& self.watch.deadline == 0
    }

    /// Begins a run of the instance `id`. The server of its fork is to be extracted first.
    pub fn start(instances: &InstanceManager, id: &str, base_url: &str, windows: bool) -> (run:
        Option<Self>)
        ensures
            match run {
                Some(begun) => begun.begins(*instances, id@, base_url@, windows),
                None => !instances.instances@.contains_key(id@),
            },
    {
        match instances.instances.get(id) {
            None => None,
            Some(instance) => Some(
                InstanceRun {
                    id: id.to_owned(),
                    base_url: base_url.to_owned(),
                    windows,
                    port: instance.port,
                    fork: instance.fork.clone(),
                    internal_token: instance.internal_token.clone(),
                    watch: Watch {
                        phase: RunPhase::Extracting,
                        waiting_for_exit: WaitingForExitType::Nothing,
                        timeout: 0,
                        deadline: 0,
                    },
                },
            ),
        }
    }

    /// Tells whether `event` is one that can happen now.
    pub fn is_expected(&self, event: &RunEvent) -> (expected: bool)
        ensures
            expected == self.watch.expects(*event),
    {
        match (self.watch.phase, event) {
            (RunPhase::Extracting, RunEvent::Extracted) => true,
            (RunPhase::Extracting, RunEvent::Failed(_)) => true,
            (RunPhase::Spawning, RunEvent::Spawned { timeout: _ }) => true,
            (RunPhase::Spawning, RunEvent::Failed(_)) => true,
            (RunPhase::Watching, RunEvent::Exited(_)) => true,
            (RunPhase::Watching, RunEvent::Received(_)) => true,
            (RunPhase::Watching, RunEvent::Disconnected) => true,
            (RunPhase::Watching, RunEvent::ForkUpdated) => true,
            (RunPhase::Watching, RunEvent::DeadlinePassed) => true,
            (RunPhase::Watching, RunEvent::Failed(_)) => true,
            (RunPhase::NotifyingShutdown, RunEvent::Notified) => true,
            (RunPhase::NotifyingForkChange, RunEvent::Notified) => true,
            (RunPhase::NotifyingUpdate, RunEvent::Notified) => true,
            (RunPhase::Stopping, RunEvent::Killed) => true,
            (RunPhase::Stopping, RunEvent::Failed(_)) => true,
            (RunPhase::Expiring, RunEvent::Killed) => true,
            (RunPhase::Expiring, RunEvent::Failed(_)) => true,
            _ => false,
        }
    }

    fn finish(&mut self, end: RunEnd) -> (action: RunAction)
        ensures
            *final(self) == (InstanceRun {
                watch: old(self).watch.in_phase(RunPhase::Over),
                ..*old(self)
            }),
            action == RunAction::Finish(end),
    {
        self.watch.phase = RunPhase::Over;
        RunAction::Finish(end)
    }

    fn wait(&mut self) -> (action: RunAction)
        ensures
            *final(self) == (InstanceRun {
                watch: old(self).watch.in_phase(RunPhase::Watching),
                ..*old(self)
            }),
            action == (RunAction::Wait { until: old(self).watch.deadline }),
    {
        self.watch.phase = RunPhase::Watching;
        RunAction::Wait { until: self.watch.deadline }
    }

    /// Goes on from the extraction with the internal token `token`: the instance gets it, and the
    /// server is to be started with it, if the fork exists.
    pub fn launch(
        &mut self,
        token: String,
        instances: &mut InstanceManager,
        forks: &ForkManager,
    ) -> (action: RunAction)
        requires
            old(self).watch.phase is Extracting,
            old(instances).instances@.contains_key(old(self).id@),
        ensures
            *final(self) == (InstanceRun {
                watch: final(self).watch,
                internal_token: final(self).internal_token,
                ..*old(self)
            }),
            final(self).internal_token@ == token@,
            final(self).watch == old(self).watch.after(
                RunEvent::Extracted,
                0,
                forks.forks@.contains_key(old(self).fork@),
            ),
            final(instances).instances@ == old(instances).instances@.insert(
                old(self).id@,
                final(instances).instances@[old(self).id@],
            ),
            final(instances).instances@[old(self).id@].retokened(
                old(instances).instances@[old(self).id@],
                token@,
            ),
            final(self).does(*old(self), RunEvent::Extracted, old(self).fork@, action),
    {
        let _ = instances.install_token(self.id.as_str(), token.clone());
        self.internal_token = token;
        match forks.forks.get(self.fork.as_str()) {
            None => self.finish(
                RunEnd::Crashed(RunError::Fork(ForkError::InvalidForkForInstance)),
            ),
            Some(_) => {
                self.watch.phase = RunPhase::Spawning;
                let plan = plan_launch(
                    self.id.as_str(),
                    self.base_url.as_str(),
                    self.internal_token.as_str(),
                    self.windows,
                );
                RunAction::Spawn { plan, fork: self.fork.clone() }
            },
        }
    }

    /// Whether `event`, which happens at the moment `now`, turns `self` to `after` and `instances`
    /// to `instances_after`, and `action` is what to do next.
    pub open spec fn turns(
        self,
        event: RunEvent,
        now: u128,
        instances: InstanceManager,
        forks: ForkManager,
        after: InstanceRun,
        instances_after: InstanceManager,
        action: RunAction,
    ) -> bool {
        &&& after.id == self.id
        &&& after.base_url == self.base_url
        &&& after.windows == self.windows
        &&& after.port == self.port
        &&& after.fork == self.fork
        &&& after.watch == self.watch.after(
            event,
            now,
            forks.forks@.contains_key(self.relevant_fork(instances)),
        )
        &&& after.does(self, event, self.relevant_fork(instances), action)
        &&& event is Extracted ==> {
            &&& is_token(after.internal_token@)
            &&& instances_after.instances@ == instances.instances@.insert(
                self.id@,
                instances_after.instances@[self.id@],
            )
            &&& instances_after.instances@[self.id@].retokened(
                instances.instances@[self.id@],
                after.internal_token@,
            )
        }
        &&& !(event is Extracted) ==> {
            &&& after.internal_token == self.internal_token
            &&& instances_after == instances
        }
    }

    /// Takes in what happened at the moment `now` and says what to do next. When the server has
    /// been extracted the instance gets a new internal token, which the server is started with;
    /// at no other time do the instances change.
    pub fn step(
        &mut self,
        event: RunEvent,
        now: u128,
        instances: &mut InstanceManager,
        forks: &ForkManager,
    ) -> (action: RunAction)
        requires
            old(self).watch.expects(event),
            old(instances).instances@.contains_key(old(self).id@),
            now + SHUTDOWN_GRACE <= u128::MAX,
            now + old(self).watch.timeout <= u128::MAX,
            event matches RunEvent::Spawned { timeout } ==> now + timeout <= u128::MAX,
        ensures
            old(self).turns(
                event,
                now,
                *old(instances),
                *forks,
                *final(self),
                *final(instances),
                action,
            ),
    {
        match (self.watch.phase, event) {
            (_, RunEvent::Failed(reason)) => self.finish(
                RunEnd::Crashed(RunError::Failed(reason)),
            ),
            (RunPhase::Extracting, _) => self.launch(fresh_token(), instances, forks),
            (RunPhase::Spawning, RunEvent::Spawned { timeout }) => {
                self.watch.waiting_for_exit = WaitingForExitType::Nothing;
                self.watch.timeout = timeout;
                self.watch.deadline = now + timeout;
                self.wait()
            },
            (RunPhase::Watching, RunEvent::Exited(code)) => {
                if self.watch.waiting_for_exit != WaitingForExitType::Nothing {
                    self.finish(RunEnd::Relaunch)
                } else {
                    self.finish(RunEnd::Crashed(RunError::ProcessExited(code)))
                }
            },
            (RunPhase::Watching, RunEvent::Disconnected) => self.finish(RunEnd::Parked),
            (RunPhase::Watching, RunEvent::DeadlinePassed) => {
                self.watch.phase = RunPhase::Expiring;
                RunAction::Kill
            },
            (RunPhase::Watching, RunEvent::ForkUpdated) => {
                self.watch.phase = RunPhase::NotifyingUpdate;
                RunAction::Post(update_notice(self.port, self.internal_token.as_str()))
            },
            (RunPhase::Watching, RunEvent::Received(InstanceMessage::Restart)) => {
                self.watch.phase = RunPhase::NotifyingShutdown;
                RunAction::Post(shutdown_notice(self.port, self.internal_token.as_str()))
            },
            (RunPhase::Watching, RunEvent::Received(InstanceMessage::Stop)) => {
                self.watch.phase = RunPhase::Stopping;
                RunAction::Kill
            },
            (RunPhase::Watching, RunEvent::Received(InstanceMessage::ForkChanged)) => {
                self.watch.phase = RunPhase::NotifyingForkChange;
                RunAction::Post(update_notice(self.port, self.internal_token.as_str()))
            },
            (RunPhase::Watching, _) => {
                if self.watch.waiting_for_exit != WaitingForExitType::Kill {
                    self.watch.deadline = now + self.watch.timeout;
                }
                self.wait()
            },
            (RunPhase::NotifyingShutdown, _) => {
                self.watch.waiting_for_exit = WaitingForExitType::Kill;
                self.watch.deadline = now + SHUTDOWN_GRACE;
                self.wait()
            },
            (RunPhase::NotifyingForkChange, _) => {
                let fork = match instances.instances.get(self.id.as_str()) {
                    Some(instance) => instance.fork.clone(),
                    None => self.fork.clone(),
                };
                match forks.forks.get(fork.as_str()) {
                    None => self.finish(
                        RunEnd::Crashed(RunError::Fork(ForkError::InvalidForkForInstance)),
                    ),
                    Some(_) => {
                        self.watch.phase = RunPhase::Watching;
                        self.watch.waiting_for_exit = WaitingForExitType::Restart;
                        RunAction::Resubscribe { fork, until: self.watch.deadline }
                    },
                }
            },
            (RunPhase::NotifyingUpdate, _) => {
                self.watch.waiting_for_exit = WaitingForExitType::Restart;
                self.wait()
            },
            (RunPhase::Stopping, _) => self.finish(RunEnd::Parked),
            (_, _) => self.finish(RunEnd::Crashed(RunError::TimedOut)),
        }
    }
}

/// Something that happens during a run: the event, its moment, and whether the fork that the
/// instance is to run exists then.
pub struct Happening {
    pub event: RunEvent,
    pub now: u128,
    pub fork_known: bool,
}

/// The course of a run after a series of happenings.
pub open spec fn course(watch: Watch, happenings: Seq<Happening>) -> Watch
    decreases happenings.len(),
{
    if happenings.len() == 0 {
        watch
    } else {
        let last = happenings.last();
        course(watch, happenings.drop_last()).after(last.event, last.now, last.fork_known)
    }
}

/// Whether the happenings can follow one another, the first in `watch`.
pub open spec fn plausible(watch: Watch, happenings: Seq<Happening>) -> bool
    decreases happenings.len(),
{
    happenings.len() == 0 || (plausible(watch, happenings.drop_last()) && course(
        watch,
        happenings.drop_last(),
    ).expects(happenings.last().event))
}

/// Whether the run is past the start of its process.
pub open spec fn is_started(watch: Watch) -> bool {
    !(watch.phase is Extracting) && !(watch.phase is Spawning)
}

/// Whether `event` makes the watchdog notify the server.
pub open spec fn prompts_notice(event: RunEvent) -> bool {
    match event {
        RunEvent::Received(InstanceMessage::Restart) => true,
        RunEvent::Received(InstanceMessage::ForkChanged) => true,
        RunEvent::ForkUpdated => true,
        _ => false,
    }
}

/// Whether the server is being notified.
pub open spec fn is_notifying(watch: Watch) -> bool {
    watch.phase is NotifyingShutdown || watch.phase is NotifyingForkChange || watch.phase
        is NotifyingUpdate
}

/// Once the exit of a process is expected, it stays expected for the rest of the run.
pub proof fn expected_exit_stays_expected(watch: Watch, happenings: Seq<Happening>)
    requires
        plausible(watch, happenings),
        is_started(watch),
        !(watch.waiting_for_exit is Nothing),
    ensures
        is_started(course(watch, happenings)),
        !(course(watch, happenings).waiting_for_exit is Nothing),
    decreases happenings.len(),
{
    if happenings.len() > 0 {
        expected_exit_stays_expected(watch, happenings.drop_last());
    }
}

/// When the server has been notified and its process exits later in the run, whatever happened
/// in between, the run ends without a crash and the server is started again.
pub proof fn exit_after_notice_is_no_crash(
    watch: Watch,
    happenings: Seq<Happening>,
    code: Option<i32>,
    end: RunEnd,
)
    requires
        is_notifying(watch),
        happenings.len() > 0,
        plausible(watch, happenings),
        course(watch, happenings).phase is Watching,
        course(watch, happenings).ends(RunEvent::Exited(code), end),
    ensures
        end is Relaunch,
{
    let first = happenings.first();
    let later = happenings.drop_first();
    let noticed = watch.after(first.event, first.now, first.fork_known);
    course_splits(watch, happenings);
    if noticed.phase is Watching {
        expected_exit_stays_expected(noticed, later);
    } else {
        over_is_final(noticed, later);
    }
}

/// The course of a run begins with what the first happening makes of it.
proof fn course_splits(watch: Watch, happenings: Seq<Happening>)
    requires
        happenings.len() > 0,
        plausible(watch, happenings),
    ensures
        watch.expects(happenings.first().event),
        plausible(
            watch.after(
                happenings.first().event,
                happenings.first().now,
                happenings.first().fork_known,
            ),
            happenings.drop_first(),
        ),
        course(
            watch.after(
                happenings.first().event,
                happenings.first().now,
                happenings.first().fork_known,
            ),
            happenings.drop_first(),
        ) == course(watch, happenings),
    decreases happenings.len(),
{
    let first = happenings.first();
    let next = watch.after(first.event, first.now, first.fork_known);
    reveal_with_fuel(course, 2);
    reveal_with_fuel(plausible, 2);
    if happenings.len() == 1 {
        assert(happenings.drop_last() =~= Seq::<Happening>::empty());
        assert(happenings.drop_first() =~= Seq::<Happening>::empty());
    } else {
        course_splits(watch, happenings.drop_last());
        assert(happenings.drop_last().drop_first() =~= happenings.drop_first().drop_last());
        assert(happenings.drop_last().first() == first);
        assert(happenings.drop_first().last() == happenings.last());
    }
}

/// Nothing happens in a run that is over.
pub proof fn over_is_final(watch: Watch, happenings: Seq<Happening>)
    requires
        watch.phase is Over,
        plausible(watch, happenings),
    ensures
        happenings.len() == 0,
        course(watch, happenings) == watch,
{
    if happenings.len() > 0 {
        course_splits(watch, happenings);
    }
}

/// A process that exits though nothing made the watchdog notify it has crashed.
pub proof fn unprompted_exit_is_crash(
    watch: Watch,
    happenings: Seq<Happening>,
    code: Option<i32>,
    end: RunEnd,
)
    requires
        watch.phase is Watching,
        watch.waiting_for_exit is Nothing,
        plausible(watch, happenings),
        forall|i: int| 0 <= i < happenings.len() ==> !prompts_notice((#[trigger] happenings[i]).event),
        course(watch, happenings).phase is Watching,
        course(watch, happenings).ends(RunEvent::Exited(code), end),
    ensures
        end matches RunEnd::Crashed(RunError::ProcessExited(told)) && told == code,
{
    unprompted_exit_is_unexpected(watch, happenings);
}

proof fn unprompted_exit_is_unexpected(watch: Watch, happenings: Seq<Happening>)
    requires
        watch.phase is Watching,
        watch.waiting_for_exit is Nothing,
        plausible(watch, happenings),
        forall|i: int| 0 <= i < happenings.len() ==> !prompts_notice((#[trigger] happenings[i]).event),
    ensures
        is_started(course(watch, happenings)),
        !is_notifying(course(watch, happenings)),
        course(watch, happenings).waiting_for_exit is Nothing,
    decreases happenings.len(),
{
    if happenings.len() > 0 {
        let earlier = happenings.drop_last();
        assert forall|i: int| 0 <= i < earlier.len() implies !prompts_notice(
            (#[trigger] earlier[i]).event,
        ) by {
            assert(earlier[i] == happenings[i]);
        }
        unprompted_exit_is_unexpected(watch, earlier);
        assert(!prompts_notice(happenings[happenings.len() - 1].event));
    }
}

/// A server that was told to shut down cannot put off its end: until the watchdog has to notify
/// it again, the deadline stands, however often the server reports.
pub proof fn shutdown_deadline_stands(watch: Watch, happenings: Seq<Happening>)
    requires
        watch.phase is Watching,
        watch.waiting_for_exit is Kill,
        plausible(watch, happenings),
        forall|i: int| 0 <= i < happenings.len() ==> !prompts_notice((#[trigger] happenings[i]).event),
    ensures
        is_started(course(watch, happenings)),
        !is_notifying(course(watch, happenings)),
        course(watch, happenings).waiting_for_exit is Kill,
        course(watch, happenings).deadline == watch.deadline,
    decreases happenings.len(),
{
    if happenings.len() > 0 {
        let earlier = happenings.drop_last();
        assert forall|i: int| 0 <= i < earlier.len() implies !prompts_notice(
            (#[trigger] earlier[i]).event,
        ) by {
            assert(earlier[i] == happenings[i]);
        }
        shutdown_deadline_stands(watch, earlier);
        assert(!prompts_notice(happenings[happenings.len() - 1].event));
    }
}

/// A server that is told to restart gets the grace period, counted from the notice.
pub proof fn restart_grants_grace(watch: Watch, asked: u128, known: bool, told: u128, known_then: bool)
    requires
        watch.phase is Watching,
        told + SHUTDOWN_GRACE <= u128::MAX,
    ensures
        ({
            let noticed = watch.after(
                RunEvent::Received(InstanceMessage::Restart),
                asked,
                known,
            ).after(RunEvent::Notified, told, known_then);
            noticed.phase is Watching && noticed.waiting_for_exit is Kill && noticed.deadline == told
                + SHUTDOWN_GRACE
        }),
{
}

/// A report of a server that was not told to shut down gives it its full timeout again.
pub proof fn report_grants_timeout(watch: Watch, now: u128, known: bool)
    requires
        watch.phase is Watching,
        !(watch.waiting_for_exit is Kill),
        now + watch.timeout <= u128::MAX,
    ensures
        ({
            let reported = watch.after(RunEvent::Received(InstanceMessage::Ping), now, known);
            reported == Watch { deadline: reported.deadline, ..watch } && reported.deadline == now
                + watch.timeout
        }),
{
}

/// A server that is stopped is parked once its process is killed, whatever it was waiting for.
pub proof fn stop_parks(watch: Watch, now: u128, known: bool, end: RunEnd)
    requires
        watch.phase is Watching,
        watch.after(RunEvent::Received(InstanceMessage::Stop), now, known).ends(
            RunEvent::Killed,
            end,
        ),
    ensures
        end is Parked,
{
}

/// A server whose deadline passes is killed, and that counts as a crash, even where its exit was
/// expected.
pub proof fn missed_deadline_is_crash(watch: Watch, now: u128, known: bool, end: RunEnd)
    requires
        watch.phase is Watching,
        watch.after(RunEvent::DeadlinePassed, now, known).ends(RunEvent::Killed, end),
    ensures
        watch.after(RunEvent::DeadlinePassed, now, known).phase is Expiring,
        end matches RunEnd::Crashed(RunError::TimedOut),
{
}

/// The message of an error tells it: which exit code a process had, what failed, and what is wrong
/// with the fork.
pub proof fn run_errors_tell_why(one: Option<i32>, other: Option<i32>, reason: String, fork: ForkError)
    ensures
        RunError::ProcessExited(one).text() == RunError::ProcessExited(other).text() ==> one
            == other,
        RunError::Failed(reason).text() == reason@,
        RunError::Fork(fork).text() == fork.text(),
        RunError::TimedOut.text() == "Timed out"@,
{
    reveal_strlit("Process exited with code ");
    let prefix = "Process exited with code "@;
    let a = RunError::ProcessExited(one).text();
    let b = RunError::ProcessExited(other).text();
    if a == b {
        assert(a.skip(25) =~= optional_text(one));
        assert(b.skip(25) =~= optional_text(other));
        optional_texts_tell_codes_apart(one, other);
    }
}

} // verus!
