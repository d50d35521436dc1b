//! The requests that the watchdog serves.
use vstd::prelude::*;

use crate::auth::{Credentials, Refusal, authorize, judgement};
use crate::config::{
    ForkRewrite, assigned_fork, edited_text, has_quote_run, is_open, rewrite_fork,
    rewriting_leaves_other_instances, rewritten_fork_is_read_back, short_names_can_be_written,
    toml_entries, with_text,
};
use crate::forks::{ForkManager, UpdateCheck};
use crate::instances::{InstanceManager, InstanceMessage};
use crate::launch::LaunchPlan;
use crate::run::{InstanceRun, RunEvent};

verus! {

/// The token with which operators command the instance `key`.
pub open spec fn operator_token(instances: InstanceManager, key: Seq<char>) -> Option<Seq<char>> {
    if instances.instances@.contains_key(key) {
        Some(instances.instances@[key].token@)
    } else {
        None
    }
}

/// The token with which the running server of the instance `key` reports.
pub open spec fn internal_token(instances: InstanceManager, key: Seq<char>) -> Option<Seq<char>> {
    if instances.instances@.contains_key(key) {
        Some(instances.instances@[key].internal_token@)
    } else {
        None
    }
}

/// The token that guards the fork `key`.
pub open spec fn fork_token(forks: ForkManager, key: Seq<char>) -> Option<Seq<char>> {
    if forks.forks@.contains_key(key) {
        Some(forks.forks@[key].token@)
    } else {
        None
    }
}

/// How a request of an operator on the instance `key` is judged.
pub open spec fn operator_judgement(
    instances: InstanceManager,
    key: Seq<char>,
    credentials: Credentials,
) -> Result<(), Refusal> {
    judgement(
        key,
        credentials.username@,
        credentials.password@,
        operator_token(instances, key),
    )
}

/// How a report of the server of the instance `key` is judged.
pub open spec fn report_judgement(
    instances: InstanceManager,
    key: Seq<char>,
    credentials: Credentials,
) -> Result<(), Refusal> {
    judgement(
        key,
        credentials.username@,
        credentials.password@,
        internal_token(instances, key),
    )
}

/// How a request on the fork `key` is judged.
pub open spec fn fork_judgement(
    forks: ForkManager,
    key: Seq<char>,
    credentials: Credentials,
) -> Result<(), Refusal> {
    judgement(key, credentials.username@, credentials.password@, fork_token(forks, key))
}

/// What is to be told to the instance, where the request was judged like this.
pub open spec fn told(verdict: Result<(), Refusal>, message: InstanceMessage) -> Result<
    InstanceMessage,
    Refusal,
> {
    match verdict {
        Ok(_) => Ok(message),
        Err(refusal) => Err(refusal),
    }
}

fn authorize_operator(instances: &InstanceManager, key: &str, credentials: &Credentials) -> (verdict:
    Result<(), Refusal>)
    ensures
        verdict == operator_judgement(*instances, key@, *credentials),
{
    match instances.instances.get(key) {
        Some(instance) => authorize(key, credentials, Some(&instance.token)),
        None => authorize(key, credentials, None),
    }
}

/// The server of the instance `key` reports that it is alive. Only the internal token of its
/// current run counts.
pub fn server_ping(instances: &InstanceManager, key: &str, credentials: &Credentials) -> (message:
    Result<InstanceMessage, Refusal>)
    ensures
        message == told(report_judgement(*instances, key@, *credentials), InstanceMessage::Ping),
{
    let verdict = match instances.instances.get(key) {
        Some(instance) => authorize(key, credentials, Some(&instance.internal_token)),
        None => authorize(key, credentials, None),
    };
    match verdict {
        Ok(_) => Ok(InstanceMessage::Ping),
        Err(refusal) => Err(refusal),
    }
}

/// An operator restarts the instance `key`.
pub fn server_restart(instances: &InstanceManager, key: &str, credentials: &Credentials) -> (message:
    Result<InstanceMessage, Refusal>)
    ensures
        message == told(
            operator_judgement(*instances, key@, *credentials),
            InstanceMessage::Restart,
        ),
{
    match authorize_operator(instances, key, credentials) {
        Ok(_) => Ok(InstanceMessage::Restart),
        Err(refusal) => Err(refusal),
    }
}

/// An operator stops the instance `key`.
pub fn server_stop(instances: &InstanceManager, key: &str, credentials: &Credentials) -> (message:
    Result<InstanceMessage, Refusal>)
    ensures
        message == told(
            operator_judgement(*instances, key@, *credentials),
            InstanceMessage::Stop,
        ),
{
    match authorize_operator(instances, key, credentials) {
        Ok(_) => Ok(InstanceMessage::Stop),
        Err(refusal) => Err(refusal),
    }
}

/// The reply to a request that was allowed, where `done` tells whether it was carried out.
pub open spec fn reply_to(done: bool) -> Result<(), Refusal> {
    if done {
        Ok(())
    } else {
        Err(Refusal::InternalServerError)
    }
}

/// Replies to a request that was allowed.
pub fn reply(done: bool) -> (reply: Result<(), Refusal>)
    ensures
        reply == reply_to(done),
{
    if done {
        Ok(())
    } else {
        Err(Refusal::InternalServerError)
    }
}

/// A request to check the fork `key` for an update. The check is to be carried out and the
/// request then answered by whether it succeeded.
pub fn fork_update(forks: &ForkManager, key: &str, credentials: &Credentials) -> (check: Result<
    UpdateCheck,
    Refusal,
>)
    ensures
        match fork_judgement(*forks, key@, *credentials) {
            Ok(_) => {
                &&& check matches Ok(begun)
                &&& begun.begins(*forks, key@)
            },
            Err(refusal) => check matches Err(given) && given == refusal,
        },
{
    let verdict = match forks.forks.get(key) {
        Some(fork) => authorize(key, credentials, Some(&fork.token)),
        None => authorize(key, credentials, None),
    };
    match verdict {
        Err(refusal) => Err(refusal),
        Ok(_) => match forks.check_update(key) {
            Ok(check) => Ok(check),
            Err(_) => Err(Refusal::InternalServerError),
        },
    }
}

/// How far the assignment of an instance to a fork has come.
#[derive(Clone, Copy, Debug, PartialEq, Eq, Structural)]
pub enum AssignStage {
    /// The configuration is being read.
    Reading,
    /// The configuration is being written.
    Writing,
    /// The instance is being told.
    Telling,
    /// The request is answered.
    Answered,
}

/// What happened during the assignment.
pub enum AssignEvent {
    /// The configuration was read, or could not be.
    ConfigRead(Option<String>),
    /// Whether the configuration was written.
    ConfigWritten(bool),
    /// Whether the instance was told.
    Told(bool),
}

/// What to do next during the assignment.
pub enum AssignAction {
    /// Write the configuration.
    WriteConfig(String),
    /// Tell the instance.
    Tell(InstanceMessage),
    /// Reply to the request.
    Reply(Result<(), Refusal>),
    /// Drop the request without a reply.
    Abort,
}

/// A request that assigns an instance to a fork.
pub struct ForkAssignment {
    pub key: String,
    pub fork: String,
    pub stage: AssignStage,
}

/// An operator assigns the instance `key` to a fork. The configuration is to be read first.
pub fn server_set_fork(
    instances: &InstanceManager,
    key: &str,
    fork: &str,
    credentials: &Credentials,
) -> (assignment: Result<ForkAssignment, Refusal>)
    ensures
        match operator_judgement(*instances, key@, *credentials) {
            Ok(_) => {
                &&& assignment matches Ok(begun)
                &&& begun.begins(key@, fork@)
            },
            Err(refusal) => assignment matches Err(given) && given == refusal,
        },
{
    match authorize_operator(instances, key, credentials) {
        Err(refusal) => Err(refusal),
        Ok(_) => Ok(
            ForkAssignment {
                key: key.to_owned(),
                fork: fork.to_owned(),
                stage: AssignStage::Reading,
            },
        ),
    }
}

impl ForkAssignment {
    /// Whether `self` assigns the instance `key` to `fork` and stands at its beginning.
    pub open spec fn begins(self, key: Seq<char>, fork: Seq<char>) -> bool {
        &&& self.key@ == key
        &&& self.fork@ == fork
        &&& self.stage is Reading
    }

    /// Whether `event` is one that can happen now.
    pub open spec fn expects(self, event: AssignEvent) -> bool {
        match self.stage {
            AssignStage::Reading => event is ConfigRead,
            AssignStage::Writing => event is ConfigWritten,
            AssignStage::Telling => event is Told,
            AssignStage::Answered => false,
        }
    }

    /// Tells whether `event` is one that can happen now.
    pub fn is_expected(&self, event: &AssignEvent) -> (expected: bool)
        ensures
            expected == self.expects(*event),
    {
        match (self.stage, event) {
            (AssignStage::Reading, AssignEvent::ConfigRead(_)) => true,
            (AssignStage::Writing, AssignEvent::ConfigWritten(_)) => true,
            (AssignStage::Telling, AssignEvent::Told(_)) => true,
            _ => false,
        }
    }

    /// Whether `action` is what follows the reading of the configuration `text`, if it could
    /// be read.
    pub open spec fn handles_config(
        self,
        before: ForkAssignment,
        text: Option<String>,
        action: AssignAction,
    ) -> bool {
        let key = before.key@;
        let fork = before.fork@;
        match text {
            None => action == AssignAction::Reply(reply_to(false)) && self.stage is Answered,
            Some(config) => match toml_entries(config@) {
                None => action == AssignAction::Reply(reply_to(false)) && self.stage is Answered,
                Some(entries) => if is_open(entries, "instances"@, key) && !has_quote_run(fork) {
                    &&& action matches AssignAction::WriteConfig(written)
                    &&& written@ == edited_text(config@, "instances"@, key, "fork"@, fork)
                    &&& toml_entries(written@) == Some(
                        with_text(entries, "instances"@, key, "fork"@, fork),
                    )
                    &&& self.stage is Writing
                } else {
                    action is Abort && self.stage is Answered
                },
            },
        }
    }

    /// Whether `event` turns `self` to `after` and `instances` to `instances_after`, and `action` is
    /// what to do next.
    pub open spec fn turns(
        self,
        instances: InstanceManager,
        event: AssignEvent,
        after: ForkAssignment,
        instances_after: InstanceManager,
        action: AssignAction,
    ) -> bool {
        &&& after.key == self.key
        &&& after.fork == self.fork
        &&& match event {
            AssignEvent::ConfigRead(text) => {
                &&& after.handles_config(self, text, action)
                &&& instances_after == instances
            },
            AssignEvent::ConfigWritten(true) => {
                let key = self.key@;
                &&& action == AssignAction::Tell(InstanceMessage::ForkChanged)
                &&& after.stage is Telling
                &&& if instances.instances@.contains_key(key) {
                    &&& instances_after.instances@ == instances.instances@.insert(
                        key,
                        instances_after.instances@[key],
                    )
                    &&& instances_after.instances@[key].reassigned(
                        instances.instances@[key],
                        self.fork@,
                    )
                } else {
                    instances_after == instances
                }
            },
            AssignEvent::ConfigWritten(false) => {
                &&& action == AssignAction::Reply(reply_to(false))
                &&& after.stage is Answered
                &&& instances_after == instances
            },
            AssignEvent::Told(done) => {
                &&& action == AssignAction::Reply(reply_to(done))
                &&& after.stage is Answered
                &&& instances_after == instances
            },
        }
    }

    /// Takes in what happened and says what to do next. The instance is assigned to the fork
    /// once the configuration says so, and is told last.
    pub fn step(&mut self, instances: &mut InstanceManager, event: AssignEvent) -> (action:
        AssignAction)
        requires
            old(self).expects(event),
        ensures
            old(self).turns(*old(instances), event, *final(self), *final(instances), action),
    {
        match event {
            AssignEvent::ConfigRead(None) => {
                self.stage = AssignStage::Answered;
                AssignAction::Reply(reply(false))
            },
            AssignEvent::ConfigRead(Some(text)) => {
                match rewrite_fork(text.as_str(), self.key.as_str(), self.fork.as_str()) {
                    ForkRewrite::Rewritten(written) => {
                        self.stage = AssignStage::Writing;
                        AssignAction::WriteConfig(written)
                    },
                    ForkRewrite::Unreadable => {
                        self.stage = AssignStage::Answered;
                        AssignAction::Reply(reply(false))
                    },
                    ForkRewrite::Obstructed => {
                        self.stage = AssignStage::Answered;
                        AssignAction::Abort
                    },
                }
            },
            AssignEvent::ConfigWritten(true) => {
                let _ = instances.assign_fork(self.key.as_str(), self.fork.as_str());
                self.stage = AssignStage::Telling;
                AssignAction::Tell(InstanceMessage::ForkChanged)
            },
            AssignEvent::ConfigWritten(false) => {
                self.stage = AssignStage::Answered;
                AssignAction::Reply(reply(false))
            },
            AssignEvent::Told(done) => {
                self.stage = AssignStage::Answered;
                AssignAction::Reply(reply(done))
            },
        }
    }
}

/// A request is let through exactly if it names what it commands as its user, that instance or
/// fork exists, and its password is the token that guards it.
pub proof fn allowed_exactly_with_token(
    instances: InstanceManager,
    forks: ForkManager,
    key: Seq<char>,
    credentials: Credentials,
)
    ensures
        operator_judgement(instances, key, credentials) is Ok <==> (credentials.username@ == key
            && instances.instances@.contains_key(key) && credentials.password@
            == instances.instances@[key].token@),
        report_judgement(instances, key, credentials) is Ok <==> (credentials.username@ == key
            && instances.instances@.contains_key(key) && credentials.password@
            == instances.instances@[key].internal_token@),
        fork_judgement(forks, key, credentials) is Ok <==> (credentials.username@ == key
            && forks.forks@.contains_key(key) && credentials.password@
            == forks.forks@[key].token@),
{
}

/// Who names another user learns nothing of what exists: the refusal is the same whatever the
/// instances and forks are.
pub proof fn foreign_requests_learn_nothing(
    instances: InstanceManager,
    forks: ForkManager,
    key: Seq<char>,
    credentials: Credentials,
)
    requires
        credentials.username@ != key,
    ensures
        operator_judgement(instances, key, credentials) == Err::<(), Refusal>(Refusal::Forbidden),
        report_judgement(instances, key, credentials) == Err::<(), Refusal>(Refusal::Forbidden),
        fork_judgement(forks, key, credentials) == Err::<(), Refusal>(Refusal::Forbidden),
{
}

/// After a new launch, a report with the token of an earlier run is refused, unless the token
/// that was drawn is the same, and a report with the new token is accepted. What operators
/// may do does not change.
pub proof fn launch_retires_old_token(
    before: InstanceManager,
    after: InstanceManager,
    key: Seq<char>,
    token: Seq<char>,
    credentials: Credentials,
)
    requires
        before.instances@.contains_key(key),
        after.instances@ == before.instances@.insert(key, after.instances@[key]),
        after.instances@[key].retokened(before.instances@[key], token),
        credentials.username@ == key,
    ensures
        report_judgement(after, key, credentials) is Ok <==> credentials.password@ == token,
        operator_judgement(after, key, credentials) == operator_judgement(before, key, credentials),
{
}

/// The server that is started for a run can report: what it is told of its id and its token is
/// what the watchdog then expects.
pub proof fn launched_server_can_report(
    before: InstanceManager,
    after: InstanceManager,
    run: InstanceRun,
    plan: LaunchPlan,
    credentials: Credentials,
)
    requires
        before.instances@.contains_key(run.id@),
        after.instances@ == before.instances@.insert(run.id@, after.instances@[run.id@]),
        after.instances@[run.id@].retokened(before.instances@[run.id@], run.internal_token@),
        plan.starts(run.id@, run.base_url@, run.internal_token@, run.windows),
        credentials.username@ == run.id@,
        credentials.password@ == plan.token@,
    ensures
        report_judgement(after, run.id@, credentials) is Ok,
{
}

/// An instance that is assigned to another fork while it runs listens to that fork from then on,
/// if the fork exists. If it does not, the run ends.
pub proof fn assignment_reaches_run(
    before: InstanceManager,
    after: InstanceManager,
    forks: ForkManager,
    run: InstanceRun,
    fork: Seq<char>,
    now: u128,
)
    requires
        before.instances@.contains_key(run.id@),
        after.instances@ == before.instances@.insert(run.id@, after.instances@[run.id@]),
        after.instances@[run.id@].reassigned(before.instances@[run.id@], fork),
        run.watch.phase is NotifyingForkChange,
    ensures
        run.relevant_fork(after) == fork,
        ({
            let next = run.watch.after(
                RunEvent::Notified,
                now,
                forks.forks@.contains_key(run.relevant_fork(after)),
            );
            if forks.forks@.contains_key(fork) {
                next.phase is Watching
            } else {
                next.phase is Over
            }
        }),
{
}

/// The assignment of one instance leaves every other as it was.
pub proof fn assignment_leaves_others(
    before: InstanceManager,
    after: InstanceManager,
    key: Seq<char>,
    other: Seq<char>,
)
    requires
        after.instances@ == before.instances@.insert(key, after.instances@[key]),
        before.instances@.contains_key(key),
        other != key,
    ensures
        after.instances@.contains_key(other) == before.instances@.contains_key(other),
        before.instances@.contains_key(other) ==> after.instances@[other] == before.instances@[other],
{
}

/// What an instance is told is what was asked for, and it is told exactly if the request was let
/// through; otherwise the refusal is the verdict.
pub proof fn commands_pass_exactly_when_allowed(
    instances: InstanceManager,
    key: Seq<char>,
    credentials: Credentials,
    message: InstanceMessage,
)
    ensures
        ({
            let known = instances.instances@.contains_key(key);
            let instance = instances.instances@[key];
            let told_by_operator = told(operator_judgement(instances, key, credentials), message);
            let told_by_server = told(report_judgement(instances, key, credentials), message);
            if credentials.username@ != key {
                &&& told_by_operator == Err::<InstanceMessage, Refusal>(Refusal::Forbidden)
                &&& told_by_server == Err::<InstanceMessage, Refusal>(Refusal::Forbidden)
            } else if !known {
                &&& told_by_operator == Err::<InstanceMessage, Refusal>(Refusal::NotFound)
                &&& told_by_server == Err::<InstanceMessage, Refusal>(Refusal::NotFound)
            } else {
                &&& told_by_operator == (if credentials.password@ == instance.token@ {
                    Ok::<InstanceMessage, Refusal>(message)
                } else {
                    Err(Refusal::Unauthorized)
                })
                &&& told_by_server == (if credentials.password@ == instance.internal_token@ {
                    Ok::<InstanceMessage, Refusal>(message)
                } else {
                    Err(Refusal::Unauthorized)
                })
            }
        }),
{
}

/// A configuration that is written assigns the instance to the fork that was asked for. All that the
/// configuration held elsewhere it holds as before, the other instances among it.
pub proof fn written_config_assigns_the_fork(
    assignment: ForkAssignment,
    instances: InstanceManager,
    text: String,
    after: ForkAssignment,
    instances_after: InstanceManager,
    written: String,
    path: Seq<Seq<char>>,
    other: Seq<char>,
)
    requires
        assignment.turns(
            instances,
            AssignEvent::ConfigRead(Some(text)),
            after,
            instances_after,
            AssignAction::WriteConfig(written),
        ),
    ensures
        instances_after == instances,
        toml_entries(text@) is Some,
        toml_entries(written@) is Some,
        ({
            let before = toml_entries(text@)->0;
            let now = toml_entries(written@)->0;
            &&& assigned_fork(now, assignment.key@) == Some(assignment.fork@)
            &&& now.contains_key(seq!["instances"@]) && now[seq!["instances"@]] is Table
            &&& now.contains_key(seq!["instances"@, assignment.key@]) && now[seq![
                "instances"@,
                assignment.key@,
            ]] is Table
            &&& other != assignment.key@ ==> assigned_fork(now, other) == assigned_fork(before, other)
            &&& !(path.len() >= 3 && path[0] == "instances"@ && path[1] == assignment.key@ && path[2]
                == "fork"@) && path != seq!["instances"@] && path != seq![
                "instances"@,
                assignment.key@,
            ] ==> now.contains_key(path) == before.contains_key(path) && (before.contains_key(path)
                ==> now[path] == before[path])
        }),
{
    let before = toml_entries(text@)->0;
    rewritten_fork_is_read_back(before, assignment.key@, assignment.fork@);
    if other != assignment.key@ {
        rewriting_leaves_other_instances(before, assignment.key@, assignment.fork@, other);
    }
    let place = seq!["instances"@, assignment.key@, "fork"@];
    assert(place[0] == "instances"@ && place[1] == assignment.key@ && place[2] == "fork"@);
    assert(place.len() == 3);
    assert(seq!["instances"@].len() == 1);
    assert(seq!["instances"@, assignment.key@].len() == 2);
}

/// A configuration in which something else than a table stands where the instance should be
/// described is not touched.
pub proof fn obstructed_config_is_left_alone(
    assignment: ForkAssignment,
    instances: InstanceManager,
    text: String,
    after: ForkAssignment,
    instances_after: InstanceManager,
    action: AssignAction,
)
    requires
        assignment.turns(
            instances,
            AssignEvent::ConfigRead(Some(text)),
            after,
            instances_after,
            action,
        ),
        toml_entries(text@) matches Some(entries) && {
            let outer = seq!["instances"@];
            let inner = seq!["instances"@, assignment.key@];
            ||| entries.contains_key(outer) && !(entries[outer] is Table)
            ||| entries.contains_key(inner) && !(entries[inner] is Table)
        },
    ensures
        action is Abort,
        instances_after == instances,
{
}

/// Where the configuration can be read and holds the instance in tables, or nothing in their place,
/// every fork with a name of fewer than 256 characters can be assigned.
pub proof fn ordinary_forks_can_be_assigned(
    assignment: ForkAssignment,
    instances: InstanceManager,
    text: String,
    after: ForkAssignment,
    instances_after: InstanceManager,
    action: AssignAction,
)
    requires
        assignment.turns(
            instances,
            AssignEvent::ConfigRead(Some(text)),
            after,
            instances_after,
            action,
        ),
        toml_entries(text@) is Some,
        ({
            let entries = toml_entries(text@)->0;
            let outer = seq!["instances"@];
            let inner = seq!["instances"@, assignment.key@];
            &&& entries.contains_key(outer) ==> entries[outer] is Table
            &&& entries.contains_key(inner) ==> entries[inner] is Table
        }),
        assignment.fork@.len() < 256,
    ensures
        action is WriteConfig,
{
    short_names_can_be_written(assignment.fork@);
}

/// How an assignment is answered: with an internal error where the configuration cannot be read, is
/// no TOML document or cannot be written, or where the instance cannot be told; with success where
/// the instance was told. The instance is told once the configuration has been written, and its fork
/// changes then and at no other time; nothing else of it changes, and no other instance does.
pub proof fn assignment_is_answered(
    assignment: ForkAssignment,
    instances: InstanceManager,
    event: AssignEvent,
    after: ForkAssignment,
    instances_after: InstanceManager,
    action: AssignAction,
    other: Seq<char>,
)
    requires
        assignment.expects(event),
        assignment.turns(instances, event, after, instances_after, action),
    ensures
        event matches AssignEvent::ConfigRead(text) ==> {
            let unreadable = match text {
                Some(config) => toml_entries(config@) is None,
                None => true,
            };
            if unreadable {
                action == AssignAction::Reply(Err(Refusal::InternalServerError))
            } else {
                action is WriteConfig || action is Abort
            }
        },
        event == AssignEvent::ConfigWritten(true) ==> action == AssignAction::Tell(
            InstanceMessage::ForkChanged,
        ),
        event == AssignEvent::ConfigWritten(false) ==> action == AssignAction::Reply(
            Err(Refusal::InternalServerError),
        ),
        event == AssignEvent::Told(true) ==> action == AssignAction::Reply(Ok(())),
        event == AssignEvent::Told(false) ==> action == AssignAction::Reply(
            Err(Refusal::InternalServerError),
        ),
        event != AssignEvent::ConfigWritten(true) ==> instances_after == instances,
        ({
            let key = assignment.key@;
            let before = instances.instances@;
            let now = instances_after.instances@;
            &&& now.contains_key(other) == before.contains_key(other)
            &&& other != key && before.contains_key(other) ==> now[other] == before[other]
            &&& event == AssignEvent::ConfigWritten(true) && before.contains_key(key) ==> {
                &&& now[key].fork@ == assignment.fork@
                &&& now[key].name@ == before[key].name@
                &&& now[key].token@ == before[key].token@
                &&& now[key].port == before[key].port
                &&& now[key].internal_token@ == before[key].internal_token@
            }
        }),
{
}

/// An assignment waits for the answer to what it asked for, and for nothing once it is answered.
pub proof fn assignment_awaits_its_answer(
    assignment: ForkAssignment,
    instances: InstanceManager,
    event: AssignEvent,
    after: ForkAssignment,
    instances_after: InstanceManager,
    action: AssignAction,
    later: AssignEvent,
)
    requires
        assignment.expects(event),
        assignment.turns(instances, event, after, instances_after, action),
    ensures
        assignment.stage is Reading ==> (assignment.expects(later) <==> later is ConfigRead),
        after.expects(later) <==> match action {
            AssignAction::WriteConfig(_) => later is ConfigWritten,
            AssignAction::Tell(_) => later is Told,
            _ => false,
        },
        after.key == assignment.key,
        after.fork == assignment.fork,
{
}

/// What an assignment writes and does is what was asked for: the configuration assigns the instance
/// of the request to the fork of the request, and so does the watchdog once it is written.
pub proof fn assignment_does_what_was_asked(
    key: Seq<char>,
    fork: Seq<char>,
    assignment: ForkAssignment,
    instances: InstanceManager,
    text: String,
    after: ForkAssignment,
    instances_after: InstanceManager,
    written: String,
    later: InstanceManager,
    told: ForkAssignment,
    instances_told: InstanceManager,
    action: AssignAction,
)
    requires
        assignment.begins(key, fork),
        assignment.turns(
            instances,
            AssignEvent::ConfigRead(Some(text)),
            after,
            instances_after,
            AssignAction::WriteConfig(written),
        ),
        later.instances@.contains_key(key),
        after.turns(later, AssignEvent::ConfigWritten(true), told, instances_told, action),
    ensures
        toml_entries(written@) matches Some(entries) && assigned_fork(entries, key) == Some(fork),
        instances_told.instances@[key].fork@ == fork,
        action == AssignAction::Tell(InstanceMessage::ForkChanged),
{
    rewritten_fork_is_read_back(toml_entries(text@)->0, key, fork);
}

} // verus!
