//! What is done with a server between its runs.
use vstd::prelude::*;
use vstd::string::*;

use crate::instances::InstanceMessage;
use crate::run::{RunEnd, RunError};

verus! {

/// The hexadecimal digit of `d`, in lower case.
pub open spec fn hex_digit(d: nat) -> char
    recommends
        d < 16,
{
    if d < 10 {
        ('0' as nat + d) as char
    } else {
        ('a' as nat + d - 10) as char
    }
}

/// How a character stands in a JSON string.
pub open spec fn json_char(c: char) -> Seq<char> {
    if c == '"' || c == '\\' {
        seq!['\\', c]
    } else if c as nat == 0x8 {
        seq!['\\', 'b']
    } else if c as nat == 0xC {
        seq!['\\', 'f']
    } else if c == '\n' {
        seq!['\\', 'n']
    } else if c == '\r' {
        seq!['\\', 'r']
    } else if c == '\t' {
        seq!['\\', 't']
    } else if (c as nat) < 0x20 {
        seq!['\\', 'u', '0', '0', hex_digit(c as nat / 16), hex_digit(c as nat % 16)]
    } else {
        seq![c]
    }
}

/// How the characters of a text stand in a JSON string.
pub open spec fn json_chars(text: Seq<char>) -> Seq<char>
    decreases text.len(),
{
    if text.len() == 0 {
        Seq::empty()
    } else {
        json_chars(text.drop_last()) + json_char(text.last())
    }
}

/// The JSON string of a text.
pub open spec fn json_string(text: Seq<char>) -> Seq<char> {
    seq!['"'] + json_chars(text) + seq!['"']
}

/// The JSON text of an object with one member, a string.
pub open spec fn json_object(key: Seq<char>, value: Seq<char>) -> Seq<char> {
    seq!['{'] + json_string(key) + seq![':'] + json_string(value) + seq!['}']
}

/// `Value::to_string` of `serde_json`, on the object whose only member is `key` with the string
/// `value`: the object on one line, without spaces. In the two strings, quotation marks,
/// backslashes and control characters are escaped, and nothing else is.
#[verifier::external_body]
fn json_object_text(key: &str, value: &str) -> (text: String)
    ensures
        text@ == json_object(key@, value@),
{
    let member = (key.to_owned(), serde_json::Value::String(value.to_owned()));
    serde_json::Value::Object(serde_json::Map::from_iter([member])).to_string()
}

/// What is told of an instance that crashed.
pub open spec fn crash_content(id: Seq<char>, error: Seq<char>) -> Seq<char> {
    "Instance "@ + id + " (probably) crashed: "@ + error
}

/// Writes what is told of an instance that crashed.
pub fn crash_message(id: &str, error: &str) -> (content: String)
    ensures
        content@ == crash_content(id@, error@),
{
    "Instance ".to_owned().concat(id).concat(" (probably) crashed: ").concat(error)
}

/// A report on a crash: the JSON text that is posted to a webhook.
pub struct CrashReport {
    pub webhook: String,
    pub body: String,
}

impl CrashReport {
    /// Whether `self` tells `webhook` that the instance `id` crashed with `error`.
    pub open spec fn tells(self, webhook: Seq<char>, id: Seq<char>, error: Seq<char>) -> bool {
        &&& self.webhook@ == webhook
        &&& self.body@ == json_object("content"@, crash_content(id, error))
    }
}

/// Writes the report on a crash.
pub fn crash_report(webhook: &str, id: &str, error: &str) -> (report: CrashReport)
    ensures
        report.tells(webhook@, id@, error@),
{
    let content = crash_message(id, error);
    CrashReport {
        webhook: webhook.to_owned(),
        body: json_object_text("content", content.as_str()),
    }
}

/// What a supervisor is waiting for.
#[derive(Clone, Copy, Debug, PartialEq, Eq, Structural)]
pub enum SupervisorPhase {
    /// The end of the run.
    Running,
    /// A message that starts the server again.
    Parked,
    /// The report on a crash, which is being sent.
    Reporting,
    /// Nothing.
    Done,
}

/// What happens to a supervisor.
pub enum SupervisorEvent {
    /// The run ended.
    RunEnded(RunEnd),
    /// The instance was told something.
    Received(InstanceMessage),
    /// Nobody can tell the instance anything any more.
    Disconnected,
    /// The report was sent, or could not be.
    Reported,
}

/// What a supervisor does next.
pub enum SupervisorAction {
    /// Run the server.
    Run,
    /// Wait for a message.
    AwaitMessage,
    /// Send the report. That it cannot be sent is worth a warning only.
    Report(CrashReport),
    /// Nothing any more.
    Quit,
}

/// Keeps one instance running. Whoever runs it starts with a run of the server.
pub struct Supervisor {
    pub id: String,
    pub webhook: Option<String>,
    pub phase: SupervisorPhase,
}

/// Whether `event` is one that can happen in `phase`.
pub open spec fn supervisor_expects(phase: SupervisorPhase, event: SupervisorEvent) -> bool {
    match phase {
        SupervisorPhase::Running => event is RunEnded,
        SupervisorPhase::Parked => event is Received || event is Disconnected,
        SupervisorPhase::Reporting => event is Reported,
        SupervisorPhase::Done => false,
    }
}

/// The phase after `event`, where `reports` tells whether crashes are reported.
pub open spec fn supervisor_after(
    phase: SupervisorPhase,
    reports: bool,
    event: SupervisorEvent,
) -> SupervisorPhase {
    match event {
        SupervisorEvent::RunEnded(RunEnd::Parked) => SupervisorPhase::Parked,
        SupervisorEvent::RunEnded(RunEnd::Crashed(_)) => if reports {
            SupervisorPhase::Reporting
        } else {
            SupervisorPhase::Running
        },
        SupervisorEvent::RunEnded(_) => SupervisorPhase::Running,
        SupervisorEvent::Received(message) => if message == InstanceMessage::Restart {
            SupervisorPhase::Running
        } else {
            phase
        },
        SupervisorEvent::Disconnected => SupervisorPhase::Done,
        SupervisorEvent::Reported => SupervisorPhase::Running,
    }
}

impl Supervisor {
    /// Whether `self` supervises the instance `id` and stands at its beginning.
    pub open spec fn begins(self, id: Seq<char>, webhook: Option<String>) -> bool {
        &&& self.id@ == id
        &&& self.webhook == webhook
        &&& self.phase is Running
    }

    /// A supervisor of the instance `id` that reports crashes to `webhook`, if there is one.
    pub fn new(id: &str, webhook: Option<String>) -> (supervisor: Self)
        ensures
            supervisor.begins(id@, webhook),
    {
        Supervisor { id: id.to_owned(), webhook, phase: SupervisorPhase::Running }
    }

    /// Tells whether `event` is one that can happen now.
    pub fn is_expected(&self, event: &SupervisorEvent) -> (expected: bool)
        ensures
            expected == supervisor_expects(self.phase, *event),
    {
        match (self.phase, event) {
            (SupervisorPhase::Running, SupervisorEvent::RunEnded(_)) => true,
            (SupervisorPhase::Parked, SupervisorEvent::Received(_)) => true,
            (SupervisorPhase::Parked, SupervisorEvent::Disconnected) => true,
            (SupervisorPhase::Reporting, SupervisorEvent::Reported) => true,
            _ => false,
        }
    }

    /// Whether `event` turns `self` to `after` and `action` is what to do next.
    pub open spec fn turns(
        self,
        event: SupervisorEvent,
        after: Supervisor,
        action: SupervisorAction,
    ) -> bool {
        &&& after.id == self.id
        &&& after.webhook == self.webhook
        &&& after.phase == supervisor_after(self.phase, self.webhook is Some, event)
        &&& match after.phase {
            SupervisorPhase::Running => action is Run,
            SupervisorPhase::Parked => action is AwaitMessage,
            SupervisorPhase::Reporting => {
                &&& event matches SupervisorEvent::RunEnded(RunEnd::Crashed(error))
                &&& action matches SupervisorAction::Report(report)
                &&& report.tells(self.webhook->0@, self.id@, error.text())
            },
            SupervisorPhase::Done => action is Quit,
        }
    }

    /// Takes in what happened and says what to do next.
    pub fn step(&mut self, event: SupervisorEvent) -> (action: SupervisorAction)
        requires
            supervisor_expects(old(self).phase, event),
        ensures
            old(self).turns(event, *final(self), action),
    {
        match event {
            SupervisorEvent::RunEnded(RunEnd::Parked) => {
                self.phase = SupervisorPhase::Parked;
                SupervisorAction::AwaitMessage
            },
            SupervisorEvent::RunEnded(RunEnd::Crashed(error)) => self.crashed(error),
            SupervisorEvent::Received(message) => {
                if message == InstanceMessage::Restart {
                    self.phase = SupervisorPhase::Running;
                    SupervisorAction::Run
                } else {
                    SupervisorAction::AwaitMessage
                }
            },
            SupervisorEvent::Disconnected => {
                self.phase = SupervisorPhase::Done;
                SupervisorAction::Quit
            },
            _ => {
                self.phase = SupervisorPhase::Running;
                SupervisorAction::Run
            },
        }
    }

    fn crashed(&mut self, error: RunError) -> (action: SupervisorAction)
        ensures
            final(self).id == old(self).id,
            final(self).webhook == old(self).webhook,
            match old(self).webhook {
                Some(webhook) => {
                    &&& final(self).phase is Reporting
                    &&& action matches SupervisorAction::Report(report)
                    &&& report.tells(webhook@, old(self).id@, error.text())
                },
                None => final(self).phase is Running && action is Run,
            },
    {
        match &self.webhook {
            Some(webhook) => {
                let report = crash_report(
                    webhook.as_str(),
                    self.id.as_str(),
                    error.message().as_str(),
                );
                self.phase = SupervisorPhase::Reporting;
                SupervisorAction::Report(report)
            },
            None => {
                self.phase = SupervisorPhase::Running;
                SupervisorAction::Run
            },
        }
    }
}

/// A parked server comes back on a restart and on nothing else: after any messages, it is still
/// parked as long as none of them was a restart.
pub proof fn parked_until_restarted(reports: bool, messages: Seq<InstanceMessage>)
    requires
        forall|i: int| 0 <= i < messages.len() ==> messages[i] != InstanceMessage::Restart,
    ensures
        phase_after_messages(reports, messages) is Parked,
    decreases messages.len(),
{
    if messages.len() > 0 {
        parked_until_restarted(reports, messages.drop_last());
        assert(messages[messages.len() - 1] != InstanceMessage::Restart);
    }
}

/// The phase of a parked supervisor after a series of messages.
pub open spec fn phase_after_messages(reports: bool, messages: Seq<InstanceMessage>) -> SupervisorPhase
    decreases messages.len(),
{
    if messages.len() == 0 {
        SupervisorPhase::Parked
    } else {
        supervisor_after(
            phase_after_messages(reports, messages.drop_last()),
            reports,
            SupervisorEvent::Received(messages.last()),
        )
    }
}

/// A server that crashed or is to be relaunched runs again, at most one report later.
pub proof fn ended_run_is_followed_by_another(reports: bool, end: RunEnd)
    requires
        !(end is Parked),
    ensures
        ({
            let next = supervisor_after(
                SupervisorPhase::Running,
                reports,
                SupervisorEvent::RunEnded(end),
            );
            next is Running || (next is Reporting && supervisor_after(
                next,
                reports,
                SupervisorEvent::Reported,
            ) is Running)
        }),
{
}

/// What the supervisor does: a server that crashed is started again, after a report where there is
/// a webhook; one that is to be relaunched is started again at once; one that is parked waits for a
/// restart and is started again on that and on no other message. When nobody can reach it any more,
/// and only then, the supervisor quits.
pub proof fn supervisor_keeps_the_server_running(
    supervisor: Supervisor,
    event: SupervisorEvent,
    after: Supervisor,
    action: SupervisorAction,
)
    requires
        supervisor_expects(supervisor.phase, event),
        supervisor.turns(event, after, action),
    ensures
        match event {
            SupervisorEvent::RunEnded(RunEnd::Parked) => action is AwaitMessage,
            SupervisorEvent::RunEnded(RunEnd::Relaunch) => action is Run,
            SupervisorEvent::RunEnded(RunEnd::Crashed(_)) => if supervisor.webhook is Some {
                action is Report
            } else {
                action is Run
            },
            SupervisorEvent::Received(InstanceMessage::Restart) => action is Run,
            SupervisorEvent::Received(_) => action is AwaitMessage,
            SupervisorEvent::Disconnected => action is Quit,
            SupervisorEvent::Reported => action is Run,
        },
        after.id == supervisor.id,
        after.webhook == supervisor.webhook,
{
}

/// A supervisor waits for what follows from what it does: for the end of the run, for a message
/// while the server is parked, for the report to be sent, and for nothing once it has quit.
pub proof fn supervisor_awaits_its_answer(
    supervisor: Supervisor,
    event: SupervisorEvent,
    after: Supervisor,
    action: SupervisorAction,
    later: SupervisorEvent,
)
    requires
        supervisor_expects(supervisor.phase, event),
        supervisor.turns(event, after, action),
    ensures
        supervisor_expects(SupervisorPhase::Running, later) <==> later is RunEnded,
        supervisor_expects(after.phase, later) <==> match action {
            SupervisorAction::Run => later is RunEnded,
            SupervisorAction::AwaitMessage => later is Received || later is Disconnected,
            SupervisorAction::Report(_) => later is Reported,
            SupervisorAction::Quit => false,
        },
{
}

/// A crash is reported to the webhook. The body is a JSON object with one member, `content`; who
/// reads its string finds the id of the instance and the message of the error.
pub proof fn report_tells_instance_and_error(
    supervisor: Supervisor,
    error: RunError,
    after: Supervisor,
    report: CrashReport,
)
    requires
        supervisor.turns(
            SupervisorEvent::RunEnded(RunEnd::Crashed(error)),
            after,
            SupervisorAction::Report(report),
        ),
    ensures
        supervisor.webhook matches Some(webhook) && report.webhook@ == webhook@,
        ({
            let begin = r#"{"content":""#@;
            let end = r#""}"#@;
            let told = report.body@.subrange(begin.len() as int, report.body@.len() - end.len());
            &&& report.body@ == begin + told + end
            &&& json_unescaped(told) == "Instance "@ + supervisor.id@ + " (probably) crashed: "@
                + error.text()
            &&& forall|i: int| 0 <= i < told.len() ==> #[trigger] told[i] as nat >= 0x20
        }),
{
    let content = crash_content(supervisor.id@, error.text());
    let begin = r#"{"content":""#@;
    let end = r#""}"#@;
    let told = json_chars(content);
    reveal_strlit(r#"{"content":""#);
    reveal_strlit(r#""}"#);
    reveal_strlit("content");
    let key = "content"@;
    assert(json_chars(key) =~= key) by {
        lemma_plain_text(key);
    }
    assert(report.body@ =~= begin + told + end);
    assert(report.body@.subrange(begin.len() as int, report.body@.len() - end.len()) =~= told);
    json_text_is_read_back(content);
}

/// The value of a hexadecimal digit.
pub open spec fn hex_value(c: char) -> int {
    if '0' <= c && c <= '9' {
        c as int - '0' as int
    } else {
        c as int - 'a' as int + 10
    }
}

/// The text that a JSON string with these characters between its quotation marks stands for.
pub open spec fn json_unescaped(s: Seq<char>) -> Seq<char>
    decreases s.len(),
{
    if s.len() == 0 {
        Seq::empty()
    } else if s[0] != '\\' || s.len() == 1 {
        seq![s[0]] + json_unescaped(s.skip(1))
    } else if s[1] == 'u' && s.len() >= 6 {
        seq![
            (hex_value(s[2]) * 4096 + hex_value(s[3]) * 256 + hex_value(s[4]) * 16 + hex_value(
                s[5],
            )) as char,
        ] + json_unescaped(s.skip(6))
    } else if s[1] == 'b' {
        seq![8int as char] + json_unescaped(s.skip(2))
    } else if s[1] == 'f' {
        seq![12int as char] + json_unescaped(s.skip(2))
    } else if s[1] == 'n' {
        seq!['\n'] + json_unescaped(s.skip(2))
    } else if s[1] == 'r' {
        seq!['\r'] + json_unescaped(s.skip(2))
    } else if s[1] == 't' {
        seq!['\t'] + json_unescaped(s.skip(2))
    } else {
        seq![s[1]] + json_unescaped(s.skip(2))
    }
}

/// A text that was written as a JSON string is read back as it was, and the string holds no control
/// characters.
pub proof fn json_text_is_read_back(text: Seq<char>)
    ensures
        json_unescaped(json_chars(text)) == text,
        forall|i: int| 0 <= i < json_chars(text).len() ==> #[trigger] json_chars(text)[i] as nat >= 0x20,
    decreases text.len(),
{
    if text.len() > 0 {
        let c = text[0];
        let rest = text.skip(1);
        lemma_json_chars_from_front(text);
        json_text_is_read_back(rest);
        lemma_json_char_is_read_back(c, json_chars(rest));
        assert(seq![c] + rest =~= text);
    }
}

proof fn lemma_json_chars_from_front(text: Seq<char>)
    requires
        text.len() > 0,
    ensures
        json_chars(text) == json_char(text[0]) + json_chars(text.skip(1)),
    decreases text.len(),
{
    if text.len() == 1 {
        assert(text.drop_last() =~= Seq::<char>::empty());
        assert(text.skip(1) =~= Seq::<char>::empty());
        assert(json_chars(text.drop_last()) =~= Seq::<char>::empty());
        assert(json_chars(text.skip(1)) =~= Seq::<char>::empty());
    } else {
        lemma_json_chars_from_front(text.drop_last());
        assert(text.drop_last().skip(1) =~= text.skip(1).drop_last());
        assert(text.skip(1).last() == text.last());
        assert(json_chars(text) =~= json_char(text[0]) + json_chars(text.skip(1)));
    }
}

proof fn lemma_json_char_is_read_back(c: char, rest: Seq<char>)
    ensures
        json_unescaped(json_char(c) + rest) == seq![c] + json_unescaped(rest),
        forall|i: int| 0 <= i < json_char(c).len() ==> #[trigger] json_char(c)[i] as nat >= 0x20,
{
    let s = json_char(c) + rest;
    assert(s.skip(json_char(c).len() as int) =~= rest);
    if (c as nat) < 0x20 && json_char(c).len() == 6 {
        assert(s[1] == 'u');
        assert(hex_value(hex_digit(c as nat / 16)) == c as nat / 16);
        assert(hex_value(hex_digit(c as nat % 16)) == c as nat % 16);
        assert(hex_value('0') == 0);
    }
}

proof fn lemma_plain_text(text: Seq<char>)
    requires
        forall|i: int|
            0 <= i < text.len() ==> #[trigger] text[i] as nat >= 0x20 && text[i] != '"' && text[i] != '\\',
    ensures
        json_chars(text) == text,
    decreases text.len(),
{
    if text.len() > 0 {
        lemma_plain_text(text.drop_last());
        assert(json_chars(text) =~= text);
    }
}

/// A supervisor reports the crashes of the instance that it was made for, to the webhook that it was
/// given.
pub proof fn supervisor_reports_its_instance(
    id: Seq<char>,
    webhook: String,
    supervisor: Supervisor,
    error: RunError,
    after: Supervisor,
    action: SupervisorAction,
)
    requires
        supervisor.begins(id, Some(webhook)),
        supervisor.turns(SupervisorEvent::RunEnded(RunEnd::Crashed(error)), after, action),
    ensures
        supervisor_expects(supervisor.phase, SupervisorEvent::RunEnded(RunEnd::Crashed(error))),
        action matches SupervisorAction::Report(report) && report.webhook@ == webhook@
            && report.body@ == json_object(
            "content"@,
            "Instance "@ + id + " (probably) crashed: "@ + error.text(),
        ),
{
}

} // verus!
