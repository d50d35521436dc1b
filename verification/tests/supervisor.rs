use watchdog::instances::InstanceMessage;
use watchdog::run::{RunEnd, RunError};
use watchdog::supervisor::{
    crash_message, crash_report, Supervisor, SupervisorAction, SupervisorEvent, SupervisorPhase,
};

fn crash() -> SupervisorEvent {
    SupervisorEvent::RunEnded(RunEnd::Crashed(RunError::TimedOut))
}

#[test]
fn crash_is_described() {
    assert_eq!(
        crash_message("lizard", "Timed out"),
        "Instance lizard (probably) crashed: Timed out"
    );
}

#[test]
fn crash_report_is_json() {
    let report = crash_report("https://hook", "a\"b", "line\nline\\");
    assert_eq!(report.webhook, "https://hook");
    assert_eq!(
        report.body,
        r#"{"content":"Instance a\"b (probably) crashed: line\nline\\"}"#
    );
}

#[test]
fn crash_report_escapes_control_characters() {
    let report = crash_report("https://hook", "x", "\u{8}\u{c}\r\t\u{0}\u{1f}\u{b}\u{7f}/\u{e9}");
    assert_eq!(
        report.body,
        "{\"content\":\"Instance x (probably) crashed: \\b\\f\\r\\t\\u0000\\u001f\\u000b\u{7f}/\u{e9}\"}"
    );
}

#[test]
fn crash_is_reported_and_the_server_runs_again() {
    let mut supervisor = Supervisor::new("lizard", Some("https://hook".to_string()));
    match supervisor.step(crash()) {
        SupervisorAction::Report(report) => {
            assert_eq!(report.webhook, "https://hook");
            assert_eq!(
                report.body,
                r#"{"content":"Instance lizard (probably) crashed: Timed out"}"#
            );
        }
        _ => panic!("the crash is reported"),
    }
    assert_eq!(supervisor.phase, SupervisorPhase::Reporting);
    assert!(matches!(supervisor.step(SupervisorEvent::Reported), SupervisorAction::Run));
}

#[test]
fn without_a_webhook_the_server_runs_again_at_once() {
    let mut supervisor = Supervisor::new("lizard", None);
    assert!(matches!(supervisor.step(crash()), SupervisorAction::Run));
    assert!(matches!(
        supervisor.step(SupervisorEvent::RunEnded(RunEnd::Relaunch)),
        SupervisorAction::Run
    ));
}

#[test]
fn parked_server_waits_for_a_restart() {
    let mut supervisor = Supervisor::new("lizard", None);
    assert!(matches!(
        supervisor.step(SupervisorEvent::RunEnded(RunEnd::Parked)),
        SupervisorAction::AwaitMessage
    ));
    for message in [InstanceMessage::Ping, InstanceMessage::Stop, InstanceMessage::ForkChanged] {
        assert!(matches!(
            supervisor.step(SupervisorEvent::Received(message)),
            SupervisorAction::AwaitMessage
        ));
    }
    assert!(matches!(
        supervisor.step(SupervisorEvent::Received(InstanceMessage::Restart)),
        SupervisorAction::Run
    ));
}

#[test]
fn parked_server_that_nobody_can_reach_is_given_up() {
    let mut supervisor = Supervisor::new("lizard", None);
    supervisor.step(SupervisorEvent::RunEnded(RunEnd::Parked));
    assert!(supervisor.is_expected(&SupervisorEvent::Disconnected));
    assert!(matches!(supervisor.step(SupervisorEvent::Disconnected), SupervisorAction::Quit));
    assert!(!supervisor.is_expected(&SupervisorEvent::Reported));
}

#[test]
fn supervisor_expects_the_end_of_the_run_first() {
    let supervisor = Supervisor::new("lizard", None);
    assert!(supervisor.is_expected(&crash()));
    assert!(!supervisor.is_expected(&SupervisorEvent::Received(InstanceMessage::Restart)));
}
