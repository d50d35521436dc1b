use watchdog::auth::{authorize, token_matches, Credentials, Refusal};
use watchdog::forks::{Fork, ForkManager};
use watchdog::handlers::{
    fork_update, reply, server_ping, server_restart, server_set_fork, server_stop, AssignAction,
    AssignEvent, ForkAssignment,
};
use watchdog::instances::{fresh_token, Instance, InstanceManager, InstanceMessage};
use watchdog::table::Table;

fn credentials(username: &str, password: &str) -> Credentials {
    Credentials { username: username.to_string(), password: password.to_string() }
}

fn instances() -> InstanceManager {
    let mut instances = Table::new();
    for id in ["lizard", "salamander"] {
        instances.insert(
            id.to_string(),
            Instance {
                name: id.to_uppercase(),
                token: format!("operator of {}", id),
                port: 1212,
                fork: "wizards".to_string(),
                internal_token: format!("server of {}", id),
            },
        );
    }
    InstanceManager { instances }
}

fn forks() -> ForkManager {
    let mut forks = Table::new();
    forks.insert(
        "wizards".to_string(),
        Fork {
            token: "publisher".to_string(),
            manifest_url: "https://manifests/wizards".to_string(),
            archive: "wizards.zip".to_string(),
            current_version: "v1".to_string(),
        },
    );
    ForkManager { forks }
}

#[test]
fn refusals_have_status_codes() {
    assert_eq!(Refusal::Forbidden.code(), 403);
    assert_eq!(Refusal::NotFound.code(), 404);
    assert_eq!(Refusal::Unauthorized.code(), 401);
    assert_eq!(Refusal::InternalServerError.code(), 500);
}

#[test]
fn tokens_match_as_a_whole() {
    assert!(token_matches("secret", "secret"));
    assert!(token_matches("", ""));
    assert!(!token_matches("secret", "secreT"));
    assert!(!token_matches("secret", "secrets"));
    assert!(!token_matches("ä", "a"));
}

#[test]
fn requests_are_judged_in_order() {
    let token = "t".to_string();
    assert_eq!(authorize("a", &credentials("b", "t"), None), Err(Refusal::Forbidden));
    assert_eq!(authorize("a", &credentials("b", "x"), Some(&token)), Err(Refusal::Forbidden));
    assert_eq!(authorize("a", &credentials("a", "x"), None), Err(Refusal::NotFound));
    assert_eq!(authorize("a", &credentials("a", "x"), Some(&token)), Err(Refusal::Unauthorized));
    assert_eq!(authorize("a", &credentials("a", "t"), Some(&token)), Ok(()));
}

#[test]
fn operators_restart_and_stop() {
    let instances = instances();
    let good = credentials("lizard", "operator of lizard");
    assert_eq!(server_restart(&instances, "lizard", &good), Ok(InstanceMessage::Restart));
    assert_eq!(server_stop(&instances, "lizard", &good), Ok(InstanceMessage::Stop));
    assert_eq!(server_stop(&instances, "salamander", &good), Err(Refusal::Forbidden));
    let bad = credentials("lizard", "operator of salamander");
    assert_eq!(server_restart(&instances, "lizard", &bad), Err(Refusal::Unauthorized));
    let unknown = credentials("newt", "x");
    assert_eq!(server_restart(&instances, "newt", &unknown), Err(Refusal::NotFound));
}

#[test]
fn reports_need_the_internal_token() {
    let instances = instances();
    let server = credentials("lizard", "server of lizard");
    let operator = credentials("lizard", "operator of lizard");
    assert_eq!(server_ping(&instances, "lizard", &server), Ok(InstanceMessage::Ping));
    assert_eq!(server_ping(&instances, "lizard", &operator), Err(Refusal::Unauthorized));
    assert_eq!(server_restart(&instances, "lizard", &server), Err(Refusal::Unauthorized));
    assert_eq!(server_ping(&instances, "newt", &credentials("newt", "")), Err(Refusal::NotFound));
    assert_eq!(server_ping(&instances, "newt", &server), Err(Refusal::Forbidden));
}

#[test]
fn new_launch_retires_the_old_token() {
    let mut instances = instances();
    let old = credentials("lizard", "server of lizard");
    let token = fresh_token();
    assert!(instances.install_token("lizard", token.clone()));
    assert_eq!(server_ping(&instances, "lizard", &old), Err(Refusal::Unauthorized));
    assert_eq!(
        server_ping(&instances, "lizard", &credentials("lizard", &token)),
        Ok(InstanceMessage::Ping)
    );
}

#[test]
fn what_cannot_be_carried_out_is_an_internal_error() {
    assert_eq!(reply(true), Ok(()));
    assert_eq!(reply(false), Err(Refusal::InternalServerError));
}

#[test]
fn fork_is_updated_with_its_own_token() {
    let forks = forks();
    match fork_update(&forks, "wizards", &credentials("wizards", "publisher")) {
        Ok(check) => {
            assert_eq!(check.id, "wizards");
            assert_eq!(check.manifest_url, "https://manifests/wizards");
            assert_eq!(check.current_version, "v1");
        }
        Err(_) => panic!("the token is right"),
    }
    let refused = |key: &str, c: Credentials| fork_update(&forks, key, &c).err();
    assert_eq!(refused("wizards", credentials("wizards", "x")), Some(Refusal::Unauthorized));
    assert_eq!(refused("wizards", credentials("x", "publisher")), Some(Refusal::Forbidden));
    assert_eq!(refused("vikings", credentials("vikings", "x")), Some(Refusal::NotFound));
}

fn assignment(instances: &InstanceManager, fork: &str) -> ForkAssignment {
    let good = credentials("lizard", "operator of lizard");
    server_set_fork(instances, "lizard", fork, &good).ok().unwrap()
}

#[test]
fn assignment_is_written_before_it_takes_effect() {
    let mut instances = instances();
    let mut assignment = assignment(&instances, "vikings");
    let text = "[instances.lizard]\nfork = \"wizards\"\n".to_string();
    let event = AssignEvent::ConfigRead(Some(text));
    assert!(assignment.is_expected(&event));
    match assignment.step(&mut instances, event) {
        AssignAction::WriteConfig(written) => {
            assert_eq!(written, "[instances.lizard]\nfork = \"vikings\"\n")
        }
        _ => panic!("the configuration is written"),
    }
    assert_eq!(instances.instances.get("lizard").unwrap().fork, "wizards");
    assert!(matches!(
        assignment.step(&mut instances, AssignEvent::ConfigWritten(true)),
        AssignAction::Tell(InstanceMessage::ForkChanged)
    ));
    assert_eq!(instances.instances.get("lizard").unwrap().fork, "vikings");
    assert_eq!(instances.instances.get("salamander").unwrap().fork, "wizards");
    assert!(matches!(
        assignment.step(&mut instances, AssignEvent::Told(true)),
        AssignAction::Reply(Ok(()))
    ));
    assert!(!assignment.is_expected(&AssignEvent::Told(true)));
}

#[test]
fn failed_assignment_changes_nothing() {
    let failures = [
        AssignEvent::ConfigRead(None),
        AssignEvent::ConfigRead(Some("[".to_string())),
    ];
    for event in failures {
        let mut instances = instances();
        let mut assignment = assignment(&instances, "vikings");
        assert!(matches!(
            assignment.step(&mut instances, event),
            AssignAction::Reply(Err(Refusal::InternalServerError))
        ));
        assert_eq!(instances.instances.get("lizard").unwrap().fork, "wizards");
    }
    let mut instances = instances();
    let mut unwritten = assignment(&instances, "vikings");
    unwritten.step(&mut instances, AssignEvent::ConfigRead(Some(String::new())));
    assert!(matches!(
        unwritten.step(&mut instances, AssignEvent::ConfigWritten(false)),
        AssignAction::Reply(Err(Refusal::InternalServerError))
    ));
    assert_eq!(instances.instances.get("lizard").unwrap().fork, "wizards");
}

#[test]
fn obstructed_assignment_is_dropped() {
    let mut instances = instances();
    let mut assignment = assignment(&instances, "vikings");
    assert!(matches!(
        assignment.step(
            &mut instances,
            AssignEvent::ConfigRead(Some("instances = 1\n".to_string()))
        ),
        AssignAction::Abort
    ));
}

#[test]
fn assignment_nobody_hears_of_is_an_internal_error() {
    let mut instances = instances();
    let mut assignment = assignment(&instances, "vikings");
    assignment.step(&mut instances, AssignEvent::ConfigRead(Some(String::new())));
    assignment.step(&mut instances, AssignEvent::ConfigWritten(true));
    assert!(matches!(
        assignment.step(&mut instances, AssignEvent::Told(false)),
        AssignAction::Reply(Err(Refusal::InternalServerError))
    ));
    assert_eq!(instances.instances.get("lizard").unwrap().fork, "vikings");
}

#[test]
fn assignment_is_refused_like_any_command() {
    let instances = instances();
    let refused =
        |key: &str, c: Credentials| server_set_fork(&instances, key, "vikings", &c).err();
    assert_eq!(refused("lizard", credentials("x", "operator of lizard")), Some(Refusal::Forbidden));
    assert_eq!(refused("newt", credentials("newt", "x")), Some(Refusal::NotFound));
    assert_eq!(refused("lizard", credentials("lizard", "x")), Some(Refusal::Unauthorized));
}
