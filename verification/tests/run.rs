use watchdog::errors::ForkError;
use watchdog::forks::{Fork, ForkManager};
use watchdog::instances::{InstanceConfig, InstanceManager, InstanceMessage};
use watchdog::run::{
    InstanceRun, RunAction, RunEnd, RunError, RunEvent, RunPhase, WaitingForExitType,
    SHUTDOWN_GRACE,
};
use watchdog::table::Table;

const TIMEOUT: u128 = 30_000_000_000;

struct World {
    instances: InstanceManager,
    forks: ForkManager,
    run: InstanceRun,
}

fn world() -> World {
    let mut configs = Table::new();
    configs.insert(
        "lizard".to_string(),
        InstanceConfig {
            name: "Lizard".to_string(),
            token: "operator".to_string(),
            port: 1212,
            fork: "wizards".to_string(),
        },
    );
    let instances = InstanceManager::new(&configs);
    let mut forks = Table::new();
    for id in ["wizards", "vikings"] {
        forks.insert(
            id.to_string(),
            Fork {
                token: String::new(),
                manifest_url: String::new(),
                archive: format!("{}.zip", id),
                current_version: String::new(),
            },
        );
    }
    let run = InstanceRun::start(&instances, "lizard", "http://watchdog", false).unwrap();
    World { instances, forks: ForkManager { forks }, run }
}

impl World {
    fn step(&mut self, event: RunEvent, now: u128) -> RunAction {
        assert!(self.run.is_expected(&event));
        self.run.step(event, now, &mut self.instances, &self.forks)
    }

    fn spawned() -> World {
        let mut world = world();
        world.step(RunEvent::Extracted, 0);
        world.step(RunEvent::Spawned { timeout: TIMEOUT }, 100);
        world
    }

    fn told(&mut self, message: InstanceMessage, now: u128) -> RunAction {
        self.step(RunEvent::Received(message), now)
    }

    fn end(&mut self, event: RunEvent) -> RunEnd {
        match self.step(event, 1_000) {
            RunAction::Finish(end) => end,
            _ => panic!("the run ends"),
        }
    }
}

fn wait_until(action: RunAction) -> u128 {
    match action {
        RunAction::Wait { until } => until,
        _ => panic!("the run waits"),
    }
}

fn error(end: RunEnd) -> String {
    match end {
        RunEnd::Crashed(error) => error.message(),
        _ => panic!("the run crashed"),
    }
}

#[test]
fn unknown_instance_does_not_run() {
    let world = world();
    assert!(InstanceRun::start(&world.instances, "newt", "", false).is_none());
}

#[test]
fn run_begins_with_its_fork() {
    let world = world();
    assert_eq!(world.run.id, "lizard");
    assert_eq!(world.run.fork, "wizards");
    assert_eq!(world.run.port, 1212);
    assert_eq!(world.run.watch.phase, RunPhase::Extracting);
}

#[test]
fn launch_uses_a_new_token() {
    let mut world = world();
    let before = world.instances.instances.get("lizard").unwrap().internal_token.clone();
    match world.step(RunEvent::Extracted, 0) {
        RunAction::Spawn { plan, fork } => {
            assert_eq!(fork, "wizards");
            assert_eq!(plan.command, "Robust.Server");
            assert_ne!(plan.token, before);
            assert_eq!(plan.token, world.run.internal_token);
            assert_eq!(
                plan.token,
                world.instances.instances.get("lizard").unwrap().internal_token
            );
        }
        _ => panic!("the server is started"),
    }
}

#[test]
fn launch_installs_the_given_token() {
    let mut world = world();
    let action = world.run.launch("drawn".to_string(), &mut world.instances, &world.forks);
    match action {
        RunAction::Spawn { plan, fork } => {
            assert_eq!(plan.token, "drawn");
            assert_eq!(fork, "wizards");
        }
        _ => panic!("the server is started"),
    }
    assert_eq!(world.run.internal_token, "drawn");
    assert_eq!(world.instances.instances.get("lizard").unwrap().internal_token, "drawn");
    assert_eq!(world.run.watch.phase, RunPhase::Spawning);
}

#[test]
fn launch_of_an_unknown_fork_fails() {
    let mut world = world();
    world.run.fork = "goblins".to_string();
    assert_eq!(error(world.end(RunEvent::Extracted)), "Invalid fork for instance!");
}

#[test]
fn failures_end_the_run() {
    let mut world = world();
    assert_eq!(error(world.end(RunEvent::Failed("no space".to_string()))), "no space");
    let mut spawning = self::world();
    spawning.step(RunEvent::Extracted, 0);
    assert_eq!(error(spawning.end(RunEvent::Failed("no file".to_string()))), "no file");
    let mut watching = World::spawned();
    assert_eq!(error(watching.end(RunEvent::Failed("no child".to_string()))), "no child");
    let mut stopping = World::spawned();
    stopping.told(InstanceMessage::Stop, 200);
    assert_eq!(error(stopping.end(RunEvent::Failed("unkillable".to_string()))), "unkillable");
}

#[test]
fn server_has_to_report_within_its_timeout() {
    let mut world = world();
    world.step(RunEvent::Extracted, 0);
    let until = wait_until(world.step(RunEvent::Spawned { timeout: TIMEOUT }, 100));
    assert_eq!(until, 100 + TIMEOUT);
    assert_eq!(wait_until(world.told(InstanceMessage::Ping, 5_000)), 5_000 + TIMEOUT);
    assert!(matches!(world.step(RunEvent::DeadlinePassed, 6_000), RunAction::Kill));
    assert_eq!(error(world.end(RunEvent::Killed)), "Timed out");
    assert_eq!(world.run.watch.phase, RunPhase::Over);
}

#[test]
fn unprompted_exit_is_a_crash() {
    assert_eq!(
        error(World::spawned().end(RunEvent::Exited(Some(134)))),
        "Process exited with code Some(134)"
    );
    assert_eq!(
        error(World::spawned().end(RunEvent::Exited(None))),
        "Process exited with code None"
    );
    let mut reported = World::spawned();
    reported.told(InstanceMessage::Ping, 200);
    assert_eq!(
        error(reported.end(RunEvent::Exited(Some(0)))),
        "Process exited with code Some(0)"
    );
}

#[test]
fn restart_asks_for_a_shutdown_and_grants_grace() {
    let mut world = World::spawned();
    let token = world.run.internal_token.clone();
    match world.told(InstanceMessage::Restart, 1_000) {
        RunAction::Post(notice) => {
            assert_eq!(notice.url, "http://localhost:1212/shutdown");
            assert_eq!(notice.header, "WatchdogToken");
            assert_eq!(notice.token, token);
            assert_eq!(
                notice.body.as_deref(),
                Some("{\"Reason\":\"Watchdog shutting down.\"}")
            );
        }
        _ => panic!("the server is notified"),
    }
    let until = wait_until(world.step(RunEvent::Notified, 2_000));
    assert_eq!(until, 2_000 + SHUTDOWN_GRACE);
    assert_eq!(SHUTDOWN_GRACE, 5_000_000_000);
    assert_eq!(world.run.watch.waiting_for_exit, WaitingForExitType::Kill);
    assert_eq!(wait_until(world.told(InstanceMessage::Ping, 3_000)), until);
    assert_eq!(wait_until(world.told(InstanceMessage::Ping, 4_000)), until);
    assert!(matches!(world.end(RunEvent::Exited(Some(1))), RunEnd::Relaunch));
}

#[test]
fn server_that_does_not_shut_down_is_killed() {
    let mut world = World::spawned();
    world.told(InstanceMessage::Restart, 1_000);
    world.step(RunEvent::Notified, 2_000);
    assert!(matches!(world.step(RunEvent::DeadlinePassed, 3_000), RunAction::Kill));
    assert_eq!(error(world.end(RunEvent::Killed)), "Timed out");
}

#[test]
fn update_lets_the_server_restart_when_it_likes() {
    let mut world = World::spawned();
    match world.step(RunEvent::ForkUpdated, 1_000) {
        RunAction::Post(notice) => {
            assert_eq!(notice.url, "http://localhost:1212/update");
            assert_eq!(notice.token, world.run.internal_token);
            assert!(notice.body.is_none());
        }
        _ => panic!("the server is notified"),
    }
    assert_eq!(wait_until(world.step(RunEvent::Notified, 2_000)), 100 + TIMEOUT);
    assert_eq!(wait_until(world.told(InstanceMessage::Ping, 3_000)), 3_000 + TIMEOUT);
    assert!(matches!(world.end(RunEvent::Exited(None)), RunEnd::Relaunch));
}

#[test]
fn update_after_a_restart_request_lifts_the_kill() {
    let mut world = World::spawned();
    world.told(InstanceMessage::Restart, 1_000);
    let until = wait_until(world.step(RunEvent::Notified, 2_000));
    world.step(RunEvent::ForkUpdated, 2_500);
    assert_eq!(wait_until(world.step(RunEvent::Notified, 2_600)), until);
    assert_eq!(world.run.watch.waiting_for_exit, WaitingForExitType::Restart);
    assert_eq!(wait_until(world.told(InstanceMessage::Ping, 3_000)), 3_000 + TIMEOUT);
}

#[test]
fn fork_change_moves_the_subscription() {
    let mut world = World::spawned();
    world.instances.assign_fork("lizard", "vikings");
    match world.told(InstanceMessage::ForkChanged, 1_000) {
        RunAction::Post(notice) => assert_eq!(notice.url, "http://localhost:1212/update"),
        _ => panic!("the server is notified"),
    }
    match world.step(RunEvent::Notified, 2_000) {
        RunAction::Resubscribe { fork, until } => {
            assert_eq!(fork, "vikings");
            assert_eq!(until, 100 + TIMEOUT);
        }
        _ => panic!("the run listens to the other fork"),
    }
    assert!(matches!(world.end(RunEvent::Exited(Some(0))), RunEnd::Relaunch));
    let next = InstanceRun::start(&world.instances, "lizard", "", false).unwrap();
    assert_eq!(next.fork, "vikings");
}

#[test]
fn change_to_an_unknown_fork_ends_the_run() {
    let mut world = World::spawned();
    world.instances.assign_fork("lizard", "goblins");
    world.told(InstanceMessage::ForkChanged, 1_000);
    match world.end(RunEvent::Notified) {
        RunEnd::Crashed(RunError::Fork(ForkError::InvalidForkForInstance)) => {}
        _ => panic!("there is no such fork"),
    }
}

#[test]
fn stopped_server_is_parked() {
    let mut world = World::spawned();
    assert!(matches!(world.told(InstanceMessage::Stop, 1_000), RunAction::Kill));
    assert!(matches!(world.end(RunEvent::Killed), RunEnd::Parked));
    assert!(matches!(World::spawned().end(RunEvent::Disconnected), RunEnd::Parked));
}

#[test]
fn run_expects_what_its_phase_allows() {
    let mut world = world();
    assert!(!world.run.is_expected(&RunEvent::Killed));
    assert!(!world.run.is_expected(&RunEvent::DeadlinePassed));
    world.step(RunEvent::Extracted, 0);
    assert!(!world.run.is_expected(&RunEvent::Extracted));
    world.step(RunEvent::Spawned { timeout: 1 }, 0);
    assert!(world.run.is_expected(&RunEvent::ForkUpdated));
    assert!(!world.run.is_expected(&RunEvent::Notified));
    world.end(RunEvent::Disconnected);
    assert!(!world.run.is_expected(&RunEvent::Failed(String::new())));
}
