use watchdog::instances::{fresh_token, Instance, InstanceConfig, InstanceManager};
use watchdog::table::Table;

fn configs() -> Table<InstanceConfig> {
    let mut configs = Table::new();
    for (id, port) in [("lizard", 1212), ("salamander", 1213)] {
        configs.insert(
            id.to_string(),
            InstanceConfig {
                name: format!("Server {}", id),
                token: format!("token {}", id),
                port,
                fork: "wizards".to_string(),
            },
        );
    }
    configs
}

fn looks_like_a_token(token: &str) -> bool {
    token.len() == 64 && token.chars().all(|c| c.is_ascii_alphanumeric())
}

#[test]
fn tokens_are_long_and_plain() {
    let one = fresh_token();
    let other = fresh_token();
    assert!(looks_like_a_token(&one));
    assert!(looks_like_a_token(&other));
    assert_ne!(one, other);
}

#[test]
fn instances_follow_their_configuration() {
    let manager = InstanceManager::new(&configs());
    assert_eq!(manager.instances.len(), 2);
    let lizard = manager.instances.get("lizard").unwrap();
    assert_eq!(lizard.name, "Server lizard");
    assert_eq!(lizard.token, "token lizard");
    assert_eq!(lizard.port, 1212);
    assert_eq!(lizard.fork, "wizards");
    assert!(looks_like_a_token(&lizard.internal_token));
    assert_ne!(
        lizard.internal_token,
        manager.instances.get("salamander").unwrap().internal_token
    );
}

#[test]
fn instance_is_made_with_the_given_token() {
    let configs = configs();
    let instance = Instance::with_token(configs.get("lizard").unwrap(), "drawn".to_string());
    assert_eq!(instance.name, "Server lizard");
    assert_eq!(instance.token, "token lizard");
    assert_eq!(instance.port, 1212);
    assert_eq!(instance.fork, "wizards");
    assert_eq!(instance.internal_token, "drawn");
}

#[test]
fn each_instance_gets_the_token_at_its_place() {
    let tokens = vec!["one".to_string(), "two".to_string()];
    let manager = InstanceManager::with_tokens(&configs(), &tokens);
    assert_eq!(manager.instances.len(), 2);
    assert_eq!(manager.instances.get("lizard").unwrap().internal_token, "one");
    assert_eq!(manager.instances.get("salamander").unwrap().internal_token, "two");
    assert_eq!(manager.instances.get("salamander").unwrap().port, 1213);
}

#[test]
fn installed_token_replaces_the_old_one() {
    let mut manager = InstanceManager::new(&configs());
    let other = manager.instances.get("salamander").unwrap().internal_token.clone();
    assert!(manager.install_token("lizard", "drawn".to_string()));
    let lizard = manager.instances.get("lizard").unwrap();
    assert_eq!(lizard.internal_token, "drawn");
    assert_eq!(lizard.name, "Server lizard");
    assert_eq!(lizard.token, "token lizard");
    assert_eq!(lizard.port, 1212);
    assert_eq!(lizard.fork, "wizards");
    assert_eq!(manager.instances.get("salamander").unwrap().internal_token, other);
    assert!(!manager.install_token("newt", "drawn".to_string()));
    assert!(manager.instances.get("newt").is_none());
}

#[test]
fn instances_can_be_assigned_to_other_forks() {
    let mut manager = InstanceManager::new(&configs());
    assert!(manager.assign_fork("lizard", "vikings"));
    assert_eq!(manager.instances.get("lizard").unwrap().fork, "vikings");
    assert_eq!(manager.instances.get("lizard").unwrap().port, 1212);
    assert_eq!(manager.instances.get("salamander").unwrap().fork, "wizards");
    assert!(!manager.assign_fork("newt", "vikings"));
}
