use watchdog::launch::{
    executable_mode, instances_directory_name, plan_launch, platform, server_directory_name,
    LaunchArg,
};

#[test]
fn platforms_have_names_in_manifests() {
    assert_eq!(platform("linux", "x86_64"), Some("linux-x64"));
    assert_eq!(platform("linux", "aarch64"), Some("linux-arm64"));
    assert_eq!(platform("macos", "x86_64"), Some("osx-x64"));
    assert_eq!(platform("macos", "aarch64"), Some("osx-arm64"));
    assert_eq!(platform("windows", "x86_64"), Some("windows-x64"));
    assert_eq!(platform("windows", "aarch64"), Some("windows-arm64"));
    assert_eq!(platform("freebsd", "x86_64"), None);
    assert_eq!(platform("linux", "riscv64"), None);
}

#[test]
fn directories_have_names() {
    assert_eq!(instances_directory_name(), "instances");
    assert_eq!(server_directory_name(), "bin");
}

#[test]
fn launch_hands_id_and_token_to_the_server() {
    let plan = plan_launch("lizard", "http://watchdog:5000", "abc123", false);
    assert_eq!(plan.command, "Robust.Server");
    assert_eq!(plan.token_variable, "ROBUST_CVAR_watchdog__token");
    assert_eq!(plan.token, "abc123");
    let args: Vec<String> = plan
        .args
        .iter()
        .map(|arg| match arg {
            LaunchArg::Text(text) => text.clone(),
            LaunchArg::InstancePath(name) => format!("instance/{}", name),
        })
        .collect();
    assert_eq!(
        args,
        [
            "--cvar",
            "watchdog.key=lizard",
            "--cvar",
            "watchdog.baseUrl=http://watchdog:5000",
            "--config-file",
            "instance/config.toml",
            "--data-dir",
            "instance/data",
        ]
    );
}

#[test]
fn windows_runs_another_file() {
    assert_eq!(plan_launch("a", "b", "c", true).command, "Robust.Server.exe");
}

#[test]
fn everyone_may_run_the_server() {
    assert_eq!(executable_mode(0o644), 0o755);
    assert_eq!(executable_mode(0o100600), 0o100711);
    assert_eq!(executable_mode(executable_mode(0)), 0o111);
}
