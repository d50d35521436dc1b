use watchdog::errors::ForkError;
use watchdog::manifest::{Artifact, Build, BuildTime, Manifest};
use watchdog::table::Table;

fn build(seconds: i64, nanoseconds: u32, platforms: &[&str], tag: u8) -> Build {
    let mut server = Table::new();
    for platform in platforms {
        server.insert(
            platform.to_string(),
            Artifact { url: format!("https://cdn/{}/{}", tag, platform), sha256: [tag; 32] },
        );
    }
    Build {
        time: BuildTime { seconds, nanoseconds },
        client: Artifact { url: "https://cdn/client".to_string(), sha256: [0; 32] },
        server,
    }
}

fn manifest(builds: Vec<(&str, Build)>) -> Manifest {
    let mut table = Table::new();
    for (version, build) in builds {
        table.insert(version.to_string(), build);
    }
    Manifest { builds: table }
}

#[test]
fn moments_are_ordered_by_seconds_then_nanoseconds() {
    let early = BuildTime { seconds: -5, nanoseconds: 999 };
    let late = BuildTime { seconds: 1, nanoseconds: 0 };
    let later = BuildTime { seconds: 1, nanoseconds: 1 };
    assert!(early.is_before(&late));
    assert!(late.is_before(&later));
    assert!(!later.is_before(&late));
    assert!(!late.is_before(&late));
}

#[test]
fn newest_build_is_chosen() {
    let m = manifest(vec![
        ("a", build(10, 0, &["linux-x64"], 1)),
        ("b", build(30, 5, &["linux-x64", "osx-x64"], 2)),
        ("c", build(30, 4, &["linux-x64"], 3)),
    ]);
    assert_eq!(m.newest(), Some(1));
    match m.release("wizards", "osx-x64") {
        Ok(release) => {
            assert_eq!(release.version, "b");
            assert_eq!(release.url, "https://cdn/2/osx-x64");
            assert_eq!(release.sha256, [2; 32]);
        }
        Err(_) => panic!("there is a build"),
    }
}

#[test]
fn of_equally_new_builds_the_last_is_chosen() {
    let m = manifest(vec![
        ("a", build(30, 0, &["linux-x64"], 1)),
        ("b", build(30, 0, &["linux-x64"], 2)),
        ("c", build(20, 0, &["linux-x64"], 3)),
    ]);
    assert_eq!(m.newest(), Some(1));
}

#[test]
fn newest_build_does_not_depend_on_the_listing() {
    let forward = manifest(vec![
        ("a", build(1, 0, &["linux-x64"], 1)),
        ("b", build(2, 0, &["linux-x64"], 2)),
    ]);
    let backward = manifest(vec![
        ("b", build(2, 0, &["linux-x64"], 2)),
        ("a", build(1, 0, &["linux-x64"], 1)),
    ]);
    let one = forward.release("f", "linux-x64").ok().unwrap();
    let other = backward.release("f", "linux-x64").ok().unwrap();
    assert_eq!(one.version, "b");
    assert_eq!(other.version, "b");
}

#[test]
fn manifest_without_builds_is_refused() {
    match manifest(vec![]).release("wizards", "linux-x64") {
        Err(error) => {
            assert!(matches!(error, ForkError::NoVersions(_)));
            assert_eq!(error.message(), "Fork wizards has no versions?");
        }
        Ok(_) => panic!("there is no build"),
    }
}

#[test]
fn newest_build_without_the_platform_is_refused() {
    let m = manifest(vec![
        ("old", build(1, 0, &["linux-x64"], 1)),
        ("new", build(2, 0, &["windows-x64"], 2)),
    ]);
    match m.release("wizards", "linux-x64") {
        Err(error) => {
            assert!(matches!(error, ForkError::NoPlatform(_)));
            assert_eq!(error.message(), "Fork wizards has no versions for our platform!");
        }
        Ok(_) => panic!("there is no server for the platform"),
    }
}
