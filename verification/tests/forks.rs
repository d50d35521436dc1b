use watchdog::digest::ArchiveHasher;
use watchdog::errors::ForkError;
use watchdog::forks::{
    forks_directory_name, Fork, ForkConfig, ForkManager, ForkSetup, SetupAction, SetupEvent,
    UpdateAction, UpdateEvent,
};
use watchdog::manifest::{Artifact, Build, BuildTime, Manifest};
use watchdog::table::Table;

const PLATFORM: &str = "linux-x64";

fn digest_of(content: &[u8]) -> [u8; 32] {
    let mut hasher = ArchiveHasher::new();
    hasher.read(content);
    hasher.finish()
}

fn reading(content: &[u8]) -> SetupEvent {
    let mut hasher = ArchiveHasher::new();
    hasher.read(content);
    SetupEvent::ArchiveRead(hasher)
}

fn manifest_of(version: &str, content: &[u8]) -> Manifest {
    let mut server = Table::new();
    server.insert(
        PLATFORM.to_string(),
        Artifact { url: format!("https://cdn/{}", version), sha256: digest_of(content) },
    );
    let mut builds = Table::new();
    builds.insert(
        version.to_string(),
        Build {
            time: BuildTime { seconds: 1, nanoseconds: 0 },
            client: Artifact { url: String::new(), sha256: [0; 32] },
            server,
        },
    );
    Manifest { builds }
}

fn setup_of(ids: &[&str]) -> ForkSetup {
    let mut configs = Table::new();
    for id in ids {
        configs.insert(
            id.to_string(),
            ForkConfig {
                token: format!("token of {}", id),
                manifest_url: format!("https://manifests/{}", id),
            },
        );
    }
    ForkSetup::new(configs, PLATFORM)
}

fn take(setup: &mut ForkSetup, event: SetupEvent) -> SetupAction {
    assert!(setup.is_expected(&event));
    match setup.step(event) {
        Ok(action) => action,
        Err(error) => panic!("{}", error.message()),
    }
}

#[test]
fn archives_live_in_the_directory_of_forks() {
    assert_eq!(forks_directory_name(), "forks");
}

#[test]
fn setup_without_forks_is_done_at_once() {
    let mut setup = setup_of(&[]);
    assert!(matches!(take(&mut setup, SetupEvent::DirectoryReady), SetupAction::Complete));
    assert_eq!(setup.finish().forks.len(), 0);
}

#[test]
fn setup_keeps_good_archives_and_downloads_the_others() {
    let mut setup = setup_of(&["good", "stale", "missing"]);
    match take(&mut setup, SetupEvent::DirectoryReady) {
        SetupAction::FetchManifest(url) => assert_eq!(url, "https://manifests/good"),
        _ => panic!("the manifest comes first"),
    }
    match take(&mut setup, SetupEvent::ManifestFetched(manifest_of("v1", b"server"))) {
        SetupAction::ReadArchive(archive) => assert_eq!(archive, "good.zip"),
        _ => panic!("the archive is read"),
    }
    match take(&mut setup, reading(b"server")) {
        SetupAction::FetchManifest(url) => assert_eq!(url, "https://manifests/stale"),
        _ => panic!("a good archive is kept"),
    }
    take(&mut setup, SetupEvent::ManifestFetched(manifest_of("v2", b"server")));
    match take(&mut setup, reading(b"old server")) {
        SetupAction::Download { url, archive } => {
            assert_eq!(url, "https://cdn/v2");
            assert_eq!(archive, "stale.zip");
        }
        _ => panic!("a stale archive is replaced"),
    }
    match take(&mut setup, SetupEvent::Downloaded) {
        SetupAction::FetchManifest(url) => assert_eq!(url, "https://manifests/missing"),
        _ => panic!("the next fork comes"),
    }
    take(&mut setup, SetupEvent::ManifestFetched(manifest_of("v3", b"server")));
    match take(&mut setup, SetupEvent::ArchiveUnreadable) {
        SetupAction::Download { url, archive } => {
            assert_eq!(url, "https://cdn/v3");
            assert_eq!(archive, "missing.zip");
        }
        _ => panic!("a missing archive is downloaded"),
    }
    assert!(matches!(take(&mut setup, SetupEvent::Downloaded), SetupAction::Complete));
    let manager = setup.finish();
    assert_eq!(manager.forks.len(), 3);
    for (id, version) in [("good", "v1"), ("stale", "v2"), ("missing", "v3")] {
        let fork = manager.forks.get(id).unwrap();
        assert_eq!(fork.token, format!("token of {}", id));
        assert_eq!(fork.manifest_url, format!("https://manifests/{}", id));
        assert_eq!(fork.archive, format!("{}.zip", id));
        assert_eq!(fork.current_version, version);
    }
}

#[test]
fn setup_fails_where_a_fork_offers_nothing() {
    let mut setup = setup_of(&["empty"]);
    take(&mut setup, SetupEvent::DirectoryReady);
    match setup.step(SetupEvent::ManifestFetched(Manifest { builds: Table::new() })) {
        Err(error) => assert_eq!(error.message(), "Fork empty has no versions?"),
        Ok(_) => panic!("there is nothing to run"),
    }
}

#[test]
fn setup_expects_one_thing_at_a_time() {
    let mut setup = setup_of(&["one"]);
    assert!(!setup.is_expected(&SetupEvent::Downloaded));
    assert!(!setup.is_expected(&SetupEvent::ArchiveUnreadable));
    take(&mut setup, SetupEvent::DirectoryReady);
    assert!(!setup.is_expected(&SetupEvent::DirectoryReady));
    take(&mut setup, SetupEvent::ManifestFetched(manifest_of("v", b"")));
    assert!(setup.is_expected(&SetupEvent::ArchiveUnreadable));
    assert!(setup.is_expected(&reading(b"")));
}

fn one_fork() -> ForkManager {
    let mut forks = Table::new();
    forks.insert(
        "wizards".to_string(),
        Fork {
            token: "secret".to_string(),
            manifest_url: "https://manifests/wizards".to_string(),
            archive: "wizards.zip".to_string(),
            current_version: "v1".to_string(),
        },
    );
    ForkManager { forks }
}

#[test]
fn unknown_fork_cannot_be_updated() {
    match one_fork().check_update("vikings") {
        Err(error) => {
            assert!(matches!(error, ForkError::InvalidFork));
            assert_eq!(error.message(), "Invalid fork!");
        }
        Ok(_) => panic!("there is no such fork"),
    }
}

#[test]
fn current_version_is_not_downloaded_again() {
    let mut check = one_fork().check_update("wizards").ok().unwrap();
    assert_eq!(check.manifest_url, "https://manifests/wizards");
    let action = check.step(PLATFORM, UpdateEvent::ManifestFetched(manifest_of("v1", b"x")));
    assert!(matches!(action, Ok(UpdateAction::UpToDate)));
    assert!(!check.is_expected(&UpdateEvent::Downloaded));
}

#[test]
fn instances_are_told_of_an_update_after_the_download() {
    let mut check = one_fork().check_update("wizards").ok().unwrap();
    match check.step(PLATFORM, UpdateEvent::ManifestFetched(manifest_of("v2", b"x"))) {
        Ok(UpdateAction::Download { url, archive }) => {
            assert_eq!(url, "https://cdn/v2");
            assert_eq!(archive, "wizards.zip");
        }
        _ => panic!("the new version is downloaded"),
    }
    assert!(check.is_expected(&UpdateEvent::Downloaded));
    assert!(matches!(check.step(PLATFORM, UpdateEvent::Downloaded), Ok(UpdateAction::Notify)));
}

#[test]
fn update_without_a_server_for_the_platform_fails() {
    let mut check = one_fork().check_update("wizards").ok().unwrap();
    match check.step("osx-arm64", UpdateEvent::ManifestFetched(manifest_of("v1", b"x"))) {
        Err(error) => {
            assert_eq!(error.message(), "Fork wizards has no versions for our platform!")
        }
        Ok(_) => panic!("there is no server for the platform"),
    }
}

fn set_up_once(content_on_disk: Option<&[u8]>) -> (ForkManager, bool) {
    let mut setup = setup_of(&["wizards"]);
    take(&mut setup, SetupEvent::DirectoryReady);
    take(&mut setup, SetupEvent::ManifestFetched(manifest_of("v7", b"server")));
    let action = match content_on_disk {
        Some(content) => take(&mut setup, reading(content)),
        None => take(&mut setup, SetupEvent::ArchiveUnreadable),
    };
    let downloads = matches!(action, SetupAction::Download { .. });
    if downloads {
        assert!(matches!(take(&mut setup, SetupEvent::Downloaded), SetupAction::Complete));
    }
    (setup.finish(), downloads)
}

#[test]
fn second_set_up_keeps_what_the_first_downloaded() {
    let (first, downloaded) = set_up_once(None);
    assert!(downloaded);
    let (second, downloaded_again) = set_up_once(Some(b"server"));
    assert!(!downloaded_again);
    assert_eq!(first.forks.get("wizards").unwrap().current_version, "v7");
    assert_eq!(second.forks.get("wizards").unwrap().current_version, "v7");
}

#[test]
fn fork_is_up_to_date_after_its_set_up() {
    let (manager, _) = set_up_once(None);
    let mut check = manager.check_update("wizards").ok().unwrap();
    let event = UpdateEvent::ManifestFetched(manifest_of("v7", b"server"));
    assert!(matches!(check.step(PLATFORM, event), Ok(UpdateAction::UpToDate)));
}

fn two_builds(order: [(&str, i64); 2]) -> Manifest {
    let mut builds = Table::new();
    for (version, seconds) in order {
        let mut server = Table::new();
        server.insert(
            PLATFORM.to_string(),
            Artifact { url: format!("https://cdn/{}", version), sha256: [0; 32] },
        );
        builds.insert(
            version.to_string(),
            Build {
                time: BuildTime { seconds, nanoseconds: 0 },
                client: Artifact { url: String::new(), sha256: [0; 32] },
                server,
            },
        );
    }
    Manifest { builds }
}

fn forks_of(ids: &[&str], order: [(&str, i64); 2]) -> ForkManager {
    let mut setup = setup_of(ids);
    take(&mut setup, SetupEvent::DirectoryReady);
    for _ in ids {
        take(&mut setup, SetupEvent::ManifestFetched(two_builds(order)));
        take(&mut setup, SetupEvent::ArchiveUnreadable);
        take(&mut setup, SetupEvent::Downloaded);
    }
    setup.finish()
}

#[test]
fn set_ups_agree_whatever_the_order() {
    let first = forks_of(&["wizards", "vikings"], [("v1", 1), ("v2", 2)]);
    let second = forks_of(&["vikings", "wizards"], [("v2", 2), ("v1", 1)]);
    assert_eq!(first.forks.len(), second.forks.len());
    for id in ["wizards", "vikings"] {
        let one = first.forks.get(id).unwrap();
        let other = second.forks.get(id).unwrap();
        assert_eq!(one.current_version, "v2");
        assert_eq!(other.current_version, "v2");
        assert_eq!(one.token, other.token);
        assert_eq!(one.manifest_url, other.manifest_url);
        assert_eq!(one.archive, other.archive);
    }
}
