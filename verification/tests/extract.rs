use rc_zip_tokio::rc_zip::chrono::DateTime;
use rc_zip_tokio::rc_zip::parse::{Entry, HostSystem, Method, Mode, Version};
use watchdog::extract::{
    plan, sanitized_name, ArchiveEntry, ExtractAction, ExtractEvent, Extraction, ExtractionPlan,
    PlannedFile, Removal,
};
use watchdog::forks::{Fork, ForkManager};
use watchdog::table::Table;

const DIRECTORY: u32 = 1 << 31;
const SYMLINK: u32 = 1 << 27;

fn entry(name: &str, mode: u32) -> ArchiveEntry {
    ArchiveEntry { name: name.to_string(), mode }
}

fn accepted(name: &str, windows: bool) -> Option<String> {
    sanitized_name(name, windows)
}

fn planned(plan: &ExtractionPlan) -> Vec<(usize, &str)> {
    plan.files.iter().map(|file| (file.index, file.name.as_str())).collect()
}

fn forks() -> ForkManager {
    let mut forks = Table::new();
    forks.insert(
        "wizards".to_string(),
        Fork {
            token: String::new(),
            manifest_url: String::new(),
            archive: "wizards.zip".to_string(),
            current_version: String::new(),
        },
    );
    ForkManager { forks }
}

#[test]
fn kinds_follow_from_modes() {
    let entries = vec![
        entry("a", 0o644),
        entry("b", DIRECTORY | 0o755),
        entry("c", SYMLINK | 0o777),
        entry("d", SYMLINK | DIRECTORY),
        entry("e", 1 << 26),
    ];
    assert_eq!(planned(&plan(&entries, false)), [(0, "a"), (4, "e")]);
}

#[test]
fn names_that_climb_are_not_accepted() {
    for windows in [false, true] {
        assert_eq!(accepted("bin/Robust.Server", windows).as_deref(), Some("bin/Robust.Server"));
        assert_eq!(accepted("", windows).as_deref(), Some(""));
        assert_eq!(accepted(".", windows).as_deref(), Some("."));
        assert_eq!(accepted(". .", windows).as_deref(), Some(". ."));
        for name in ["../evil", "a/../../evil", "odd..name", "..", "a.."] {
            assert_eq!(accepted(name, windows), None);
        }
    }
}

#[test]
fn leading_slashes_are_dropped_unless_on_windows() {
    assert_eq!(accepted("//etc/passwd", false).as_deref(), Some("etc/passwd"));
    assert_eq!(accepted("/\u{e4}/b", false).as_deref(), Some("\u{e4}/b"));
    assert_eq!(accepted("///", false).as_deref(), Some(""));
    assert_eq!(accepted("//etc/passwd", true).as_deref(), Some("//etc/passwd"));
}

#[test]
fn windows_refuses_drives_and_backslashes() {
    assert_eq!(accepted("C:\\x", true), None);
    assert_eq!(accepted("\\x", true), None);
    assert_eq!(accepted("a\\b:c", true).as_deref(), Some("a\\b:c"));
    assert_eq!(accepted("C:\\x", false).as_deref(), Some("C:\\x"));
    assert_eq!(accepted("\\x", false).as_deref(), Some("\\x"));
}

#[test]
fn names_are_accepted_as_the_archive_reader_accepts_them() {
    let windows = std::path::MAIN_SEPARATOR != '/';
    let parts = ["", "/", ".", "..", "a", "\\", ":", "C:", "\u{fc}", "\u{1f600}", " ", "\0"];
    for first in parts {
        for second in parts {
            for third in parts {
                for fourth in parts {
                    let name = format!("{}{}{}{}", first, second, third, fourth);
                    let outside = Entry {
                        name: name.clone(),
                        method: Method::Store,
                        comment: String::new(),
                        modified: DateTime::UNIX_EPOCH,
                        created: None,
                        accessed: None,
                        header_offset: 0,
                        reader_version: Version { host_system: HostSystem::Unix, version: 0 },
                        flags: 0,
                        uid: None,
                        gid: None,
                        crc32: 0,
                        compressed_size: 0,
                        uncompressed_size: 0,
                        mode: Mode(0),
                    };
                    assert_eq!(accepted(&name, windows).as_deref(), outside.sanitized_name());
                }
            }
        }
    }
}

#[test]
fn only_files_are_planned() {
    let plan = plan(
        &vec![
            entry("bin/", DIRECTORY),
            entry("/bin/a", 0),
            entry("../link", SYMLINK),
            entry("b", 0),
        ],
        false,
    );
    assert_eq!(planned(&plan), [(1, "bin/a"), (3, "b")]);
    assert!(!plan.stopped);
}

#[test]
fn plan_stops_at_the_first_bad_file() {
    let plan = plan(
        &vec![entry("a", 0), entry("../x", 0), entry("b", 0), entry("../y", 0)],
        false,
    );
    assert_eq!(planned(&plan), [(0, "a")]);
    assert!(plan.stopped);
}

#[test]
fn plan_of_nothing_is_empty() {
    let plan = plan(&vec![], false);
    assert!(plan.files.is_empty());
    assert!(!plan.stopped);
}

fn files_of(extraction: &mut Extraction, forks: &ForkManager, removal: Removal) -> Vec<PlannedFile> {
    assert!(extraction.step(forks, ExtractEvent::Removal(removal)).is_ok());
    assert!(extraction.step(forks, ExtractEvent::Created).is_ok());
    let entries = vec![entry("d", DIRECTORY), entry("/f", 0), entry("l", SYMLINK), entry("g", 0)];
    match extraction.step(forks, ExtractEvent::Listed(entries)) {
        Ok(ExtractAction::WriteFiles(files)) => files,
        _ => panic!("the files are written"),
    }
}

#[test]
fn same_archive_is_extracted_alike() {
    let forks = forks();
    let mut first = forks.extract_to("wizards", false);
    let mut second = forks.extract_to("wizards", false);
    let once = files_of(&mut first, &forks, Removal::Missing);
    let again = files_of(&mut second, &forks, Removal::Removed);
    let names = |files: &Vec<PlannedFile>| -> Vec<(usize, String)> {
        files.iter().map(|file| (file.index, file.name.clone())).collect()
    };
    assert_eq!(names(&once), [(1, "f".to_string()), (3, "g".to_string())]);
    assert_eq!(names(&again), names(&once));
    assert!(matches!(first.step(&forks, ExtractEvent::Written), Ok(ExtractAction::Complete)));
    assert!(matches!(second.step(&forks, ExtractEvent::Written), Ok(ExtractAction::Complete)));
}

#[test]
fn extraction_runs_to_its_end() {
    let forks = forks();
    let mut extraction = forks.extract_to("wizards", false);
    let event = ExtractEvent::Removal(Removal::Missing);
    assert!(extraction.is_expected(&event));
    assert!(matches!(extraction.step(&forks, event), Ok(ExtractAction::CreateDirectory)));
    match extraction.step(&forks, ExtractEvent::Created) {
        Ok(ExtractAction::ListArchive(archive)) => assert_eq!(archive, "wizards.zip"),
        _ => panic!("the archive is listed"),
    }
    let entries = vec![entry("d", DIRECTORY), entry("f", 0)];
    match extraction.step(&forks, ExtractEvent::Listed(entries)) {
        Ok(ExtractAction::WriteFiles(files)) => {
            assert_eq!(files.len(), 1);
            assert_eq!(files[0].index, 1);
            assert_eq!(files[0].name, "f");
        }
        _ => panic!("the files are written"),
    }
    assert!(matches!(
        extraction.step(&forks, ExtractEvent::Written),
        Ok(ExtractAction::Complete)
    ));
    assert!(!extraction.is_expected(&ExtractEvent::Written));
}

#[test]
fn bad_name_fails_after_the_files_before_it() {
    let forks = forks();
    let mut extraction = forks.extract_to("wizards", false);
    assert!(extraction.step(&forks, ExtractEvent::Removal(Removal::Removed)).is_ok());
    assert!(extraction.step(&forks, ExtractEvent::Created).is_ok());
    let entries = vec![entry("f", 0), entry("../g", 0), entry("h", 0)];
    match extraction.step(&forks, ExtractEvent::Listed(entries)) {
        Ok(ExtractAction::WriteFiles(files)) => {
            assert_eq!(files.len(), 1);
            assert_eq!(files[0].name, "f");
        }
        _ => panic!("what is good is written"),
    }
    match extraction.step(&forks, ExtractEvent::Written) {
        Err(error) => assert_eq!(error.message(), "Invalid filename in server zip!"),
        Ok(_) => panic!("a name was bad"),
    }
}

#[test]
fn unknown_fork_is_noticed_after_the_directory_was_made() {
    let forks = forks();
    let mut extraction = forks.extract_to("vikings", false);
    assert!(extraction.step(&forks, ExtractEvent::Removal(Removal::Removed)).is_ok());
    match extraction.step(&forks, ExtractEvent::Created) {
        Err(error) => assert_eq!(error.message(), "Invalid fork!"),
        Ok(_) => panic!("there is no such fork"),
    }
}

#[test]
fn directory_that_cannot_be_removed_ends_the_extraction() {
    let forks = forks();
    let mut extraction = forks.extract_to("wizards", false);
    assert!(matches!(
        extraction.step(&forks, ExtractEvent::Removal(Removal::Failed)),
        Ok(ExtractAction::GiveUp)
    ));
}
