//! How the server of a fork is extracted from its archive.
use rc_zip_tokio::rc_zip::chrono::DateTime;
use rc_zip_tokio::rc_zip::parse::{Entry, HostSystem, Method, Mode, Version};
use vstd::prelude::*;

use crate::errors::ForkError;
use crate::forks::ForkManager;

verus! {

/// What an entry of an archive is.
#[derive(Clone, Copy, Debug, PartialEq, Eq, Structural)]
pub enum EntryKind {
    Directory,
    File,
    Symlink,
}

/// An entry of an archive: its name, as the archive gives it, and its mode.
pub struct ArchiveEntry {
    pub name: String,
    pub mode: u32,
}

impl View for ArchiveEntry {
    type V = (Seq<char>, u32);

    open spec fn view(&self) -> (Seq<char>, u32) {
        (self.name@, self.mode)
    }
}

/// The names and modes of the entries of an archive.
pub open spec fn listing(entries: Seq<ArchiveEntry>) -> Seq<(Seq<char>, u32)> {
    entries.map_values(|entry: ArchiveEntry| entry@)
}

/// What an entry with the given mode is.
pub open spec fn kind_of_mode(mode: u32) -> EntryKind {
    if mode & 0x0800_0000 != 0 {
        EntryKind::Symlink
    } else if mode & 0x8000_0000 != 0 {
        EntryKind::Directory
    } else {
        EntryKind::File
    }
}

/// Whether `first` and `second` stand next to each other somewhere in `text`.
pub open spec fn has_pair(text: Seq<char>, first: char, second: char) -> bool {
    exists|i: int| 0 <= i < text.len() - 1 && #[trigger] text[i] == first && text[i + 1] == second
}

/// Whether `text` begins with `c`.
pub open spec fn begins_with(text: Seq<char>, c: char) -> bool {
    text.len() > 0 && text[0] == c
}

/// `name` without the slashes at its beginning.
pub open spec fn without_leading_slashes(name: Seq<char>) -> Seq<char>
    decreases name.len(),
{
    if begins_with(name, '/') {
        without_leading_slashes(name.drop_first())
    } else {
        name
    }
}

/// The name under which an entry may be extracted, on Windows or elsewhere, if it may be.
pub open spec fn sanitized(name: Seq<char>, windows: bool) -> Option<Seq<char>> {
    if has_pair(name, '.', '.') {
        None
    } else if !windows {
        Some(without_leading_slashes(name))
    } else if has_pair(name, ':', '\\') || begins_with(name, '\\') {
        None
    } else {
        Some(name)
    }
}

/// The view of an optional text.
pub open spec fn name_view(name: Option<String>) -> Option<Seq<char>> {
    match name {
        Some(s) => Some(s@),
        None => None,
    }
}

/// `Entry::kind` of `rc-zip`, on an entry with the given mode: a symbolic link, else a directory,
/// if the mode has the bit for it, and a file otherwise.
#[verifier::external_body]
fn entry_kind(mode: u32) -> (kind: EntryKind)
    ensures
        kind == kind_of_mode(mode),
{
    let entry = Entry {
        name: String::new(), method: Method::Store, comment: String::new(),
        modified: DateTime::UNIX_EPOCH, created: None, accessed: None, header_offset: 0,
        reader_version: Version { host_system: HostSystem::Unix, version: 0 }, flags: 0,
        uid: None, gid: None, crc32: 0, compressed_size: 0, uncompressed_size: 0,
        mode: Mode(mode),
    };
    match entry.kind() {
        rc_zip_tokio::rc_zip::EntryKind::Directory => EntryKind::Directory,
        rc_zip_tokio::rc_zip::EntryKind::File => EntryKind::File,
        rc_zip_tokio::rc_zip::EntryKind::Symlink => EntryKind::Symlink,
    }
}

fn holds_pair(text: &str, first: char, second: char) -> (found: bool)
    ensures
        found == has_pair(text@, first, second),
{
    let mut armed: bool = false;
    for c in it: text.chars()
        invariant
            it.seq() == text@,
            armed == (it.index() > 0 && text@[it.index() - 1] == first),
            forall|i: int|
                0 <= i < it.index() - 1 ==> !(#[trigger] text@[i] == first && text@[i + 1]
                    == second),
    {
        let ghost here = it.index();
        assert(c == text@[here]);
        if armed && c == second {
            assert(text@[here - 1] == first && text@[here - 1 + 1] == second);
            return true;
        }
        armed = c == first;
    }
    false
}

fn starts_with_char(text: &str, c: char) -> (starts: bool)
    ensures
        starts == begins_with(text@, c),
{
    text.unicode_len() > 0 && text.get_char(0) == c
}

fn strip_leading_slashes(name: &str) -> (rest: String)
    ensures
        rest@ == without_leading_slashes(name@),
{
    let total = name.unicode_len();
    let mut slashes: usize = 0;
    assert(name@.subrange(0, total as int) =~= name@);
    for c in it: name.chars()
        invariant
            it.seq() == name@,
            total == name@.len(),
            slashes == it.index(),
            without_leading_slashes(name@) == without_leading_slashes(
                name@.subrange(slashes as int, total as int),
            ),
    {
        let ghost rest = name@.subrange(slashes as int, total as int);
        assert(c == name@[slashes as int] && rest[0] == c);
        if c != '/' {
            return name.substring_char(slashes, total).to_owned();
        }
        slashes = slashes + 1;
        assert(rest.drop_first() =~= name@.subrange(slashes as int, total as int));
    }
    proof {
        reveal_strlit("");
        assert(name@.subrange(total as int, total as int) =~= ""@);
    }
    "".to_owned()
}

/// The name under which an entry may be extracted. Two dots in a row are never accepted. Slashes
/// at the beginning are dropped, but on Windows; there, what begins with a backslash or leads to
/// a drive by one is not accepted.
pub fn sanitized_name(name: &str, windows: bool) -> (accepted: Option<String>)
    ensures
        name_view(accepted) == sanitized(name@, windows),
{
    if holds_pair(name, '.', '.') {
        None
    } else if !windows {
        Some(strip_leading_slashes(name))
    } else if holds_pair(name, ':', '\\') || starts_with_char(name, '\\') {
        None
    } else {
        Some(name.to_owned())
    }
}

/// A file to extract: its place among the entries, and the name it gets.
pub struct PlannedFile {
    pub index: usize,
    pub name: String,
}

/// The files to extract, in order, and whether an entry stopped the extraction.
pub struct ExtractionPlan {
    pub files: Vec<PlannedFile>,
    pub stopped: bool,
}

/// Whether the extraction stops at this entry: a file whose name is not accepted.
pub open spec fn stops_at(entry: (Seq<char>, u32), windows: bool) -> bool {
    kind_of_mode(entry.1) == EntryKind::File && sanitized(entry.0, windows) is None
}

/// Whether the extraction stops at one of the entries.
pub open spec fn stops_within(entries: Seq<(Seq<char>, u32)>, windows: bool) -> bool {
    exists|i: int| 0 <= i < entries.len() && stops_at(#[trigger] entries[i], windows)
}

/// The files among the entries before the one at which the extraction stops, each with its
/// place and the name it gets.
pub open spec fn files_within(entries: Seq<(Seq<char>, u32)>, windows: bool) -> Seq<
    (int, Seq<char>),
>
    decreases entries.len(),
{
    if entries.len() == 0 {
        Seq::empty()
    } else {
        let earlier = files_within(entries.drop_last(), windows);
        let last = entries.last();
        if stops_within(entries, windows) || kind_of_mode(last.1) != EntryKind::File {
            earlier
        } else {
            earlier.push((entries.len() - 1, sanitized(last.0, windows)->0))
        }
    }
}

/// The places and names of planned files.
pub open spec fn planned_names(files: Seq<PlannedFile>) -> Seq<(int, Seq<char>)> {
    files.map_values(|file: PlannedFile| (file.index as int, file.name@))
}

/// Plans the extraction: files only, in the order of the archive, up to the first file whose name
/// is not accepted.
pub fn plan(entries: &Vec<ArchiveEntry>, windows: bool) -> (plan: ExtractionPlan)
    ensures
        planned_names(plan.files@) == files_within(listing(entries@), windows),
        plan.stopped == stops_within(listing(entries@), windows),
{
    let ghost all = listing(entries@);
    let mut files: Vec<PlannedFile> = Vec::new();
    let mut i: usize = 0;
    assert(planned_names(files@) =~= files_within(all.take(0), windows));
    while i < entries.len()
        invariant
            all == listing(entries@),
            i <= entries@.len(),
            !stops_within(all.take(i as int), windows),
            planned_names(files@) == files_within(all.take(i as int), windows),
        decreases entries@.len() - i,
    {
        let ghost before = all.take(i as int);
        let ghost after = all.take(i + 1);
        let entry = &entries[i];
        proof {
            assert(after.drop_last() =~= before);
            assert(after.last() == entry@);
            lemma_stops_one_more(after, windows);
        }
        if entry_kind(entry.mode) == EntryKind::File {
            match sanitized_name(entry.name.as_str(), windows) {
                None => {
                    proof {
                        assert(stops_at(after.last(), windows));
                        lemma_stopped_files(all, windows, i + 1);
                    }
                    return ExtractionPlan { files, stopped: true };
                },
                Some(name) => {
                    let ghost earlier = files@;
                    let ghost accepted = name@;
                    files.push(PlannedFile { index: i, name });
                    assert(planned_names(files@) =~= planned_names(earlier).push(
                        (i as int, accepted),
                    ));
                },
            }
        }
        i = i + 1;
    }
    assert(all.take(i as int) =~= all);
    ExtractionPlan { files, stopped: false }
}

proof fn lemma_stops_one_more(entries: Seq<(Seq<char>, u32)>, windows: bool)
    requires
        entries.len() > 0,
    ensures
        stops_within(entries, windows) == (stops_within(entries.drop_last(), windows) || stops_at(
            entries.last(),
            windows,
        )),
{
    let earlier = entries.drop_last();
    if stops_within(earlier, windows) {
        let i = choose|i: int| 0 <= i < earlier.len() && stops_at(#[trigger] earlier[i], windows);
        assert(stops_at(entries[i], windows));
    }
    if stops_within(entries, windows) {
        let i = choose|i: int| 0 <= i < entries.len() && stops_at(#[trigger] entries[i], windows);
        if i < earlier.len() {
            assert(stops_at(earlier[i], windows));
        }
    }
}

proof fn lemma_stopped_files(entries: Seq<(Seq<char>, u32)>, windows: bool, count: int)
    requires
        0 <= count <= entries.len(),
        stops_within(entries.take(count), windows),
    ensures
        stops_within(entries, windows),
        files_within(entries, windows) == files_within(entries.take(count), windows),
    decreases entries.len() - count,
{
    if count == entries.len() {
        assert(entries.take(count) =~= entries);
    } else {
        let next = entries.take(count + 1);
        assert(next.drop_last() =~= entries.take(count));
        lemma_stops_one_more(next, windows);
        lemma_stopped_files(entries, windows, count + 1);
    }
}

/// Whether `name` begins, for Windows, at the root of a drive or with a drive.
pub open spec fn is_rooted(name: Seq<char>) -> bool {
    ||| begins_with(name, '/')
    ||| begins_with(name, '\\')
    ||| name.len() > 1 && name[1] == ':' && (('a' <= name[0] && name[0] <= 'z') || ('A' <= name[0]
        && name[0] <= 'Z'))
}

/// Whether `name`, joined to a directory, leads to the directory or below it: it does not start
/// anew from a root, and no part of it leads up.
pub open spec fn stays_below(name: Seq<char>, windows: bool) -> bool {
    &&& !has_pair(name, '.', '.')
    &&& if windows {
        !is_rooted(name)
    } else {
        !begins_with(name, '/')
    }
}

/// A name that is accepted leads nowhere but below the directory it is joined to. On Windows,
/// names that begin with a slash or a drive are left out.
pub proof fn accepted_names_stay_below(name: Seq<char>, windows: bool)
    requires
        windows ==> !is_rooted(name),
    ensures
        sanitized(name, windows) matches Some(accepted) ==> stays_below(accepted, windows),
    decreases name.len(),
{
    if !windows && !has_pair(name, '.', '.') && begins_with(name, '/') {
        let rest = name.drop_first();
        assert(!has_pair(rest, '.', '.')) by {
            if has_pair(rest, '.', '.') {
                let i = choose|i: int|
                    0 <= i < rest.len() - 1 && #[trigger] rest[i] == '.' && rest[i + 1] == '.';
                assert(name[i + 1] == '.' && name[i + 1 + 1] == '.');
            }
        }
        accepted_names_stay_below(rest, windows);
    }
}

/// Only files are planned, no directory and no symbolic link, each under the name that is
/// accepted for its entry.
pub proof fn planned_files_are_files(entries: Seq<(Seq<char>, u32)>, windows: bool, i: int)
    requires
        0 <= i < files_within(entries, windows).len(),
    ensures
        ({
            let (place, name) = files_within(entries, windows)[i];
            &&& 0 <= place < entries.len()
            &&& kind_of_mode(entries[place].1) == EntryKind::File
            &&& sanitized(entries[place].0, windows) == Some(name)
        }),
    decreases entries.len(),
{
    if entries.len() > 0 {
        let earlier = entries.drop_last();
        if i < files_within(earlier, windows).len() {
            planned_files_are_files(earlier, windows, i);
        } else {
            assert(!stops_at(entries[entries.len() - 1], windows));
        }
    }
}

/// Whatever an archive holds, no planned file is written outside the directory that the server is
/// extracted to. On Windows, entries whose names begin with a slash or a drive are left out.
pub proof fn planned_files_stay_below(entries: Seq<(Seq<char>, u32)>, windows: bool, i: int)
    requires
        0 <= i < files_within(entries, windows).len(),
        windows ==> !is_rooted(entries[files_within(entries, windows)[i].0].0),
    ensures
        stays_below(files_within(entries, windows)[i].1, windows),
{
    planned_files_are_files(entries, windows, i);
    accepted_names_stay_below(entries[files_within(entries, windows)[i].0].0, windows);
}

/// How the removal of the old directory went.
#[derive(Clone, Copy, Debug, PartialEq, Eq, Structural)]
pub enum Removal {
    /// It was removed.
    Removed,
    /// It was not there.
    Missing,
    /// It could not be removed.
    Failed,
}

/// How far an extraction has come.
#[derive(Clone, Copy, Debug, PartialEq, Eq, Structural)]
pub enum ExtractStage {
    /// The old directory is being removed.
    Removing,
    /// The directory is being made.
    Creating,
    /// The list of entries is being read.
    Listing,
    /// The files are being written. The flag tells whether an entry stopped the extraction.
    Writing(bool),
    /// The extraction is over.
    Over,
}

/// What happened during an extraction.
pub enum ExtractEvent {
    /// The removal of the old directory came to this.
    Removal(Removal),
    /// The directory was made.
    Created,
    /// The archive has these entries.
    Listed(Vec<ArchiveEntry>),
    /// The files were written.
    Written,
}

/// What to do next during an extraction.
pub enum ExtractAction {
    /// Give up: the directory could not be removed.
    GiveUp,
    /// Make the directory.
    CreateDirectory,
    /// List the entries of this file of the directory of archives.
    ListArchive(String),
    /// Write these files, in this order.
    WriteFiles(Vec<PlannedFile>),
    /// Nothing: the server is extracted.
    Complete,
}

/// The extraction of the server of one fork. Whoever runs it starts by removing the directory
/// that the server is extracted to.
pub struct Extraction {
    pub fork: String,
    pub windows: bool,
    pub stage: ExtractStage,
}

impl ForkManager {
    /// Begins to extract the server of the fork `id`, on Windows or elsewhere.
    pub fn extract_to(&self, id: &str, windows: bool) -> (extraction: Extraction)
        ensures
            extraction.begins(id@, windows),
    {
        Extraction { fork: id.to_owned(), windows, stage: ExtractStage::Removing }
    }
}

impl Extraction {
    /// Whether `self` is an extraction of the fork `id` at its beginning.
    pub open spec fn begins(self, id: Seq<char>, windows: bool) -> bool {
        &&& self.fork@ == id
        &&& self.windows == windows
        &&& self.stage is Removing
    }

    /// Whether `event` is one that can happen now.
    pub open spec fn expects(self, event: ExtractEvent) -> bool {
        match self.stage {
            ExtractStage::Removing => event is Removal,
            ExtractStage::Creating => event is Created,
            ExtractStage::Listing => event is Listed,
            ExtractStage::Writing(_) => event is Written,
            ExtractStage::Over => false,
        }
    }

    /// Tells whether `event` is one that can happen now.
    pub fn is_expected(&self, event: &ExtractEvent) -> (expected: bool)
        ensures
            expected == self.expects(*event),
    {
        match (self.stage, event) {
            (ExtractStage::Removing, ExtractEvent::Removal(_)) => true,
            (ExtractStage::Creating, ExtractEvent::Created) => true,
            (ExtractStage::Listing, ExtractEvent::Listed(_)) => true,
            (ExtractStage::Writing(_), ExtractEvent::Written) => true,
            _ => false,
        }
    }

    /// Whether `event` turns `self` to `after` and `action` is what to do next.
    pub open spec fn turns(
        self,
        forks: ForkManager,
        event: ExtractEvent,
        after: Extraction,
        action: Result<ExtractAction, ForkError>,
    ) -> bool {
        &&& after.fork == self.fork
        &&& after.windows == self.windows
        &&& match (self.stage, event) {
            (ExtractStage::Removing, ExtractEvent::Removal(Removal::Failed)) => {
                &&& action matches Ok(ExtractAction::GiveUp)
                &&& after.stage is Over
            },
            (ExtractStage::Removing, _) => {
                &&& action matches Ok(ExtractAction::CreateDirectory)
                &&& after.stage is Creating
            },
            (ExtractStage::Creating, _) => if forks.forks@.contains_key(self.fork@) {
                &&& action matches Ok(ExtractAction::ListArchive(archive))
                &&& archive@ == forks.forks@[self.fork@].archive@
                &&& after.stage is Listing
            } else {
                action matches Err(ForkError::InvalidFork) && after.stage is Over
            },
            (ExtractStage::Listing, ExtractEvent::Listed(entries)) => {
                &&& action matches Ok(ExtractAction::WriteFiles(files))
                &&& planned_names(files@) == files_within(listing(entries@), self.windows)
                &&& after.stage == ExtractStage::Writing(
                    stops_within(listing(entries@), self.windows),
                )
            },
            (ExtractStage::Writing(true), _) => {
                &&& action matches Err(ForkError::InvalidFilename)
                &&& after.stage is Over
            },
            (_, _) => {
                &&& action matches Ok(ExtractAction::Complete)
                &&& after.stage is Over
            },
        }
    }

    /// Takes in what happened and says what to do next. Whether the fork exists is looked at
    /// when the directory has been made; the files before an entry that stops the extraction
    /// are still written.
    pub fn step(&mut self, forks: &ForkManager, event: ExtractEvent) -> (action: Result<
        ExtractAction,
        ForkError,
    >)
        requires
            old(self).expects(event),
        ensures
            old(self).turns(*forks, event, *final(self), action),
    {
        match (self.stage, event) {
            (ExtractStage::Removing, ExtractEvent::Removal(Removal::Failed)) => {
                self.stage = ExtractStage::Over;
                Ok(ExtractAction::GiveUp)
            },
            (ExtractStage::Removing, _) => {
                self.stage = ExtractStage::Creating;
                Ok(ExtractAction::CreateDirectory)
            },
            (ExtractStage::Creating, _) => {
                match forks.forks.get(self.fork.as_str()) {
                    None => {
                        self.stage = ExtractStage::Over;
                        Err(ForkError::InvalidFork)
                    },
                    Some(fork) => {
                        self.stage = ExtractStage::Listing;
                        Ok(ExtractAction::ListArchive(fork.archive.clone()))
                    },
                }
            },
            (ExtractStage::Listing, ExtractEvent::Listed(entries)) => {
                let plan = plan(&entries, self.windows);
                self.stage = ExtractStage::Writing(plan.stopped);
                Ok(ExtractAction::WriteFiles(plan.files))
            },
            (ExtractStage::Writing(true), _) => {
                self.stage = ExtractStage::Over;
                Err(ForkError::InvalidFilename)
            },
            (_, _) => {
                self.stage = ExtractStage::Over;
                Ok(ExtractAction::Complete)
            },
        }
    }
}

/// A whole extraction in which all that is to be done can be done: what it comes to after each
/// event, what it asks for, and its outcome.
pub struct ExtractionCourse {
    pub begun: Extraction,
    pub removal: Removal,
    pub cleared: Extraction,
    pub made: Extraction,
    pub archive: String,
    pub entries: Vec<ArchiveEntry>,
    pub listed: Extraction,
    pub files: Vec<PlannedFile>,
    pub over: Extraction,
    pub outcome: Result<ExtractAction, ForkError>,
}

/// The files in a directory that was empty before these were written to it in turn, by the name
/// they were written under. Each gets the content of its entry.
pub open spec fn written_files(files: Seq<(int, Seq<char>)>, contents: Seq<Seq<u8>>) -> Map<
    Seq<char>,
    Seq<u8>,
>
    decreases files.len(),
{
    if files.len() == 0 {
        Map::empty()
    } else {
        written_files(files.drop_last(), contents).insert(
            files.last().1,
            contents[files.last().0],
        )
    }
}

impl ExtractionCourse {
    /// Whether the extraction can go like this.
    pub open spec fn runs(self, forks: ForkManager) -> bool {
        &&& self.begun.stage is Removing
        &&& !(self.removal is Failed)
        &&& self.begun.turns(
            forks,
            ExtractEvent::Removal(self.removal),
            self.cleared,
            Ok(ExtractAction::CreateDirectory),
        )
        &&& self.cleared.turns(
            forks,
            ExtractEvent::Created,
            self.made,
            Ok(ExtractAction::ListArchive(self.archive)),
        )
        &&& self.made.turns(
            forks,
            ExtractEvent::Listed(self.entries),
            self.listed,
            Ok(ExtractAction::WriteFiles(self.files)),
        )
        &&& self.listed.turns(forks, ExtractEvent::Written, self.over, self.outcome)
    }

    /// What the directory holds at the end, where `contents` are those of the entries.
    pub open spec fn leaves(self, contents: Seq<Seq<u8>>) -> Map<Seq<char>, Seq<u8>> {
        written_files(planned_names(self.files@), contents)
    }
}

/// An extraction writes only files, and only below its directory, whatever the archive holds and
/// whatever comes of it. On Windows, entries whose names begin with a slash or a drive are left
/// out.
pub proof fn extraction_stays_below(forks: ForkManager, course: ExtractionCourse, i: int)
    requires
        course.runs(forks),
        0 <= i < course.files@.len(),
        course.begun.windows ==> !is_rooted(course.entries@[course.files@[i].index as int].name@),
    ensures
        course.files@[i].index < course.entries@.len(),
        kind_of_mode(course.entries@[course.files@[i].index as int].mode) == EntryKind::File,
        stays_below(course.files@[i].name@, course.begun.windows),
{
    let entries = listing(course.entries@);
    let windows = course.begun.windows;
    assert(planned_names(course.files@)[i] == files_within(entries, windows)[i]);
    planned_files_are_files(entries, windows, i);
    planned_files_stay_below(entries, windows, i);
}

/// Extracting the same archive once more gives the same files with the same contents and ends in
/// the same way, whatever became of the directory in between.
pub proof fn extraction_is_repeatable(
    forks: ForkManager,
    first: ExtractionCourse,
    second: ExtractionCourse,
    contents: Seq<Seq<u8>>,
)
    requires
        first.runs(forks),
        second.runs(forks),
        second.begun.fork@ == first.begun.fork@,
        second.begun.windows == first.begun.windows,
        listing(second.entries@) == listing(first.entries@),
    ensures
        second.archive@ == first.archive@,
        planned_names(second.files@) == planned_names(first.files@),
        second.leaves(contents) == first.leaves(contents),
        second.outcome == first.outcome,
{
}

/// What an entry is depends on two bits of its mode: one makes it a symbolic link, else the other
/// makes it a directory, and without both it is a file. Permissions do not matter.
pub proof fn kinds_are_told_by_two_bits(mode: u32, permissions: u32)
    requires
        permissions < 0o10000,
    ensures
        kind_of_mode(mode) == EntryKind::Symlink <==> (mode >> 27) & 1 == 1,
        kind_of_mode(mode) == EntryKind::Directory <==> (mode >> 31) & 1 == 1 && (mode >> 27) & 1
            == 0,
        kind_of_mode(mode) == EntryKind::File <==> (mode >> 31) & 1 == 0 && (mode >> 27) & 1 == 0,
        kind_of_mode(mode | permissions) == kind_of_mode(mode),
{
    assert((mode & 0x0800_0000 != 0) <==> ((mode >> 27) & 1 == 1)) by (bit_vector);
    assert((mode & 0x8000_0000 != 0) <==> ((mode >> 31) & 1 == 1)) by (bit_vector);
    assert(((mode >> 27) & 1 == 1) <==> !((mode >> 27) & 1 == 0)) by (bit_vector);
    assert(((mode >> 31) & 1 == 1) <==> !((mode >> 31) & 1 == 0)) by (bit_vector);
    assert((mode | permissions) & 0x0800_0000 == mode & 0x0800_0000) by (bit_vector)
        requires
            permissions < 0o10000,
    ;
    assert((mode | permissions) & 0x8000_0000 == mode & 0x8000_0000) by (bit_vector)
        requires
            permissions < 0o10000,
    ;
}

/// Elsewhere than on Windows, every name without two dots in a row is accepted, and what is accepted
/// is the name after the slashes that it begins with.
pub proof fn accepted_name_follows_the_slashes(name: Seq<char>)
    ensures
        sanitized(name, false) is None <==> exists|i: int|
            0 <= i < name.len() - 1 && #[trigger] name[i] == '.' && name[i + 1] == '.',
        sanitized(name, false) matches Some(accepted) ==> {
            let slashes = name.len() - accepted.len();
            &&& 0 <= slashes
            &&& accepted == name.skip(slashes)
            &&& forall|i: int| 0 <= i < slashes ==> name[i] == '/'
            &&& accepted.len() > 0 ==> accepted[0] != '/'
        },
{
    lemma_slashes(name);
}

proof fn lemma_slashes(name: Seq<char>)
    ensures
        ({
            let rest = without_leading_slashes(name);
            let slashes = name.len() - rest.len();
            &&& 0 <= slashes
            &&& rest == name.skip(slashes)
            &&& forall|i: int| 0 <= i < slashes ==> name[i] == '/'
            &&& rest.len() > 0 ==> rest[0] != '/'
        }),
    decreases name.len(),
{
    if name.len() > 0 && name[0] == '/' {
        let next = name.drop_first();
        lemma_slashes(next);
        let slashes = next.len() - without_leading_slashes(next).len();
        assert(name.skip(slashes + 1) =~= next.skip(slashes));
        assert forall|i: int| 0 <= i < slashes + 1 implies name[i] == '/' by {
            if i > 0 {
                assert(next[i - 1] == '/');
            }
        }
    } else {
        assert(name.skip(0) =~= name);
    }
}

/// On Windows a name is accepted as it is, unless two dots, or a colon and a backslash, stand in a
/// row in it, or it begins with a backslash.
pub proof fn windows_accepts_names_as_they_are(name: Seq<char>)
    ensures
        sanitized(name, true) is None <==> {
            ||| exists|i: int|
                0 <= i < name.len() - 1 && #[trigger] name[i] == '.' && name[i + 1] == '.'
            ||| exists|i: int|
                0 <= i < name.len() - 1 && #[trigger] name[i] == ':' && name[i + 1] == '\\'
            ||| name.len() > 0 && name[0] == '\\'
        },
        sanitized(name, true) matches Some(accepted) ==> accepted == name,
{
}

/// Whether the entry at place `q` is a file whose name is not accepted.
pub open spec fn is_bad_file(entries: Seq<(Seq<char>, u32)>, windows: bool, q: int) -> bool {
    kind_of_mode(entries[q].1) == EntryKind::File && sanitized(entries[q].0, windows) is None
}

/// Every file of an archive is planned under the name that is accepted for it, unless a bad file
/// stands at its place or before it.
pub proof fn every_file_is_planned(entries: Seq<(Seq<char>, u32)>, windows: bool, p: int)
    requires
        0 <= p < entries.len(),
        kind_of_mode(entries[p].1) == EntryKind::File,
        forall|q: int| 0 <= q <= p ==> !#[trigger] is_bad_file(entries, windows, q),
    ensures
        files_within(entries, windows).contains((p, sanitized(entries[p].0, windows)->0)),
{
    let upto = entries.take(p + 1);
    assert(!stops_within(upto, windows)) by {
        if stops_within(upto, windows) {
            let q = choose|q: int| 0 <= q < upto.len() && stops_at(#[trigger] upto[q], windows);
            assert(is_bad_file(entries, windows, q));
        }
    }
    let file = (p, sanitized(entries[p].0, windows)->0);
    let files = files_within(upto, windows);
    assert(files[files.len() - 1] == file);
    lemma_files_of_part(entries, windows, p + 1);
    assert(files_within(entries, windows)[files.len() - 1] == file);
}

proof fn lemma_files_of_part(entries: Seq<(Seq<char>, u32)>, windows: bool, count: int)
    requires
        0 <= count <= entries.len(),
    ensures
        files_within(entries.take(count), windows).len() <= files_within(entries, windows).len(),
        forall|i: int|
            0 <= i < files_within(entries.take(count), windows).len() ==> files_within(
                entries,
                windows,
            )[i] == #[trigger] files_within(entries.take(count), windows)[i],
    decreases entries.len() - count,
{
    if count == entries.len() {
        assert(entries.take(count) =~= entries);
    } else {
        let next = entries.take(count + 1);
        assert(next.drop_last() =~= entries.take(count));
        lemma_files_of_part(entries, windows, count + 1);
        assert forall|i: int| 0 <= i < files_within(entries.take(count), windows).len() implies
            files_within(entries, windows)[i] == #[trigger] files_within(
            entries.take(count),
            windows,
        )[i] by {
            assert(files_within(next, windows)[i] == files_within(entries.take(count), windows)[i]);
        }
    }
}

/// No bad file stands at the place of a planned file or before it.
pub proof fn nothing_is_planned_after_a_bad_file(
    entries: Seq<(Seq<char>, u32)>,
    windows: bool,
    i: int,
    q: int,
)
    requires
        0 <= i < files_within(entries, windows).len(),
        0 <= q <= files_within(entries, windows)[i].0,
    ensures
        !is_bad_file(entries, windows, q),
    decreases entries.len(),
{
    if entries.len() > 0 {
        let earlier = entries.drop_last();
        if i < files_within(earlier, windows).len() {
            planned_files_are_files(earlier, windows, i);
            nothing_is_planned_after_a_bad_file(earlier, windows, i, q);
        } else {
            assert(!stops_at(entries[q], windows));
        }
    }
}

/// Files are planned in the order of the archive, each once.
pub proof fn files_are_planned_in_order(
    entries: Seq<(Seq<char>, u32)>,
    windows: bool,
    i: int,
    j: int,
)
    requires
        0 <= i < j < files_within(entries, windows).len(),
    ensures
        files_within(entries, windows)[i].0 < files_within(entries, windows)[j].0,
    decreases entries.len(),
{
    if entries.len() > 0 {
        let earlier = entries.drop_last();
        if j < files_within(earlier, windows).len() {
            files_are_planned_in_order(earlier, windows, i, j);
        } else {
            planned_files_are_files(earlier, windows, i);
        }
    }
}

/// Without a bad file, as many files are planned as the archive has.
pub proof fn as_many_files_as_the_archive_has(entries: Seq<(Seq<char>, u32)>, windows: bool)
    requires
        forall|q: int| 0 <= q < entries.len() ==> !#[trigger] is_bad_file(entries, windows, q),
    ensures
        files_within(entries, windows).len() == entries.filter(
            |entry: (Seq<char>, u32)| kind_of_mode(entry.1) == EntryKind::File,
        ).len(),
        !stops_within(entries, windows),
    decreases entries.len(),
{
    reveal(Seq::filter);
    if entries.len() > 0 {
        let earlier = entries.drop_last();
        assert forall|q: int| 0 <= q < earlier.len() implies !#[trigger] is_bad_file(
            earlier,
            windows,
            q,
        ) by {
            assert(!is_bad_file(entries, windows, q));
        }
        as_many_files_as_the_archive_has(earlier, windows);
        assert(!is_bad_file(entries, windows, entries.len() - 1));
        lemma_stops_one_more(entries, windows);
    }
}

/// An extraction reads the archive of its fork. It succeeds exactly if the archive holds no bad
/// file, and fails for the name otherwise. When it succeeds, every file of the archive has been
/// written under the name that is accepted for it.
pub proof fn extraction_writes_every_file(forks: ForkManager, course: ExtractionCourse, p: int)
    requires
        course.runs(forks),
        0 <= p < course.entries@.len(),
    ensures
        forks.forks@.contains_key(course.begun.fork@),
        course.archive@ == forks.forks@[course.begun.fork@].archive@,
        course.outcome is Ok <==> forall|q: int|
            0 <= q < course.entries@.len() ==> !#[trigger] is_bad_file(
                listing(course.entries@),
                course.begun.windows,
                q,
            ),
        course.outcome matches Ok(action) ==> action is Complete,
        course.outcome matches Err(error) ==> error is InvalidFilename,
        course.outcome is Ok && kind_of_mode(course.entries@[p].mode) == EntryKind::File ==> {
            let name = sanitized(course.entries@[p].name@, course.begun.windows);
            exists|i: int|
                0 <= i < course.files@.len() && (#[trigger] course.files@[i]).index == p && Some(
                    course.files@[i].name@,
                ) == name
        },
{
    let entries = listing(course.entries@);
    let windows = course.begun.windows;
    if stops_within(entries, windows) {
        let q = choose|q: int| 0 <= q < entries.len() && stops_at(#[trigger] entries[q], windows);
        assert(is_bad_file(entries, windows, q));
    } else {
        assert forall|q: int| 0 <= q < entries.len() implies !#[trigger] is_bad_file(
            entries,
            windows,
            q,
        ) by {
            assert(!stops_at(entries[q], windows));
        }
        if kind_of_mode(course.entries@[p].mode) == EntryKind::File {
            every_file_is_planned(entries, windows, p);
            let file = (p, sanitized(entries[p].0, windows)->0);
            let i = choose|i: int|
                0 <= i < files_within(entries, windows).len() && files_within(entries, windows)[i]
                    == file;
            assert(planned_names(course.files@)[i] == file);
            assert(course.files@[i].index == p);
        }
    }
}

/// A directory that is not there needs no removal, and one that cannot be removed ends the
/// extraction before anything is made. A fork that does not exist ends it before an archive is
/// looked for.
pub proof fn extraction_begins_with_a_clear_directory(
    extraction: Extraction,
    forks: ForkManager,
    event: ExtractEvent,
    after: Extraction,
    action: Result<ExtractAction, ForkError>,
)
    requires
        extraction.expects(event),
        extraction.turns(forks, event, after, action),
    ensures
        event matches ExtractEvent::Removal(removal) ==> match removal {
            Removal::Failed => action matches Ok(ExtractAction::GiveUp),
            _ => action matches Ok(ExtractAction::CreateDirectory),
        },
        event is Created && !forks.forks@.contains_key(extraction.fork@) ==> (action matches Err(
            ForkError::InvalidFork,
        )),
        event is Created && forks.forks@.contains_key(extraction.fork@) ==> (action matches Ok(
            ExtractAction::ListArchive(archive),
        ) && archive@ == forks.forks@[extraction.fork@].archive@),
        event is Listed ==> (action matches Ok(ExtractAction::WriteFiles(files))),
        after.fork == extraction.fork,
        after.windows == extraction.windows,
{
}

/// An extraction waits for the answer to what it asked for, whatever the answer is, and for
/// nothing else. Once it is over it waits for nothing.
pub proof fn extraction_awaits_its_answer(
    extraction: Extraction,
    forks: ForkManager,
    event: ExtractEvent,
    after: Extraction,
    action: Result<ExtractAction, ForkError>,
    later: ExtractEvent,
)
    requires
        extraction.expects(event),
        extraction.turns(forks, event, after, action),
    ensures
        extraction.stage is Removing ==> (extraction.expects(later) <==> later is Removal),
        after.expects(later) <==> match action {
            Ok(ExtractAction::CreateDirectory) => later is Created,
            Ok(ExtractAction::ListArchive(_)) => later is Listed,
            Ok(ExtractAction::WriteFiles(_)) => later is Written,
            _ => false,
        },
{
}

/// An extraction serves the fork that it was begun for, on the system that it was begun for: it
/// reads the archive of the fork, and each file it writes has the name that is accepted on the
/// system for its entry.
pub proof fn extraction_serves_its_fork(
    forks: ForkManager,
    id: Seq<char>,
    windows: bool,
    course: ExtractionCourse,
    i: int,
)
    requires
        course.begun.begins(id, windows),
        course.runs(forks),
        0 <= i < course.files@.len(),
    ensures
        forks.forks@.contains_key(id),
        course.archive@ == forks.forks@[id].archive@,
        course.files@[i].index < course.entries@.len(),
        sanitized(course.entries@[course.files@[i].index as int].name@, windows) == Some(
            course.files@[i].name@,
        ),
{
    let entries = listing(course.entries@);
    assert(planned_names(course.files@)[i] == files_within(entries, windows)[i]);
    planned_files_are_files(entries, windows, i);
}

} // verus!
