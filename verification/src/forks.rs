//! The forks: where their servers come from, how they are set up and kept up to date.
use vstd::prelude::*;
use vstd::string::*;

use crate::digest::{ArchiveHasher, archive_matches, sha256};
use crate::errors::ForkError;
use crate::manifest::{
    Manifest, Release, is_latest, latest_build_decides, no_build_is_later_than_the_released,
    other_version_is_released,
};
use crate::table::Table;
use crate::text::same_text;

verus! {

/// How a fork is configured.
pub struct ForkConfig {
    pub token: String,
    pub manifest_url: String,
}

/// A fork: the token that guards it, where its manifest is found, the file in the directory
/// of forks that holds its server, and the version that was current at start.
pub struct Fork {
    pub token: String,
    pub manifest_url: String,
    pub archive: String,
    pub current_version: String,
}

/// The directory, inside the storage directory, that holds the archives.
pub fn forks_directory_name() -> (name: &'static str)
    ensures
        name@ == "forks"@,
{
    "forks"
}

/// The file name of a fork's archive.
pub open spec fn archive_name(id: Seq<char>) -> Seq<char> {
    id + ".zip"@
}

fn archive_file(id: &str) -> (name: String)
    ensures
        name@ == archive_name(id@),
{
    id.to_owned().concat(".zip")
}

impl Fork {
    /// Whether `self` is the fork `id` as `config` describes it.
    pub open spec fn follows(self, id: Seq<char>, config: ForkConfig) -> bool {
        &&& self.token@ == config.token@
        &&& self.manifest_url@ == config.manifest_url@
        &&& self.archive@ == archive_name(id)
    }
}

/// All forks, by id.
pub struct ForkManager {
    pub forks: Table<Fork>,
}

/// How far the set-up of the forks has come.
pub enum SetupStage {
    /// The directory of archives is being made.
    Directory,
    /// The manifest of the current fork is being fetched.
    Manifest,
    /// The archive that is already there, if any, is being read.
    Archive(Release),
    /// The archive is being downloaded.
    Download(Release),
    /// Every fork is set up.
    Complete,
}

/// What happened during the set-up.
pub enum SetupEvent {
    /// The directory of archives exists.
    DirectoryReady,
    /// The manifest of the current fork arrived.
    ManifestFetched(Manifest),
    /// There is no archive that can be opened.
    ArchiveUnreadable,
    /// The archive was read to its end.
    ArchiveRead(ArchiveHasher),
    /// The archive was downloaded.
    Downloaded,
}

/// What to do next during the set-up.
pub enum SetupAction {
    /// Fetch the manifest from this address.
    FetchManifest(String),
    /// Read this file of the directory of archives, if it can be opened.
    ReadArchive(String),
    /// Download an address into a file of the directory of archives.
    Download { url: String, archive: String },
    /// Nothing: the forks are set up.
    Complete,
}

/// The set-up of all forks, one after the other. Whoever runs it starts by making the directory
/// of archives, and then performs one action after the other.
pub struct ForkSetup {
    pub configs: Table<ForkConfig>,
    pub platform: String,
    pub manager: ForkManager,
    pub index: usize,
    pub stage: SetupStage,
}

impl ForkSetup {
    /// The id of the current fork.
    pub open spec fn current_id(self) -> Seq<char> {
        self.configs.rows()[self.index as int].0
    }

    /// The configuration of the current fork.
    pub open spec fn current_config(self) -> ForkConfig {
        self.configs.rows()[self.index as int].1
    }

    /// The forks before the current one are set up as configured, and no others.
    pub open spec fn wf(self) -> bool {
        &&& self.configs.wf()
        &&& match self.stage {
            SetupStage::Directory => self.index == 0,
            SetupStage::Complete => self.index == self.configs.rows().len(),
            _ => self.index < self.configs.rows().len(),
        }
        &&& forall|j: int|
            0 <= j < self.index ==> {
                &&& self.manager.forks@.contains_key((#[trigger] self.configs.rows()[j]).0)
                &&& self.manager.forks@[self.configs.rows()[j].0].follows(
                    self.configs.rows()[j].0,
                    self.configs.rows()[j].1,
                )
            }
        &&& forall|id: Seq<char>| #[trigger]
            self.manager.forks@.contains_key(id) ==> exists|j: int|
                0 <= j < self.index && #[trigger] self.configs.rows()[j].0 == id
    }

    /// Whether `event` is one that can happen now.
    pub open spec fn expects(self, event: SetupEvent) -> bool {
        match self.stage {
            SetupStage::Directory => event is DirectoryReady,
            SetupStage::Manifest => event is ManifestFetched,
            SetupStage::Archive(_) => event is ArchiveUnreadable || event is ArchiveRead,
            SetupStage::Download(_) => event is Downloaded,
            SetupStage::Complete => false,
        }
    }

    /// The set-up stands before the fork at `index`, whose manifest is to be fetched, or at
    /// the end.
    pub open spec fn turns_to_next(self, action: SetupAction) -> bool {
        if self.index < self.configs.rows().len() {
            &&& self.stage is Manifest
            &&& action matches SetupAction::FetchManifest(url)
            &&& url@ == self.current_config().manifest_url@
        } else {
            &&& self.stage is Complete
            &&& action is Complete
        }
    }

    /// The archive of `release` is to be downloaded for the current fork.
    pub open spec fn turns_to_download(
        self,
        before: ForkSetup,
        release: Release,
        action: SetupAction,
    ) -> bool {
        &&& self.index == before.index
        &&& self.manager == before.manager
        &&& self.stage == SetupStage::Download(release)
        &&& action matches SetupAction::Download { url, archive }
        &&& url@ == release.url@
        &&& archive@ == archive_name(before.current_id())
    }

    /// The current fork of `before` is entered with the version of `release`, and the next one
    /// comes.
    pub open spec fn enters(self, before: ForkSetup, release: Release, action: SetupAction) -> bool {
        let id = before.current_id();
        let forks = self.manager.forks@;
        &&& self.index == before.index + 1
        &&& forks == before.manager.forks@.insert(id, forks[id])
        &&& forks[id].follows(id, before.current_config())
        &&& forks[id].current_version@ == release.version@
        &&& self.turns_to_next(action)
    }

    /// Whether `event` turns `self` to `after` and `action` is what to do next.
    pub open spec fn turns(
        self,
        event: SetupEvent,
        after: ForkSetup,
        action: Result<SetupAction, ForkError>,
    ) -> bool {
        &&& after.configs == self.configs
        &&& after.platform == self.platform
        &&& action is Ok ==> after.wf()
        &&& match (self.stage, event) {
            (SetupStage::Manifest, SetupEvent::ManifestFetched(manifest)) => {
                &&& after.index == self.index
                &&& after.manager == self.manager
                &&& match action {
                    Ok(SetupAction::ReadArchive(archive)) => {
                        &&& archive@ == archive_name(self.current_id())
                        &&& after.stage matches SetupStage::Archive(release)
                        &&& manifest.offers(self.platform@, release)
                    },
                    Ok(_) => false,
                    Err(error) => manifest.refuses(self.current_id(), self.platform@, error),
                }
            },
            (SetupStage::Archive(release), SetupEvent::ArchiveRead(archive)) => {
                &&& action is Ok
                &&& if sha256(archive@) == release.sha256@ {
                    after.enters(self, release, action->Ok_0)
                } else {
                    after.turns_to_download(self, release, action->Ok_0)
                }
            },
            (SetupStage::Archive(release), _) => {
                &&& action is Ok
                &&& after.turns_to_download(self, release, action->Ok_0)
            },
            (SetupStage::Download(release), _) => {
                &&& action is Ok
                &&& after.enters(self, release, action->Ok_0)
            },
            (_, _) => {
                &&& action is Ok
                &&& after.index == self.index
                &&& after.manager == self.manager
                &&& after.turns_to_next(action->Ok_0)
            },
        }
    }

    /// Whether `self` sets up the configured forks for `platform` and stands at its beginning.
    pub open spec fn begins(self, configs: Table<ForkConfig>, platform: Seq<char>) -> bool {
        &&& self.wf()
        &&& self.configs == configs
        &&& self.platform@ == platform
        &&& self.stage is Directory
        &&& self.manager.forks@ == Map::<Seq<char>, Fork>::empty()
    }

    /// A set-up that stands at its beginning, with the directory of archives still to be made.
    pub fn new(configs: Table<ForkConfig>, platform: &str) -> (setup: Self)
        ensures
            setup.begins(configs, platform@),
    {
        proof {
            use_type_invariant(&configs);
        }
        ForkSetup {
            configs,
            platform: platform.to_owned(),
            manager: ForkManager { forks: Table::new() },
            index: 0,
            stage: SetupStage::Directory,
        }
    }

    /// Tells whether `event` is one that can happen now.
    pub fn is_expected(&self, event: &SetupEvent) -> (expected: bool)
        ensures
            expected == self.expects(*event),
    {
        match (&self.stage, event) {
            (SetupStage::Directory, SetupEvent::DirectoryReady) => true,
            (SetupStage::Manifest, SetupEvent::ManifestFetched(_)) => true,
            (SetupStage::Archive(_), SetupEvent::ArchiveUnreadable) => true,
            (SetupStage::Archive(_), SetupEvent::ArchiveRead(_)) => true,
            (SetupStage::Download(_), SetupEvent::Downloaded) => true,
            _ => false,
        }
    }

    fn next_action(&mut self) -> (action: SetupAction)
        requires
            old(self).configs.wf(),
            old(self).index <= old(self).configs.rows().len(),
        ensures
            final(self).configs == old(self).configs,
            final(self).platform == old(self).platform,
            final(self).manager == old(self).manager,
            final(self).index == old(self).index,
            final(self).turns_to_next(action),
    {
        if self.index < self.configs.len() {
            self.stage = SetupStage::Manifest;
            SetupAction::FetchManifest(self.configs.value_at(self.index).manifest_url.clone())
        } else {
            self.stage = SetupStage::Complete;
            SetupAction::Complete
        }
    }

    fn enter(&mut self, release: Release) -> (action: SetupAction)
        requires
            old(self).wf(),
            !(old(self).stage is Directory),
            old(self).index < old(self).configs.rows().len(),
        ensures
            final(self).wf(),
            final(self).configs == old(self).configs,
            final(self).platform == old(self).platform,
            final(self).enters(*old(self), release, action),
    {
        let count = self.configs.len();
        assert(self.index < count);
        let id = self.configs.name_at(self.index).clone();
        let config = self.configs.value_at(self.index);
        let fork = Fork {
            token: config.token.clone(),
            manifest_url: config.manifest_url.clone(),
            archive: archive_file(id.as_str()),
            current_version: release.version,
        };
        self.manager.forks.insert(id, fork);
        self.index = self.index + 1;
        self.next_action()
    }

    fn download(&mut self, release: Release) -> (action: SetupAction)
        requires
            old(self).wf(),
            !(old(self).stage is Directory),
            old(self).index < old(self).configs.rows().len(),
        ensures
            final(self).wf(),
            final(self).configs == old(self).configs,
            final(self).platform == old(self).platform,
            final(self).turns_to_download(*old(self), release, action),
    {
        let url = release.url.clone();
        let archive = archive_file(self.configs.name_at(self.index).as_str());
        self.stage = SetupStage::Download(release);
        SetupAction::Download { url, archive }
    }

    /// Takes in what happened and says what to do next. An archive that is already there is
    /// kept if its digest is that of the newest build, and downloaded anew otherwise.
    pub fn step(&mut self, event: SetupEvent) -> (action: Result<SetupAction, ForkError>)
        requires
            old(self).wf(),
            old(self).expects(event),
        ensures
            old(self).turns(event, *final(self), action),
    {
        let mut stage = SetupStage::Manifest;
        std::mem::swap(&mut stage, &mut self.stage);
        match (stage, event) {
            (SetupStage::Manifest, SetupEvent::ManifestFetched(manifest)) => {
                let id = self.configs.name_at(self.index);
                match manifest.release(id.as_str(), self.platform.as_str()) {
                    Ok(release) => {
                        let archive = archive_file(id.as_str());
                        self.stage = SetupStage::Archive(release);
                        Ok(SetupAction::ReadArchive(archive))
                    },
                    Err(error) => Err(error),
                }
            },
            (SetupStage::Archive(release), SetupEvent::ArchiveRead(archive)) => {
                if archive_matches(archive, &release.sha256) {
                    Ok(self.enter(release))
                } else {
                    Ok(self.download(release))
                }
            },
            (SetupStage::Archive(release), _) => Ok(self.download(release)),
            (SetupStage::Download(release), _) => Ok(self.enter(release)),
            (_, _) => Ok(self.next_action()),
        }
    }

    /// Hands out the forks once all are set up.
    pub fn finish(self) -> (manager: ForkManager)
        requires
            self.wf(),
            self.stage is Complete,
        ensures
            manager == self.manager,
            manager.forks@.dom() == self.configs@.dom(),
            forall|id: Seq<char>| #[trigger]
                manager.forks@.contains_key(id) ==> manager.forks@[id].follows(
                    id,
                    self.configs@[id],
                ),
    {
        proof {
            complete_setup_covers_configuration(self);
        }
        self.manager
    }
}

/// A set-up that has come to its end holds exactly the configured forks, each as configured.
pub proof fn complete_setup_covers_configuration(setup: ForkSetup)
    requires
        setup.wf(),
        setup.stage is Complete,
    ensures
        setup.manager.forks@.dom() == setup.configs@.dom(),
        forall|id: Seq<char>| #[trigger]
            setup.manager.forks@.contains_key(id) ==> setup.manager.forks@[id].follows(
                id,
                setup.configs@[id],
            ),
{
    let rows = setup.configs.rows();
    let forks = setup.manager.forks@;
    assert forall|id: Seq<char>| forks.contains_key(id) == setup.configs@.contains_key(id) by {
        if setup.configs@.contains_key(id) {
            let j = crate::table::entry_index(rows, id);
            assert(forks.contains_key(rows[j].0));
        }
        if forks.contains_key(id) {
            let j = choose|j: int| 0 <= j < setup.index && #[trigger] rows[j].0 == id;
            assert(rows[j].0 == id);
        }
    }
    assert(forks.dom() =~= setup.configs@.dom());
    assert forall|id: Seq<char>| #[trigger] forks.contains_key(id) implies forks[id].follows(
        id,
        setup.configs@[id],
    ) by {
        let j = choose|j: int| 0 <= j < setup.index && #[trigger] rows[j].0 == id;
        crate::table::lemma_row_is_entry(rows, j);
    }
}

/// How far the check for an update has come.
#[derive(Clone, Copy, Debug, PartialEq, Eq, Structural)]
pub enum UpdateStage {
    /// The manifest is being fetched.
    Manifest,
    /// The archive is being downloaded.
    Download,
    /// The check is over.
    Complete,
}

/// What happened during the check.
pub enum UpdateEvent {
    /// The manifest arrived.
    ManifestFetched(Manifest),
    /// The archive was downloaded.
    Downloaded,
}

/// What to do next during the check.
pub enum UpdateAction {
    /// Download an address into a file of the directory of archives, while nobody reads it.
    Download { url: String, archive: String },
    /// Tell the instances of the fork that it was updated. Nothing is left to do then.
    Notify,
    /// Nothing: the fork is up to date.
    UpToDate,
}

/// A check whether a fork has a newer build than the one that was current at start.
pub struct UpdateCheck {
    pub id: String,
    pub manifest_url: String,
    pub archive: String,
    pub current_version: String,
    pub stage: UpdateStage,
}

impl ForkManager {
    /// Begins to check the fork `id` for an update. Its manifest is to be fetched first.
    pub fn check_update(&self, id: &str) -> (check: Result<UpdateCheck, ForkError>)
        ensures
            match check {
                Ok(begun) => begun.begins(*self, id@),
                Err(error) => error is InvalidFork && !self.forks@.contains_key(id@),
            },
    {
        match self.forks.get(id) {
            None => Err(ForkError::InvalidFork),
            Some(fork) => Ok(
                UpdateCheck {
                    id: id.to_owned(),
                    manifest_url: fork.manifest_url.clone(),
                    archive: fork.archive.clone(),
                    current_version: fork.current_version.clone(),
                    stage: UpdateStage::Manifest,
                },
            ),
        }
    }
}

impl UpdateCheck {
    /// Whether `self` is a check of the fork `id` at its beginning.
    pub open spec fn begins(self, manager: ForkManager, id: Seq<char>) -> bool {
        &&& manager.forks@.contains_key(id)
        &&& self.id@ == id
        &&& self.manifest_url@ == manager.forks@[id].manifest_url@
        &&& self.archive@ == manager.forks@[id].archive@
        &&& self.current_version@ == manager.forks@[id].current_version@
        &&& self.stage is Manifest
    }

    /// Whether `event` is one that can happen now.
    pub open spec fn expects(self, event: UpdateEvent) -> bool {
        match self.stage {
            UpdateStage::Manifest => event is ManifestFetched,
            UpdateStage::Download => event is Downloaded,
            UpdateStage::Complete => false,
        }
    }

    /// Tells whether `event` is one that can happen now.
    pub fn is_expected(&self, event: &UpdateEvent) -> (expected: bool)
        ensures
            expected == self.expects(*event),
    {
        match (self.stage, event) {
            (UpdateStage::Manifest, UpdateEvent::ManifestFetched(_)) => true,
            (UpdateStage::Download, UpdateEvent::Downloaded) => true,
            _ => false,
        }
    }

    /// Whether `event` turns `self` to `after` and `action` is what to do next.
    pub open spec fn turns(
        self,
        platform: Seq<char>,
        event: UpdateEvent,
        after: UpdateCheck,
        action: Result<UpdateAction, ForkError>,
    ) -> bool {
        &&& after.id == self.id
        &&& after.manifest_url == self.manifest_url
        &&& after.archive == self.archive
        &&& after.current_version == self.current_version
        &&& match event {
            UpdateEvent::ManifestFetched(manifest) => match action {
                Ok(UpdateAction::Download { url, archive }) => {
                    &&& manifest.offers_other_than(self.current_version@, platform, url@)
                    &&& archive@ == self.archive@
                    &&& after.stage is Download
                },
                Ok(UpdateAction::UpToDate) => {
                    &&& manifest.offers_version(self.current_version@, platform)
                    &&& after.stage is Complete
                },
                Ok(UpdateAction::Notify) => false,
                Err(error) => {
                    &&& manifest.refuses(self.id@, platform, error)
                    &&& after.stage is Manifest
                },
            },
            UpdateEvent::Downloaded => {
                &&& action matches Ok(UpdateAction::Notify)
                &&& after.stage is Complete
            },
        }
    }

    /// Takes in what happened and says what to do next. The newest build is downloaded unless
    /// its version is the current one; only then are the instances told.
    pub fn step(&mut self, platform: &str, event: UpdateEvent) -> (action: Result<
        UpdateAction,
        ForkError,
    >)
        requires
            old(self).expects(event),
        ensures
            old(self).turns(platform@, event, *final(self), action),
    {
        match event {
            UpdateEvent::ManifestFetched(manifest) => {
                match manifest.release(self.id.as_str(), platform) {
                    Err(error) => Err(error),
                    Ok(release) => {
                        if same_text(release.version.as_str(), self.current_version.as_str()) {
                            self.stage = UpdateStage::Complete;
                            Ok(UpdateAction::UpToDate)
                        } else {
                            self.stage = UpdateStage::Download;
                            Ok(
                                UpdateAction::Download {
                                    url: release.url,
                                    archive: self.archive.clone(),
                                },
                            )
                        }
                    },
                }
            },
            UpdateEvent::Downloaded => {
                self.stage = UpdateStage::Complete;
                Ok(UpdateAction::Notify)
            },
        }
    }
}

/// The archive of a fork is named after it, and forks do not share archives.
pub proof fn archive_names_are_distinct(one: Seq<char>, other: Seq<char>)
    ensures
        archive_name(one) == one + seq!['.', 'z', 'i', 'p'],
        archive_name(one) == archive_name(other) ==> one == other,
{
    reveal_strlit(".zip");
    assert(archive_name(one) =~= one + seq!['.', 'z', 'i', 'p']);
    if archive_name(one) == archive_name(other) {
        assert(archive_name(one).subrange(0, archive_name(one).len() - 4) =~= one);
        assert(archive_name(other).subrange(0, archive_name(other).len() - 4) =~= other);
    }
}

/// A check for an update goes by the latest build of the manifest: it downloads the server that the
/// build has for the platform itself, into the archive of the fork, exactly if the version of the
/// build is not the current one. Nothing is told before the download, and after it the instances
/// are.
pub proof fn update_follows_latest_build(
    check: UpdateCheck,
    platform: Seq<char>,
    manifest: Manifest,
    after: UpdateCheck,
    action: Result<UpdateAction, ForkError>,
    i: int,
)
    requires
        is_latest(manifest, i),
        check.turns(platform, UpdateEvent::ManifestFetched(manifest), after, action),
    ensures
        ({
            let (version, build) = manifest.builds.rows()[i];
            if !build.server@.contains_key(platform) {
                action matches Err(ForkError::NoPlatform(fork)) && fork@ == check.id@
            } else if version == check.current_version@ {
                action matches Ok(UpdateAction::UpToDate)
            } else {
                &&& action matches Ok(UpdateAction::Download { url, archive })
                &&& url@ == build.server@[platform].url@
                &&& archive@ == check.archive@
                &&& after.expects(UpdateEvent::Downloaded)
                &&& after.archive == check.archive
            }
        }),
{
    let (release, url, error) = match action {
        Ok(UpdateAction::Download { url, archive }) => (
            other_version_is_released(manifest, platform, check.current_version@, url@),
            url@,
            ForkError::InvalidFork,
        ),
        Ok(_) => (arbitrary(), platform, ForkError::InvalidFork),
        Err(error) => (arbitrary(), platform, error),
    };
    latest_build_decides(
        manifest,
        i,
        platform,
        release,
        check.current_version@,
        url,
        check.id@,
        error,
    );
}

/// A check for an update of a fork whose manifest lists no build fails for it.
pub proof fn update_without_builds_fails(
    check: UpdateCheck,
    platform: Seq<char>,
    manifest: Manifest,
    after: UpdateCheck,
    action: Result<UpdateAction, ForkError>,
)
    requires
        manifest.builds.rows().len() == 0,
        check.turns(platform, UpdateEvent::ManifestFetched(manifest), after, action),
    ensures
        action matches Err(ForkError::NoVersions(fork)) && fork@ == check.id@,
{
}

/// The instances are told of an update exactly when the archive has been downloaded, and the check
/// is over then.
pub proof fn update_is_told_after_download(
    check: UpdateCheck,
    platform: Seq<char>,
    event: UpdateEvent,
    after: UpdateCheck,
    action: Result<UpdateAction, ForkError>,
    later: UpdateEvent,
)
    requires
        check.expects(event),
        check.turns(platform, event, after, action),
    ensures
        check.stage is Manifest ==> (check.expects(later) <==> later is ManifestFetched),
        event is Downloaded <==> (action matches Ok(UpdateAction::Notify)),
        action matches Ok(UpdateAction::Download { url, archive }) ==> (after.expects(later)
            <==> later is Downloaded),
        action matches Ok(UpdateAction::Notify) ==> !after.expects(later),
        action matches Ok(UpdateAction::UpToDate) ==> !after.expects(later),
{
}

/// The address that an update downloads is the one that a set-up would download from the same
/// manifest.
pub proof fn update_downloads_what_a_set_up_would(
    check: UpdateCheck,
    checked: UpdateCheck,
    platform: Seq<char>,
    manifest: Manifest,
    url: String,
    archive: String,
    setup: ForkSetup,
    chosen: ForkSetup,
    asked: SetupAction,
    release: Release,
)
    requires
        check.turns(
            platform,
            UpdateEvent::ManifestFetched(manifest),
            checked,
            Ok(UpdateAction::Download { url, archive }),
        ),
        setup.platform@ == platform,
        setup.stage is Manifest,
        setup.turns(SetupEvent::ManifestFetched(manifest), chosen, Ok(asked)),
        chosen.stage == SetupStage::Archive(release),
    ensures
        manifest.offers(platform, release),
        url@ == release.url@,
        release.version@ != check.current_version@,
{
    let other = other_version_is_released(manifest, platform, check.current_version@, url@);
    let i = no_build_is_later_than_the_released(manifest, platform, release);
    latest_build_decides(
        manifest,
        i,
        platform,
        other,
        platform,
        platform,
        platform,
        ForkError::InvalidFork,
    );
}

/// A set-up goes by the latest build of the manifest: it chooses the server that the build has for
/// the platform, and fails, naming the fork, where there is none or no build at all.
pub proof fn set_up_follows_latest_build(
    setup: ForkSetup,
    manifest: Manifest,
    after: ForkSetup,
    action: Result<SetupAction, ForkError>,
    i: int,
)
    requires
        setup.stage is Manifest,
        setup.turns(SetupEvent::ManifestFetched(manifest), after, action),
        is_latest(manifest, i) || manifest.builds.rows().len() == 0,
    ensures
        if manifest.builds.rows().len() == 0 {
            action matches Err(ForkError::NoVersions(fork)) && fork@ == setup.current_id()
        } else {
            let (version, build) = manifest.builds.rows()[i];
            if !build.server@.contains_key(setup.platform@) {
                action matches Err(ForkError::NoPlatform(fork)) && fork@ == setup.current_id()
            } else {
                &&& action is Ok
                &&& after.stage matches SetupStage::Archive(release)
                &&& release.version@ == version
                &&& release.url@ == build.server@[setup.platform@].url@
                &&& release.sha256@ == build.server@[setup.platform@].sha256@
            }
        },
{
    if manifest.builds.rows().len() > 0 {
        let release = match after.stage {
            SetupStage::Archive(release) => release,
            _ => arbitrary(),
        };
        let error = match action {
            Err(error) => error,
            Ok(_) => ForkError::InvalidFork,
        };
        latest_build_decides(
            manifest,
            i,
            setup.platform@,
            release,
            setup.platform@,
            setup.platform@,
            setup.current_id(),
            error,
        );
    }
}

/// A check for an update serves the fork that it was begun for: the manifest is fetched from the
/// address of the fork, and a build that is not its current version replaces its archive.
pub proof fn update_serves_its_fork(
    manager: ForkManager,
    id: Seq<char>,
    check: UpdateCheck,
    platform: Seq<char>,
    manifest: Manifest,
    after: UpdateCheck,
    action: Result<UpdateAction, ForkError>,
    i: int,
)
    requires
        check.begins(manager, id),
        is_latest(manifest, i),
        manifest.builds.rows()[i].1.server@.contains_key(platform),
        check.turns(platform, UpdateEvent::ManifestFetched(manifest), after, action),
    ensures
        manager.forks@.contains_key(id),
        check.manifest_url@ == manager.forks@[id].manifest_url@,
        check.expects(UpdateEvent::ManifestFetched(manifest)),
        if manifest.builds.rows()[i].0 == manager.forks@[id].current_version@ {
            action matches Ok(UpdateAction::UpToDate)
        } else {
            action matches Ok(UpdateAction::Download { url, archive }) && archive@
                == manager.forks@[id].archive@ && url@
                == manifest.builds.rows()[i].1.server@[platform].url@
        },
{
    update_follows_latest_build(check, platform, manifest, after, action, i);
}

} // verus!
