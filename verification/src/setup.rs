//! What holds of a set-up of the forks as a whole.
use vstd::prelude::*;

use crate::digest::sha256;
use crate::errors::ForkError;
use crate::forks::{
    Fork, ForkConfig, ForkSetup, SetupAction, SetupEvent, SetupStage, UpdateAction, UpdateCheck, UpdateEvent,
    archive_names_are_distinct, complete_setup_covers_configuration,
};
use crate::manifest::{
    Manifest, Release, empty_manifest_is_refused, is_latest, latest_build_decides, latest_exists,
    newest_stands_alone, offer_alike, same_builds, same_builds_offer_alike,
};
use crate::table::{Table, distinct_names, entry_index, lemma_row_is_entry};

verus! {

/// A set-up from its beginning: its states, and what happened in each and was to be done next.
pub struct SetupCourse {
    pub states: Seq<ForkSetup>,
    pub events: Seq<SetupEvent>,
    pub actions: Seq<SetupAction>,
}

impl SetupCourse {
    /// Whether the set-up can go on like this from its state `k`.
    pub open spec fn goes_on(self, k: int) -> bool {
        &&& self.states[k].expects(self.events[k])
        &&& self.states[k].turns(self.events[k], self.states[k + 1], Ok(self.actions[k]))
    }

    /// Whether the set-up can go like this.
    pub open spec fn runs(self) -> bool {
        &&& self.states.len() == self.events.len() + 1
        &&& self.actions.len() == self.events.len()
        &&& self.states[0].wf()
        &&& self.states[0].stage is Directory
        &&& self.states[0].manager.forks@ == Map::<Seq<char>, Fork>::empty()
        &&& forall|k: int| 0 <= k < self.events.len() ==> #[trigger] self.goes_on(k)
    }

    /// Whether it came to its end.
    pub open spec fn is_complete(self) -> bool {
        self.runs() && self.states.last().stage is Complete
    }

    /// The forks as the set-up leaves them.
    pub open spec fn forks(self) -> Map<Seq<char>, Fork> {
        self.states.last().manager.forks@
    }

    /// The platform that it is for.
    pub open spec fn platform(self) -> Seq<char> {
        self.states[0].platform@
    }

    /// Whether event `k` is that `manifest` arrived for the fork `id`.
    pub open spec fn fetches(self, k: int, id: Seq<char>, manifest: Manifest) -> bool {
        &&& 0 <= k < self.events.len()
        &&& self.events[k] == SetupEvent::ManifestFetched(manifest)
        &&& self.states[k].current_id() == id
    }

    /// Whether event `k` is that the archive of the fork `id` was read and has the digest of
    /// `release`, so that it is kept.
    pub open spec fn keeps(self, k: int, id: Seq<char>, release: Release, archive: Seq<u8>) -> bool {
        &&& 0 <= k < self.events.len()
        &&& self.states[k].stage == SetupStage::Archive(release)
        &&& self.states[k].current_id() == id
        &&& self.events[k] matches SetupEvent::ArchiveRead(hasher)
        &&& hasher@ == archive
        &&& sha256(archive) == release.sha256@
    }

    /// Whether event `k` is that the server of `release` was downloaded for the fork `id`.
    pub open spec fn downloads(self, k: int, id: Seq<char>, release: Release) -> bool {
        &&& 0 <= k < self.events.len()
        &&& self.states[k].stage == SetupStage::Download(release)
        &&& self.states[k].current_id() == id
        &&& self.events[k] is Downloaded
    }

    /// Whether `archives` holds, by fork, archives as the set-up leaves them: what was kept or
    /// downloaded for a release has the digest of the release.
    pub open spec fn leaves(self, archives: Map<Seq<char>, Seq<u8>>) -> bool {
        &&& forall|k: int, id: Seq<char>, release: Release, archive: Seq<u8>| #[trigger]
            self.keeps(k, id, release, archive) ==> sha256(archives[id]) == release.sha256@
        &&& forall|k: int, id: Seq<char>, release: Release| #[trigger]
            self.downloads(k, id, release) ==> sha256(archives[id]) == release.sha256@
    }

    /// Whether the set-up finds the archives `archives`, by fork: it can read each of them.
    pub open spec fn finds(self, archives: Map<Seq<char>, Seq<u8>>) -> bool {
        forall|k: int|
            0 <= k < self.events.len() ==> match #[trigger] self.events[k] {
                SetupEvent::ArchiveRead(hasher) => hasher@
                    == archives[self.states[k].current_id()],
                SetupEvent::ArchiveUnreadable => false,
                _ => true,
            }
    }

    /// The release that the set-up has chosen in state `n` for the current fork, if any.
    spec fn chosen(self, n: int) -> Option<Release> {
        match self.states[n].stage {
            SetupStage::Archive(release) => Some(release),
            SetupStage::Download(release) => Some(release),
            _ => None,
        }
    }

    /// Whether what arrived in event `k` has had its effect in state `n`.
    spec fn heeded(self, k: int, n: int) -> bool {
        self.events[k] matches SetupEvent::ManifestFetched(manifest) ==> {
            let id = self.states[k].current_id();
            let forks = self.states[n].manager.forks@;
            if self.states[k].index < self.states[n].index {
                forks.contains_key(id) && manifest.offers_version(
                    forks[id].current_version@,
                    self.platform(),
                )
            } else {
                &&& self.states[k].index == self.states[n].index
                &&& self.chosen(n) matches Some(release)
                &&& manifest.offers(self.platform(), release)
            }
        }
    }

    /// Whether event `k` is the arrival of a manifest for row `j`.
    spec fn fetches_row(self, k: int, j: int) -> bool {
        self.events[k] is ManifestFetched && self.states[k].index == j
    }

    /// Whether event `l` settles row `j`: its archive is kept or was downloaded.
    spec fn settles_row(self, l: int, j: int) -> bool {
        &&& self.states[l].index == j
        &&& self.chosen(l) matches Some(release)
        &&& {
            ||| self.downloads(l, self.states[l].current_id(), release)
            ||| exists|archive: Seq<u8>| #[trigger]
                self.keeps(l, self.states[l].current_id(), release, archive)
        }
    }

    /// Whether row `j` is settled by one of the first `n` events.
    spec fn is_settled(self, j: int, n: int) -> bool {
        exists|l: int| 0 <= l < n && #[trigger] self.settles_row(l, j)
    }

    /// What holds of the set-up in state `n`.
    spec fn holds_at(self, n: int) -> bool {
        &&& self.states[n].wf()
        &&& self.states[n].configs == self.states[0].configs
        &&& self.states[n].platform == self.states[0].platform
        &&& forall|k: int| 0 <= k < n ==> #[trigger] self.heeded(k, n)
        &&& forall|j: int| 0 <= j < self.states[n].index ==> #[trigger] self.is_settled(j, n)
        &&& self.chosen(n) is Some ==> exists|k: int|
            0 <= k < n && #[trigger] self.fetches_row(k, self.states[n].index as int)
    }

    proof fn lemma_holds(self, n: int)
        requires
            self.runs(),
            0 <= n < self.states.len(),
        ensures
            self.holds_at(n),
        decreases n, 0int,
    {
        if n > 0 {
            self.lemma_holds(n - 1);
            self.lemma_still_holds(n - 1);
        }
    }

    proof fn lemma_still_holds(self, n: int)
        requires
            self.runs(),
            0 <= n < self.events.len(),
            self.holds_at(n),
        ensures
            self.holds_at(n + 1),
        decreases n, 2int,
    {
        let before = self.states[n];
        let after = self.states[n + 1];
        let rows = before.configs.rows();
        assert(self.goes_on(n));
        assert forall|k: int| 0 <= k < n + 1 implies #[trigger] self.heeded(k, n + 1) by {
            if k < n {
                assert(self.heeded(k, n));
                if self.events[k] is ManifestFetched {
                    self.lemma_fetch_is_in_row(k);
                }
            }
        }
        assert forall|j: int| 0 <= j < after.index implies #[trigger] self.is_settled(j, n + 1) by {
            if j < before.index {
                assert(self.is_settled(j, n));
                let l = choose|l: int| 0 <= l < n && #[trigger] self.settles_row(l, j);
                assert(self.settles_row(l, j));
            } else {
                let id = before.current_id();
                match (before.stage, self.events[n]) {
                    (SetupStage::Archive(release), SetupEvent::ArchiveRead(hasher)) => {
                        assert(self.keeps(n, id, release, hasher@));
                    },
                    (SetupStage::Download(release), _) => {
                        assert(self.downloads(n, id, release));
                    },
                    _ => {},
                }
                assert(self.settles_row(n, j));
            }
        }
        if self.chosen(n + 1) is Some {
            if self.chosen(n) is Some {
                let k = choose|k: int|
                    0 <= k < n && #[trigger] self.fetches_row(k, before.index as int);
                assert(self.fetches_row(k, after.index as int));
            } else {
                assert(self.fetches_row(n, after.index as int));
            }
        }
    }

    proof fn lemma_fetch_is_in_row(self, k: int)
        requires
            self.runs(),
            0 <= k < self.events.len(),
            self.events[k] is ManifestFetched,
        ensures
            self.states[k].stage is Manifest,
            self.states[k].configs == self.states[0].configs,
            self.states[k].index < self.states[0].configs.rows().len(),
            self.states[k].current_id() == self.states[0].configs.rows()[self.states[k].index as int].0,
            distinct_names(self.states[0].configs.rows()),
        decreases k, 1int,
    {
        assert(self.goes_on(k));
        self.lemma_holds(k);
    }
}

impl SetupCourse {
    /// What is chosen for a fork is what the manifest that arrived for it offers.
    proof fn lemma_choice(self, n: int) -> (fetched: (int, Manifest))
        requires
            self.runs(),
            0 <= n < self.states.len(),
            self.chosen(n) is Some,
        ensures
            self.fetches(fetched.0, self.states[n].current_id(), fetched.1),
            fetched.1.offers(self.platform(), self.chosen(n)->0),
    {
        self.lemma_holds(n);
        let k = choose|k: int|
            0 <= k < n && #[trigger] self.fetches_row(k, self.states[n].index as int);
        assert(self.heeded(k, n));
        self.lemma_fetch_is_in_row(k);
        (k, self.events[k]->ManifestFetched_0)
    }

    /// Each configured fork is settled in a set-up that came to its end.
    proof fn lemma_settled(self, id: Seq<char>) -> (l: int)
        requires
            self.is_complete(),
            self.states[0].configs@.contains_key(id),
        ensures
            0 <= l < self.events.len(),
            self.states[l].current_id() == id,
            self.settles_row(l, self.states[l].index as int),
    {
        let last = self.events.len() as int;
        self.lemma_holds(last);
        let j = entry_index(self.states[0].configs.rows(), id);
        assert(self.is_settled(j, last));
        let l = choose|l: int| 0 <= l < last && #[trigger] self.settles_row(l, j);
        self.lemma_holds(l);
        l
    }
}

/// When the set-up is complete, a manifest arrived for each fork, and the version of the fork is
/// that of the newest build in the manifest that arrived for it.
pub proof fn set_up_versions_are_newest(course: SetupCourse)
    requires
        course.is_complete(),
    ensures
        forall|id: Seq<char>| #[trigger]
            course.forks().contains_key(id) ==> exists|k: int, manifest: Manifest|
                course.fetches(k, id, manifest),
        forall|k: int, id: Seq<char>, manifest: Manifest| #[trigger]
            course.fetches(k, id, manifest) ==> course.forks().contains_key(id)
                && manifest.offers_version(course.forks()[id].current_version@, course.platform()),
{
    let last = course.events.len() as int;
    course.lemma_holds(last);
    assert forall|id: Seq<char>| #[trigger] course.forks().contains_key(id) implies exists|
        k: int,
        manifest: Manifest,
    | course.fetches(k, id, manifest) by {
        complete_setup_covers_configuration(course.states.last());
        let l = course.lemma_settled(id);
        let (k, manifest) = course.lemma_choice(l);
        assert(course.fetches(k, id, manifest));
    }
    assert forall|k: int, id: Seq<char>, manifest: Manifest| #[trigger]
        course.fetches(k, id, manifest) implies course.forks().contains_key(id)
        && manifest.offers_version(course.forks()[id].current_version@, course.platform()) by {
        assert(course.heeded(k, last));
        course.lemma_fetch_is_in_row(k);
    }
}

/// A check for an update that is given the manifest a fork was set up with finds the fork up to
/// date.
pub proof fn set_up_fork_is_up_to_date(
    course: SetupCourse,
    k: int,
    id: Seq<char>,
    manifest: Manifest,
    check: UpdateCheck,
    after: UpdateCheck,
    action: Result<UpdateAction, ForkError>,
)
    requires
        course.is_complete(),
        course.fetches(k, id, manifest),
        check.current_version@ == course.forks()[id].current_version@,
        check.turns(course.platform(), UpdateEvent::ManifestFetched(manifest), after, action),
    ensures
        action matches Ok(UpdateAction::UpToDate),
{
    set_up_versions_are_newest(course);
}

/// A set-up downloads nothing where each archive that it finds has the digest of what the manifest
/// that arrives for its fork offers.
pub proof fn matching_archives_are_not_downloaded(
    course: SetupCourse,
    archives: Map<Seq<char>, Seq<u8>>,
)
    requires
        course.runs(),
        course.finds(archives),
        forall|k: int, id: Seq<char>, manifest: Manifest, release: Release|
            #[trigger] course.fetches(k, id, manifest) && #[trigger] manifest.offers(
                course.platform(),
                release,
            ) ==> sha256(archives[id]) == release.sha256@,
    ensures
        forall|k: int|
            0 <= k < course.actions.len() ==> !(#[trigger] course.actions[k] is Download),
{
    assert forall|k: int| 0 <= k < course.actions.len() implies !(
    #[trigger] course.actions[k] is Download) by {
        assert(course.goes_on(k));
        if course.actions[k] is Download {
            let (_, manifest) = course.lemma_choice(k);
            assert(manifest.offers(course.platform(), course.chosen(k)->0));
            assert(course.events[k] is ArchiveRead);
        }
    }
}

/// Whether the manifests that arrive in two set-ups for the same fork offer the same.
pub open spec fn fetch_alike(first: SetupCourse, second: SetupCourse) -> bool {
    forall|k: int, l: int, id: Seq<char>, one: Manifest, other: Manifest|
        #[trigger] first.fetches(k, id, one) && #[trigger] second.fetches(l, id, other)
            ==> offer_alike(one, other, first.platform())
}

/// A set-up that follows another downloads nothing, where the archives are as the first left them
/// and the manifests offer what they offered then.
pub proof fn second_set_up_downloads_nothing(
    first: SetupCourse,
    second: SetupCourse,
    archives: Map<Seq<char>, Seq<u8>>,
)
    requires
        first.is_complete(),
        second.runs(),
        second.states[0].configs@.dom() == first.states[0].configs@.dom(),
        second.platform() == first.platform(),
        fetch_alike(first, second),
        first.leaves(archives),
        second.finds(archives),
    ensures
        forall|k: int|
            0 <= k < second.actions.len() ==> !(#[trigger] second.actions[k] is Download),
{
    assert forall|k: int, id: Seq<char>, other: Manifest, release: Release|
        #[trigger] second.fetches(k, id, other) && #[trigger] other.offers(
            second.platform(),
            release,
        ) implies sha256(archives[id]) == release.sha256@ by {
        second.lemma_fetch_is_in_row(k);
        lemma_row_is_entry(second.states[0].configs.rows(), second.states[k].index as int);
        assert(second.states[0].configs@.dom().contains(id));
        let l = first.lemma_settled(id);
        let (_, one) = first.lemma_choice(l);
        assert(one.offers(first.platform(), first.chosen(l)->0));
    }
    matching_archives_are_not_downloaded(second, archives);
}

/// Whether two tables configure the same forks alike.
pub open spec fn configured_alike(
    one: Map<Seq<char>, ForkConfig>,
    other: Map<Seq<char>, ForkConfig>,
) -> bool {
    &&& one.dom() == other.dom()
    &&& forall|id: Seq<char>| #[trigger]
        one.contains_key(id) ==> one[id].token@ == other[id].token@ && one[id].manifest_url@
            == other[id].manifest_url@
}

/// Two set-ups of the same configuration end with the same forks, where the manifests offer the
/// same: the same ids, and for each the same token, address, archive and version. In which order
/// the forks are set up does not matter.
pub proof fn set_ups_agree(first: SetupCourse, second: SetupCourse)
    requires
        first.is_complete(),
        second.is_complete(),
        configured_alike(first.states[0].configs@, second.states[0].configs@),
        second.platform() == first.platform(),
        fetch_alike(first, second),
    ensures
        second.forks().dom() == first.forks().dom(),
        forall|id: Seq<char>| #[trigger]
            first.forks().contains_key(id) ==> {
                &&& second.forks()[id].token@ == first.forks()[id].token@
                &&& second.forks()[id].manifest_url@ == first.forks()[id].manifest_url@
                &&& second.forks()[id].archive@ == first.forks()[id].archive@
                &&& second.forks()[id].current_version@ == first.forks()[id].current_version@
            },
{
    first.lemma_holds(first.events.len() as int);
    second.lemma_holds(second.events.len() as int);
    complete_setup_covers_configuration(first.states.last());
    complete_setup_covers_configuration(second.states.last());
    set_up_versions_are_newest(first);
    set_up_versions_are_newest(second);
    assert forall|id: Seq<char>| #[trigger] first.forks().contains_key(id) implies {
        &&& second.forks()[id].token@ == first.forks()[id].token@
        &&& second.forks()[id].manifest_url@ == first.forks()[id].manifest_url@
        &&& second.forks()[id].archive@ == first.forks()[id].archive@
        &&& second.forks()[id].current_version@ == first.forks()[id].current_version@
    } by {
        assert(second.forks().dom().contains(id));
        assert(first.states[0].configs@.contains_key(id));
        let l = first.lemma_settled(id);
        let (_, one) = first.lemma_choice(l);
        let (k, other) = choose|k: int, other: Manifest| second.fetches(k, id, other);
        assert(second.fetches(k, id, other));
        assert(one.offers(first.platform(), first.chosen(l)->0));
    }
}

/// Two set-ups of the same configuration end with the same forks, where the manifests list the same
/// builds, in whatever order, and in none was another build made at the same moment as the newest.
pub proof fn same_builds_give_same_forks(first: SetupCourse, second: SetupCourse)
    requires
        first.is_complete(),
        second.is_complete(),
        configured_alike(first.states[0].configs@, second.states[0].configs@),
        second.platform() == first.platform(),
        forall|k: int, l: int, id: Seq<char>, one: Manifest, other: Manifest|
            #[trigger] first.fetches(k, id, one) && #[trigger] second.fetches(l, id, other)
                ==> same_builds(one, other) && newest_stands_alone(one),
    ensures
        second.forks().dom() == first.forks().dom(),
        forall|id: Seq<char>| #[trigger]
            first.forks().contains_key(id) ==> {
                &&& second.forks()[id].token@ == first.forks()[id].token@
                &&& second.forks()[id].manifest_url@ == first.forks()[id].manifest_url@
                &&& second.forks()[id].archive@ == first.forks()[id].archive@
                &&& second.forks()[id].current_version@ == first.forks()[id].current_version@
            },
{
    assert forall|k: int, l: int, id: Seq<char>, one: Manifest, other: Manifest|
        #[trigger] first.fetches(k, id, one) && #[trigger] second.fetches(l, id, other)
        implies offer_alike(one, other, first.platform()) by {
        same_builds_offer_alike(one, other, first.platform());
    }
    set_ups_agree(first, second);
}

impl SetupCourse {
    proof fn lemma_current_row(self, k: int)
        requires
            self.runs(),
            0 <= k < self.states.len(),
            self.states[k].index < self.states[k].configs.rows().len(),
        ensures
            self.states[0].configs@.contains_key(self.states[k].current_id()),
            self.states[k].current_config() == self.states[0].configs@[self.states[k].current_id()],
            self.states[k].platform == self.states[0].platform,
    {
        self.lemma_holds(k);
        lemma_row_is_entry(self.states[0].configs.rows(), self.states[k].index as int);
    }
}

/// An archive is downloaded exactly if it cannot be read or has another digest than the release
/// that the manifest of its fork offers. It is downloaded from the address of that release, into the
/// file that is named after the fork; the file that is read before has the same name.
pub proof fn set_up_downloads_what_is_missing(course: SetupCourse, k: int) -> (fetched: (
    int,
    Manifest,
    Release,
))
    requires
        course.runs(),
        0 <= k < course.events.len(),
        course.events[k] is ArchiveRead || course.events[k] is ArchiveUnreadable,
    ensures
        course.states[0].configs@.contains_key(course.states[k].current_id()),
        fetched.0 < k,
        course.fetches(fetched.0, course.states[k].current_id(), fetched.1),
        fetched.1.offers(course.platform(), fetched.2),
        course.actions[k] is Download <==> match course.events[k] {
            SetupEvent::ArchiveRead(hasher) => sha256(hasher@) != fetched.2.sha256@,
            _ => true,
        },
        course.actions[k] matches SetupAction::Download { url, archive } ==> url@
            == fetched.2.url@,
        course.actions[k] matches SetupAction::Download { url, archive } ==> archive@
            == course.states[k].current_id() + seq!['.', 'z', 'i', 'p'],
{
    assert(course.goes_on(k));
    course.lemma_holds(k);
    course.lemma_current_row(k);
    let release = course.chosen(k)->0;
    let n = choose|n: int|
        0 <= n < k && #[trigger] course.fetches_row(n, course.states[k].index as int);
    assert(course.heeded(n, k));
    course.lemma_fetch_is_in_row(n);
    let manifest = course.events[n]->ManifestFetched_0;
    assert(course.fetches(n, course.states[k].current_id(), manifest));
    archive_names_are_distinct(course.states[k].current_id(), course.states[k].current_id());
    (n, manifest, release)
}

/// Each fork is asked for at the address that is configured for it, its archive is looked for under
/// its own name, and no fork is fetched twice.
pub proof fn set_up_asks_as_configured(course: SetupCourse, k: int)
    requires
        course.runs(),
        0 <= k < course.events.len(),
    ensures
        course.actions[k] matches SetupAction::FetchManifest(url) ==> {
            let id = course.states[k + 1].current_id();
            course.states[0].configs@.contains_key(id) && url@
                == course.states[0].configs@[id].manifest_url@
        },
        course.actions[k] matches SetupAction::ReadArchive(archive) ==> archive@
            == course.states[k].current_id() + seq!['.', 'z', 'i', 'p'],
        course.events[k] is ManifestFetched <==> course.actions[k] is ReadArchive,
        forall|n: int, id: Seq<char>, one: Manifest, other: Manifest|
            n < k && #[trigger] course.fetches(n, id, one) ==> !#[trigger] course.fetches(
                k,
                id,
                other,
            ),
{
    assert(course.goes_on(k));
    course.lemma_holds(k);
    course.lemma_holds(k + 1);
    if course.actions[k] is FetchManifest {
        course.lemma_current_row(k + 1);
    }
    archive_names_are_distinct(course.states[k].current_id(), course.states[k].current_id());
    assert forall|n: int, id: Seq<char>, one: Manifest, other: Manifest|
        n < k && #[trigger] course.fetches(n, id, one) implies !#[trigger] course.fetches(
        k,
        id,
        other,
    ) by {
        if course.fetches(k, id, other) {
            assert(course.heeded(n, k));
            course.lemma_fetch_is_in_row(n);
            course.lemma_fetch_is_in_row(k);
        }
    }
}

/// A set-up waits for the answer to what it asked for, whatever the answer is, and for nothing
/// else. It begins with the directory, and is over when all is done.
pub proof fn set_up_awaits_its_answer(course: SetupCourse, k: int, later: SetupEvent)
    requires
        course.runs(),
        0 <= k < course.events.len(),
    ensures
        course.states[0].expects(later) <==> later is DirectoryReady,
        course.states[k + 1].expects(later) <==> match course.actions[k] {
            SetupAction::FetchManifest(_) => later is ManifestFetched,
            SetupAction::ReadArchive(_) => later is ArchiveUnreadable || later is ArchiveRead,
            SetupAction::Download { .. } => later is Downloaded,
            SetupAction::Complete => false,
        },
        course.actions[k] is Complete <==> course.states[k + 1].stage is Complete,
{
    assert(course.goes_on(k));
}

/// A complete set-up gives exactly the configured forks, each with the token and the address that
/// are configured for it, and with an archive that is named after it.
pub proof fn set_up_forks_are_as_configured(course: SetupCourse, id: Seq<char>)
    requires
        course.is_complete(),
    ensures
        course.forks().contains_key(id) <==> course.states[0].configs@.contains_key(id),
        course.forks().contains_key(id) ==> {
            let fork = course.forks()[id];
            let config = course.states[0].configs@[id];
            &&& fork.token@ == config.token@
            &&& fork.manifest_url@ == config.manifest_url@
            &&& fork.archive@ == id + seq!['.', 'z', 'i', 'p']
        },
{
    course.lemma_holds(course.events.len() as int);
    complete_setup_covers_configuration(course.states.last());
    archive_names_are_distinct(id, id);
    assert(course.forks().dom().contains(id) <==> course.states[0].configs@.dom().contains(id));
}

/// A set-up serves the configuration and the platform that it was begun with: when it is complete,
/// each configured fork, and no other, has the version of the latest build in the manifest that
/// arrived for it, and that build has a server for the platform.
pub proof fn set_up_serves_its_configuration(
    course: SetupCourse,
    configs: Table<ForkConfig>,
    platform: Seq<char>,
    k: int,
    id: Seq<char>,
    manifest: Manifest,
) -> (i: int)
    requires
        course.states[0].begins(configs, platform),
        course.is_complete(),
        course.fetches(k, id, manifest),
    ensures
        configs@.contains_key(id),
        course.forks()[id].token@ == configs@[id].token@,
        course.forks()[id].manifest_url@ == configs@[id].manifest_url@,
        is_latest(manifest, i),
        manifest.builds.rows()[i].0 == course.forks()[id].current_version@,
        manifest.builds.rows()[i].1.server@.contains_key(platform),
{
    set_up_versions_are_newest(course);
    set_up_forks_are_as_configured(course, id);
    let version = course.forks()[id].current_version@;
    assert(manifest.offers_version(version, platform));
    if manifest.builds.rows().len() == 0 {
        empty_manifest_is_refused(
            manifest,
            platform,
            arbitrary(),
            version,
            platform,
            platform,
            ForkError::InvalidFork,
        );
    }
    let i = latest_exists(manifest);
    latest_build_decides(
        manifest,
        i,
        platform,
        arbitrary(),
        version,
        platform,
        platform,
        ForkError::InvalidFork,
    );
    i
}

} // verus!
