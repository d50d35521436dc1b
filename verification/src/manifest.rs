//! Manifests: the builds that a fork offers, and which of them to run.
use vstd::prelude::*;

use crate::errors::ForkError;
use crate::table::{Table, row_name};

verus! {

/// A moment, as seconds since the Unix epoch and nanoseconds within the second.
#[derive(Clone, Copy, Debug, PartialEq, Eq, Structural)]
pub struct BuildTime {
    pub seconds: i64,
    pub nanoseconds: u32,
}

impl BuildTime {
    /// Whether `self` lies before `other`.
    pub open spec fn before(self, other: BuildTime) -> bool {
        self.seconds < other.seconds || (self.seconds == other.seconds && self.nanoseconds
            < other.nanoseconds)
    }

    /// Tells whether `self` lies before `other`.
    pub fn is_before(&self, other: &BuildTime) -> (earlier: bool)
        ensures
            earlier == self.before(*other),
    {
        self.seconds < other.seconds || (self.seconds == other.seconds && self.nanoseconds
            < other.nanoseconds)
    }
}

/// A file to download, with its SHA-256 digest.
pub struct Artifact {
    pub url: String,
    pub sha256: [u8; 32],
}

/// One build: when it was made, the client, and the server for each platform.
pub struct Build {
    pub time: BuildTime,
    pub client: Artifact,
    pub server: Table<Artifact>,
}

/// The builds that a fork offers, by version.
pub struct Manifest {
    pub builds: Table<Build>,
}

/// The build to run: its version and where its server is found.
pub struct Release {
    pub version: String,
    pub url: String,
    pub sha256: [u8; 32],
}

/// Whether row `i` holds the newest build: none was made later, and those that come after it
/// in the manifest were made before it.
pub open spec fn is_newest(builds: Seq<(Seq<char>, Build)>, i: int) -> bool {
    &&& 0 <= i < builds.len()
    &&& forall|j: int| 0 <= j < builds.len() ==> !builds[i].1.time.before(#[trigger] builds[j].1.time)
    &&& forall|j: int| i < j < builds.len() ==> (#[trigger] builds[j]).1.time.before(builds[i].1.time)
}

/// A manifest has at most one newest build.
pub proof fn newest_is_unique(builds: Seq<(Seq<char>, Build)>, i: int, k: int)
    requires
        is_newest(builds, i),
        is_newest(builds, k),
    ensures
        i == k,
{
    let _ = builds[i];
    let _ = builds[k];
}

/// A manifest that lists a build has a newest one.
pub proof fn newest_exists(builds: Seq<(Seq<char>, Build)>)
    requires
        builds.len() > 0,
    ensures
        exists|i: int| is_newest(builds, i),
    decreases builds.len(),
{
    let last = builds.len() - 1;
    if last == 0 {
        assert(is_newest(builds, 0));
    } else {
        let rest = builds.drop_last();
        newest_exists(rest);
        let i = choose|i: int| is_newest(rest, i);
        assert forall|j: int| 0 <= j < rest.len() implies rest[j] == #[trigger] builds[j] by {}
        if builds[last].1.time.before(builds[i].1.time) {
            assert(is_newest(builds, i));
        } else {
            assert(is_newest(builds, last));
        }
    }
}

/// Which build is the newest does not depend on the order in which builds are listed, where no
/// other was made at the same moment.
pub proof fn newest_does_not_depend_on_order(
    one: Seq<(Seq<char>, Build)>,
    other: Seq<(Seq<char>, Build)>,
    i: int,
    k: int,
)
    requires
        is_newest(one, i),
        is_newest(other, k),
        forall|row: (Seq<char>, Build)| one.contains(row) <==> other.contains(row),
        forall|j: int| 0 <= j < one.len() && j != i ==> (#[trigger] one[j]).1.time != one[i].1.time,
    ensures
        one[i] == other[k],
{
    assert(one.contains(one[i]));
    assert(other.contains(other[k]));
    let m = choose|m: int| 0 <= m < one.len() && one[m] == other[k];
    let n = choose|n: int| 0 <= n < other.len() && other[n] == one[i];
    assert(!one[i].1.time.before(one[m].1.time));
    assert(!other[k].1.time.before(other[n].1.time));
    assert(one[m].1.time == one[i].1.time);
}

impl Manifest {
    /// The row of the newest build.
    pub open spec fn newest_row(self) -> int {
        choose|i: int| is_newest(self.builds.rows(), i)
    }

    /// The newest build.
    pub open spec fn newest_build(self) -> Build {
        self.builds.rows()[self.newest_row()].1
    }

    /// Whether `release` is the server of the newest build for `platform`.
    pub open spec fn offers(self, platform: Seq<char>, release: Release) -> bool {
        &&& self.builds.rows().len() > 0
        &&& is_newest(self.builds.rows(), self.newest_row())
        &&& self.newest_build().server@.contains_key(platform)
        &&& release.version@ == self.builds.rows()[self.newest_row()].0
        &&& release.url@ == self.newest_build().server@[platform].url@
        &&& release.sha256@ == self.newest_build().server@[platform].sha256@
    }

    /// Whether the newest build for `platform` has the given version.
    pub open spec fn offers_version(self, version: Seq<char>, platform: Seq<char>) -> bool {
        &&& self.builds.rows().len() > 0
        &&& is_newest(self.builds.rows(), self.newest_row())
        &&& self.newest_build().server@.contains_key(platform)
        &&& version == self.builds.rows()[self.newest_row()].0
    }

    /// Whether the newest build for `platform` has another version and is found at `url`.
    pub open spec fn offers_other_than(
        self,
        version: Seq<char>,
        platform: Seq<char>,
        url: Seq<char>,
    ) -> bool {
        &&& self.builds.rows().len() > 0
        &&& is_newest(self.builds.rows(), self.newest_row())
        &&& self.newest_build().server@.contains_key(platform)
        &&& version != self.builds.rows()[self.newest_row()].0
        &&& url == self.newest_build().server@[platform].url@
    }

    /// Whether `error` says, for the fork `id`, why nothing can be run on `platform`.
    pub open spec fn refuses(self, id: Seq<char>, platform: Seq<char>, error: ForkError) -> bool {
        match error {
            ForkError::NoVersions(fork) => fork@ == id && self.builds.rows().len() == 0,
            ForkError::NoPlatform(fork) => {
                &&& fork@ == id
                &&& self.builds.rows().len() > 0
                &&& is_newest(self.builds.rows(), self.newest_row())
                &&& !self.newest_build().server@.contains_key(platform)
            },
            _ => false,
        }
    }

    /// Finds the newest build.
    pub fn newest(&self) -> (row: Option<usize>)
        ensures
            match row {
                Some(i) => is_newest(self.builds.rows(), i as int) && i == self.newest_row(),
                None => self.builds.rows().len() == 0,
            },
    {
        let ghost rows = self.builds.rows();
        let count = self.builds.len();
        if count == 0 {
            return None;
        }
        let mut best: usize = 0;
        let mut next: usize = 1;
        while next < count
            invariant
                rows == self.builds.rows(),
                count == rows.len(),
                best < next <= count,
                forall|j: int| 0 <= j < next ==> !rows[best as int].1.time.before(#[trigger] rows[j].1.time),
                forall|j: int| best < j < next ==> (#[trigger] rows[j]).1.time.before(rows[best as int].1.time),
            decreases count - next,
        {
            if !self.builds.value_at(next).time.is_before(&self.builds.value_at(best).time) {
                best = next;
            }
            next = next + 1;
        }
        proof {
            assert(is_newest(rows, best as int));
            newest_is_unique(rows, best as int, self.newest_row());
        }
        Some(best)
    }

    /// Chooses what to run of fork `fork` on `platform`: the server of the newest build.
    pub fn release(&self, fork: &str, platform: &str) -> (release: Result<Release, ForkError>)
        ensures
            match release {
                Ok(chosen) => self.offers(platform@, chosen),
                Err(error) => self.refuses(fork@, platform@, error),
            },
    {
        match self.newest() {
            None => Err(ForkError::NoVersions(fork.to_owned())),
            Some(row) => {
                let build = self.builds.value_at(row);
                match build.server.get(platform) {
                    None => Err(ForkError::NoPlatform(fork.to_owned())),
                    Some(artifact) => Ok(
                        Release {
                            version: self.builds.name_at(row).clone(),
                            url: artifact.url.clone(),
                            sha256: artifact.sha256,
                        },
                    ),
                }
            },
        }
    }
}

/// Whether two manifests list the same builds, in whatever order.
pub open spec fn same_builds(one: Manifest, other: Manifest) -> bool {
    forall|row: (Seq<char>, Build)|
        one.builds.rows().contains(row) <==> other.builds.rows().contains(row)
}

/// Whether no other build of the manifest was made at the same moment as the newest one.
pub open spec fn newest_stands_alone(manifest: Manifest) -> bool {
    forall|j: int|
        0 <= j < manifest.builds.rows().len() && j != manifest.newest_row() ==> (
        #[trigger] manifest.builds.rows()[j]).1.time != manifest.newest_build().time
}

/// Whether two manifests offer the same on `platform`.
pub open spec fn offer_alike(one: Manifest, other: Manifest, platform: Seq<char>) -> bool {
    forall|release: Release| #[trigger]
        one.offers(platform, release) <==> other.offers(platform, release)
}

/// Manifests that list the same builds offer the same on every platform, where no other build was
/// made at the same moment as the newest.
pub proof fn same_builds_offer_alike(one: Manifest, other: Manifest, platform: Seq<char>)
    requires
        same_builds(one, other),
        newest_stands_alone(one),
    ensures
        offer_alike(one, other, platform),
{
    let rows = one.builds.rows();
    let other_rows = other.builds.rows();
    if rows.len() > 0 {
        assert(rows.contains(rows[0]));
        assert(other_rows.len() > 0);
        newest_exists(rows);
        newest_exists(other_rows);
        newest_does_not_depend_on_order(rows, other_rows, one.newest_row(), other.newest_row());
    } else if other_rows.len() > 0 {
        assert(other_rows.contains(other_rows[0]));
    }
}

impl BuildTime {
    /// The moment in nanoseconds since the Unix epoch.
    pub open spec fn moment(self) -> int {
        self.seconds * 1_000_000_000 + self.nanoseconds
    }

    /// Whether `self` is not later than `other`: its second comes first, or it is the same and no
    /// more of it has passed.
    pub open spec fn no_later_than(self, other: BuildTime) -> bool {
        self.seconds < other.seconds || (self.seconds == other.seconds && self.nanoseconds
            <= other.nanoseconds)
    }
}

/// `before` is the order of moments in time: an earlier second always comes first, and within a
/// second the nanoseconds decide.
pub proof fn before_is_order_in_time(a: BuildTime, b: BuildTime)
    ensures
        a.seconds < b.seconds ==> a.before(b) && !b.before(a),
        a.before(b) <==> !b.no_later_than(a),
        a.nanoseconds < 1_000_000_000 && b.nanoseconds < 1_000_000_000 ==> (a.before(b)
            <==> a.moment() < b.moment()),
{
}

/// Whether row `i` is the latest of a manifest: no build was made later, and those listed after it
/// were made earlier.
pub open spec fn is_latest(manifest: Manifest, i: int) -> bool {
    let rows = manifest.builds.rows();
    &&& 0 <= i < rows.len()
    &&& forall|j: int| 0 <= j < rows.len() ==> (#[trigger] rows[j]).1.time.no_later_than(rows[i].1.time)
    &&& forall|j: int| i < j < rows.len() ==> !rows[i].1.time.no_later_than((#[trigger] rows[j]).1.time)
}

/// What a manifest offers is decided by its latest build alone: the release is the server that this
/// build has for the platform, under its version; where it has none, the manifest is refused for
/// want of the platform.
pub proof fn latest_build_decides(
    manifest: Manifest,
    i: int,
    platform: Seq<char>,
    release: Release,
    version: Seq<char>,
    url: Seq<char>,
    id: Seq<char>,
    error: ForkError,
)
    requires
        is_latest(manifest, i),
    ensures
        ({
            let (name, build) = manifest.builds.rows()[i];
            let served = build.server@.contains_key(platform);
            let artifact = build.server@[platform];
            &&& manifest.offers(platform, release) <==> served && release.version@ == name
                && release.url@ == artifact.url@ && release.sha256@ == artifact.sha256@
            &&& manifest.offers_version(version, platform) <==> served && version == name
            &&& manifest.offers_other_than(version, platform, url) <==> served && version != name
                && url == artifact.url@
            &&& manifest.refuses(id, platform, error) <==> (error matches ForkError::NoPlatform(
                fork,
            ) && fork@ == id && !served)
        }),
{
    let rows = manifest.builds.rows();
    assert(is_newest(rows, i)) by {
        assert forall|j: int| 0 <= j < rows.len() implies !rows[i].1.time.before(
            #[trigger] rows[j].1.time,
        ) by {
            before_is_order_in_time(rows[i].1.time, rows[j].1.time);
            assert(rows[j].1.time.no_later_than(rows[i].1.time));
        }
        assert forall|j: int| i < j < rows.len() implies (#[trigger] rows[j]).1.time.before(
            rows[i].1.time,
        ) by {
            before_is_order_in_time(rows[j].1.time, rows[i].1.time);
        }
    }
    newest_is_unique(rows, i, manifest.newest_row());
}

/// A manifest without builds offers nothing and is refused for it.
pub proof fn empty_manifest_is_refused(
    manifest: Manifest,
    platform: Seq<char>,
    release: Release,
    version: Seq<char>,
    url: Seq<char>,
    id: Seq<char>,
    error: ForkError,
)
    requires
        manifest.builds.rows().len() == 0,
    ensures
        !manifest.offers(platform, release),
        !manifest.offers_version(version, platform),
        !manifest.offers_other_than(version, platform, url),
        manifest.refuses(id, platform, error) <==> (error matches ForkError::NoVersions(fork)
            && fork@ == id),
{
}

/// A manifest with builds has a latest one.
pub proof fn latest_exists(manifest: Manifest) -> (i: int)
    requires
        manifest.builds.rows().len() > 0,
    ensures
        is_latest(manifest, i),
{
    let rows = manifest.builds.rows();
    newest_exists(rows);
    let i = choose|i: int| is_newest(rows, i);
    assert forall|j: int| 0 <= j < rows.len() implies (#[trigger] rows[j]).1.time.no_later_than(
        rows[i].1.time,
    ) by {
        before_is_order_in_time(rows[i].1.time, rows[j].1.time);
        assert(!rows[i].1.time.before(rows[j].1.time));
    }
    assert forall|j: int| i < j < rows.len() implies !rows[i].1.time.no_later_than(
        (#[trigger] rows[j]).1.time,
    ) by {
        before_is_order_in_time(rows[j].1.time, rows[i].1.time);
    }
    i
}

/// No build of a manifest was made later than the one that is released.
pub proof fn no_build_is_later_than_the_released(
    manifest: Manifest,
    platform: Seq<char>,
    release: Release,
) -> (i: int)
    requires
        manifest.offers(platform, release),
    ensures
        is_latest(manifest, i),
        manifest.builds.rows()[i].0 == release.version@,
        manifest.builds.rows()[i].1.server@.contains_key(platform),
        manifest.builds.rows()[i].1.server@[platform].url@ == release.url@,
        manifest.builds.rows()[i].1.server@[platform].sha256@ == release.sha256@,
        forall|j: int|
            0 <= j < manifest.builds.rows().len() ==> (#[trigger] manifest.builds.rows()[j]).1.time.seconds
                <= manifest.builds.rows()[i].1.time.seconds,
{
    if manifest.builds.rows().len() == 0 {
        empty_manifest_is_refused(
            manifest,
            platform,
            release,
            platform,
            platform,
            platform,
            ForkError::InvalidFork,
        );
    }
    let i = latest_exists(manifest);
    latest_build_decides(
        manifest,
        i,
        platform,
        release,
        platform,
        platform,
        platform,
        ForkError::InvalidFork,
    );
    i
}

/// What is offered as another version is the server of a release.
pub proof fn other_version_is_released(
    manifest: Manifest,
    platform: Seq<char>,
    version: Seq<char>,
    url: Seq<char>,
) -> (release: Release)
    requires
        manifest.offers_other_than(version, platform, url),
    ensures
        manifest.offers(platform, release),
        release.url@ == url,
        release.version@ != version,
{
    let name = row_name(manifest.builds, manifest.newest_row());
    let artifact = manifest.newest_build().server@[platform];
    Release { version: name, url: artifact.url, sha256: artifact.sha256 }
}

} // verus!
