//! What can go wrong with a fork, and how it is reported.
use vstd::prelude::*;
use vstd::string::*;

verus! {

/// A reason why a fork cannot be set up, updated, extracted or run.
pub enum ForkError {
    /// No fork has the requested id.
    InvalidFork,
    /// The instance is assigned to a fork that does not exist.
    InvalidForkForInstance,
    /// The manifest of the fork with this id lists no build.
    NoVersions(String),
    /// The newest build of the fork with this id has no server for this platform.
    NoPlatform(String),
    /// The archive holds a file whose name cannot be trusted.
    InvalidFilename,
}

impl ForkError {
    /// The message for the operator.
    pub open spec fn text(self) -> Seq<char> {
        match self {
            ForkError::InvalidFork => "Invalid fork!"@,
            ForkError::InvalidForkForInstance => "Invalid fork for instance!"@,
            ForkError::NoVersions(id) => "Fork "@ + id@ + " has no versions?"@,
            ForkError::NoPlatform(id) => "Fork "@ + id@ + " has no versions for our platform!"@,
            ForkError::InvalidFilename => "Invalid filename in server zip!"@,
        }
    }

    /// Writes the message for the operator.
    pub fn message(&self) -> (message: String)
        ensures
            message@ == self.text(),
    {
        match self {
            ForkError::InvalidFork => "Invalid fork!".to_owned(),
            ForkError::InvalidForkForInstance => "Invalid fork for instance!".to_owned(),
            ForkError::NoVersions(id) => "Fork ".to_owned().concat(id.as_str()).concat(
                " has no versions?",
            ),
            ForkError::NoPlatform(id) => "Fork ".to_owned().concat(id.as_str()).concat(
                " has no versions for our platform!",
            ),
            ForkError::InvalidFilename => "Invalid filename in server zip!".to_owned(),
        }
    }
}

/// What is said of a fork that cannot be run names the fork, and says which of the two reasons
/// holds: so messages on different forks differ, and so do messages for different reasons.
pub proof fn messages_name_the_fork(id: String, other: String)
    ensures
        ForkError::NoVersions(id).text().subrange(5, 5int + id@.len()) == id@,
        ForkError::NoPlatform(id).text().subrange(5, 5int + id@.len()) == id@,
        ForkError::NoVersions(id).text() == ForkError::NoVersions(other).text() ==> id@ == other@,
        ForkError::NoPlatform(id).text() == ForkError::NoPlatform(other).text() ==> id@ == other@,
        ForkError::NoVersions(id).text().last() == '?',
        ForkError::NoPlatform(id).text().last() == '!',
{
    reveal_strlit("Fork ");
    reveal_strlit(" has no versions?");
    reveal_strlit(" has no versions for our platform!");
    let one = ForkError::NoVersions(id).text();
    let two = ForkError::NoPlatform(id).text();
    assert(one.subrange(5, 5int + id@.len()) =~= id@);
    assert(two.subrange(5, 5int + id@.len()) =~= id@);
    assert(ForkError::NoVersions(other).text().subrange(5, 5int + other@.len()) =~= other@);
    assert(ForkError::NoPlatform(other).text().subrange(5, 5int + other@.len()) =~= other@);
}

} // verus!
