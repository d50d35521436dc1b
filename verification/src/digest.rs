//! SHA-256 digests of archives that are read piece by piece.
use sha2::Digest;
use vstd::prelude::*;

verus! {

#[verifier::external_type_specification]
#[verifier::external_body]
pub struct ExSha256(sha2::Sha256);

/// The bytes that a hasher has been fed, in order.
pub uninterp spec fn absorbed(hasher: sha2::Sha256) -> Seq<u8>;

/// The SHA-256 digest of a byte string.
pub uninterp spec fn sha256(data: Seq<u8>) -> Seq<u8>;

/// `Sha256::new` of `sha2`: a hasher that has been fed nothing.
#[verifier::external_body]
fn new_hasher() -> (hasher: sha2::Sha256)
    ensures
        absorbed(hasher) == Seq::<u8>::empty(),
{
    sha2::Sha256::new()
}

/// `Digest::update` of `sha2`: the bytes are fed after those that came before.
#[verifier::external_body]
fn feed_hasher(hasher: &mut sha2::Sha256, bytes: &[u8])
    ensures
        absorbed(*final(hasher)) == absorbed(*old(hasher)) + bytes@,
{
    hasher.update(bytes);
}

/// `Digest::finalize` of `sha2`: the digest of all bytes fed, as an array of 32 bytes.
#[verifier::external_body]
fn finish_hasher(hasher: sha2::Sha256) -> (digest: [u8; 32])
    ensures
        digest@ == sha256(absorbed(hasher)),
{
    hasher.finalize().into()
}

/// The digest of an archive in the making.
pub struct ArchiveHasher {
    hasher: sha2::Sha256,
}

impl View for ArchiveHasher {
    type V = Seq<u8>;

    /// The part of the archive that has been read.
    closed spec fn view(&self) -> Seq<u8> {
        absorbed(self.hasher)
    }
}

impl ArchiveHasher {
    /// Nothing has been read yet.
    pub fn new() -> (hasher: Self)
        ensures
            hasher@ == Seq::<u8>::empty(),
    {
        ArchiveHasher { hasher: new_hasher() }
    }

    /// Takes in the next piece of the archive.
    pub fn read(&mut self, piece: &[u8])
        ensures
            final(self)@ == old(self)@ + piece@,
    {
        feed_hasher(&mut self.hasher, piece);
    }

    /// The digest of everything that was read.
    pub fn finish(self) -> (digest: [u8; 32])
        ensures
            digest@ == sha256(self@),
    {
        finish_hasher(self.hasher)
    }
}

/// Whether two digests hold the same bytes.
pub fn same_digest(a: &[u8; 32], b: &[u8; 32]) -> (same: bool)
    ensures
        same == (a@ == b@),
{
    let mut i: usize = 0;
    while i < 32
        invariant
            i <= 32,
            forall|j: int| 0 <= j < i ==> a@[j] == b@[j],
        decreases 32 - i,
    {
        if a[i] != b[i] {
            assert(a@[i as int] != b@[i as int]);
            return false;
        }
        i = i + 1;
    }
    assert(a@ =~= b@);
    true
}

/// Whether the archive that was read has the expected digest.
pub fn archive_matches(archive: ArchiveHasher, expected: &[u8; 32]) -> (matches: bool)
    ensures
        matches == (sha256(archive@) == expected@),
{
    same_digest(&archive.finish(), expected)
}

} // verus!
