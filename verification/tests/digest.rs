use watchdog::digest::{archive_matches, same_digest, ArchiveHasher};

const ABC: [u8; 32] = [
    0xba, 0x78, 0x16, 0xbf, 0x8f, 0x01, 0xcf, 0xea, 0x41, 0x41, 0x40, 0xde, 0x5d, 0xae, 0x22, 0x23,
    0xb0, 0x03, 0x61, 0xa3, 0x96, 0x17, 0x7a, 0x9c, 0xb4, 0x10, 0xff, 0x61, 0xf2, 0x00, 0x15, 0xad,
];

const NOTHING: [u8; 32] = [
    0xe3, 0xb0, 0xc4, 0x42, 0x98, 0xfc, 0x1c, 0x14, 0x9a, 0xfb, 0xf4, 0xc8, 0x99, 0x6f, 0xb9, 0x24,
    0x27, 0xae, 0x41, 0xe4, 0x64, 0x9b, 0x93, 0x4c, 0xa4, 0x95, 0x99, 0x1b, 0x78, 0x52, 0xb8, 0x55,
];

#[test]
fn digest_of_nothing() {
    assert_eq!(ArchiveHasher::new().finish(), NOTHING);
}

#[test]
fn digest_does_not_depend_on_the_pieces() {
    let mut whole = ArchiveHasher::new();
    whole.read(b"abc");
    let mut pieces = ArchiveHasher::new();
    pieces.read(b"a");
    pieces.read(b"");
    pieces.read(b"bc");
    assert_eq!(whole.finish(), ABC);
    assert_eq!(pieces.finish(), ABC);
}

#[test]
fn archives_are_told_apart_by_digest() {
    let mut archive = ArchiveHasher::new();
    archive.read(b"abc");
    assert!(archive_matches(archive, &ABC));
    let mut other = ArchiveHasher::new();
    other.read(b"abd");
    assert!(!archive_matches(other, &ABC));
}

#[test]
fn digests_differ_in_any_byte() {
    for i in 0..32 {
        let mut changed = ABC;
        changed[i] ^= 1;
        assert!(!same_digest(&ABC, &changed));
    }
    assert!(same_digest(&ABC, &ABC));
}
