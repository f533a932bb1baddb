use pinlab::{digest_of, same_digest, Blob, BlobType, FsEntry, NamedColor, PathProbe, UpdateError};

const FOO: &[u8] = b"foo\n";

fn file(path: &str, hidden: Option<bool>, content: Option<&[u8]>) -> FsEntry {
    FsEntry::File {
        path: path.to_string(),
        hidden,
        digest: content.map(digest_of),
    }
}

fn dir(path: &str, hidden: Option<bool>, listing: Vec<FsEntry>) -> FsEntry {
    FsEntry::Dir {
        path: path.to_string(),
        hidden,
        listing: Some(listing),
    }
}

fn foo_hash() -> [u8; 32] {
    *blake3::hash(FOO).as_bytes()
}

fn multi_match_tree() -> FsEntry {
    dir(
        "./tests/misc/multi_match",
        Some(false),
        vec![
            file("./tests/misc/multi_match/foo.txt", Some(false), Some(FOO)),
            dir(
                "./tests/misc/multi_match/sub",
                Some(false),
                vec![file("./tests/misc/multi_match/sub/bar.txt", Some(false), Some(FOO))],
            ),
        ],
    )
}

fn hidden_match_tree() -> FsEntry {
    dir(
        "./tests/misc/hidden_match",
        Some(false),
        vec![
            file("./tests/misc/hidden_match/.foo.txt", Some(true), Some(FOO)),
            dir(
                "./tests/misc/hidden_match/.hidden",
                Some(true),
                vec![file("./tests/misc/hidden_match/.hidden/foo.txt", Some(false), Some(FOO))],
            ),
            file("./tests/misc/hidden_match/other.txt", Some(false), Some(b"other")),
        ],
    )
}

fn match_tree() -> FsEntry {
    dir(
        "./tests/misc/match",
        Some(false),
        vec![
            file("./tests/misc/match/other.txt", Some(false), Some(b"other")),
            dir(
                "./tests/misc/match/sub",
                Some(false),
                vec![file("./tests/misc/match/sub/foo.txt", Some(false), Some(FOO))],
            ),
        ],
    )
}

#[test]
fn updating_blob_multi_match() {
    let hash = foo_hash();
    assert!(Blob::walk(&multi_match_tree(), &hash).is_err());
}

#[test]
fn blob_hidden_match() {
    let hash = foo_hash();
    assert!(Blob::walk(&hidden_match_tree(), &hash)
        .map(|o| o.is_none())
        .unwrap());
}

#[test]
fn blob_match() {
    let hash = foo_hash();
    assert!(Blob::walk(&match_tree(), &hash)
        .map(|o| o.is_some())
        .unwrap());
}

#[test]
fn new_blob_hash_is_blake3_of_content() {
    let b = Blob::new(BlobType::File, "foo.txt".to_string(), FOO);
    assert_eq!(b.hash, foo_hash());
    assert_ne!(b.hash, [0u8; 32]);
    assert_eq!(b.path, "foo.txt");
    assert_eq!(b.ty, BlobType::File);
    let empty = Blob::new(BlobType::File, "e".to_string(), b"");
    assert_eq!(empty.hash, *blake3::hash(b"").as_bytes());
}

#[test]
fn update_of_unchanged_file_is_idempotent() {
    let mut b = Blob::new(BlobType::File, "foo.txt".to_string(), b"old");
    assert_eq!(b.update(&PathProbe::Present(Some(FOO.to_vec()))), Ok(()));
    let first = b.hash;
    assert_eq!(first, foo_hash());
    assert_eq!(b.update(&PathProbe::Present(Some(FOO.to_vec()))), Ok(()));
    assert_eq!(b.hash, first);
    assert_eq!(b.path, "foo.txt");
}

#[test]
fn repair_finds_unique_match_at_depth() {
    let root = dir(
        "root",
        Some(false),
        vec![dir(
            "root/a",
            Some(false),
            vec![dir(
                "root/a/b",
                Some(false),
                vec![file("root/a/b/moved.txt", Some(false), Some(FOO))],
            )],
        )],
    );
    let mut b = Blob::new(BlobType::File, "gone.txt".to_string(), FOO);
    assert_eq!(b.update(&PathProbe::Absent(root)), Ok(()));
    assert_eq!(b.path, "root/a/b/moved.txt");
    assert_eq!(b.hash, foo_hash());
}

#[test]
fn repair_renamed_file_in_subdirectory() {
    let root = dir(
        "root",
        Some(false),
        vec![
            file("root/unrelated.txt", Some(false), Some(b"x")),
            dir(
                "root/sub",
                Some(false),
                vec![file("root/sub/foo_renamed.txt", Some(false), Some(FOO))],
            ),
        ],
    );
    let mut b = Blob::new(BlobType::File, "foo.txt".to_string(), FOO);
    assert_eq!(b.update(&PathProbe::Absent(root)), Ok(()));
    assert_eq!(b.path, "root/sub/foo_renamed.txt");
}

#[test]
fn repair_with_two_copies_is_ambiguous() {
    let root = dir(
        "root",
        Some(false),
        vec![
            dir("root/sub", Some(false), vec![file("root/sub/foo_renamed.txt", Some(false), Some(FOO))]),
            dir("root/other", Some(false), vec![file("root/other/copy.txt", Some(false), Some(FOO))]),
        ],
    );
    let mut b = Blob::new(BlobType::File, "foo.txt".to_string(), FOO);
    assert_eq!(
        b.update(&PathProbe::Absent(root)),
        Err(UpdateError::MultipleCandidates)
    );
    assert_eq!(b.path, "foo.txt");
    assert_eq!(b.hash, foo_hash());
}

#[test]
fn repair_with_no_match_changes_nothing() {
    let root = dir("root", Some(false), vec![file("root/x.txt", Some(false), Some(b"x"))]);
    let mut b = Blob::new(BlobType::File, "foo.txt".to_string(), FOO);
    assert_eq!(b.update(&PathProbe::Absent(root)), Ok(()));
    assert_eq!(b.path, "foo.txt");
    let empty = dir("root", Some(false), vec![]);
    assert_eq!(b.update(&PathProbe::Absent(empty)), Ok(()));
    assert_eq!(b.path, "foo.txt");
}

#[test]
fn hidden_or_unknown_entries_are_never_matched() {
    let root = dir(
        "root",
        Some(false),
        vec![
            file("root/.foo.txt", Some(true), Some(FOO)),
            file("root/weird", None, Some(FOO)),
            dir("root/.git", Some(true), vec![file("root/.git/foo.txt", Some(false), Some(FOO))]),
        ],
    );
    let mut b = Blob::new(BlobType::File, "foo.txt".to_string(), FOO);
    assert_eq!(b.update(&PathProbe::Absent(root)), Ok(()));
    assert_eq!(b.path, "foo.txt");
}

#[test]
fn hidden_copy_does_not_make_visible_match_ambiguous() {
    let root = dir(
        "root",
        Some(false),
        vec![
            file("root/.foo.txt", Some(true), Some(FOO)),
            file("root/foo2.txt", Some(false), Some(FOO)),
        ],
    );
    let mut b = Blob::new(BlobType::File, "foo.txt".to_string(), FOO);
    assert_eq!(b.update(&PathProbe::Absent(root)), Ok(()));
    assert_eq!(b.path, "root/foo2.txt");
}

#[test]
fn unreadable_entries_fail_the_repair() {
    let root = dir("root", Some(false), vec![file("root/locked", Some(false), None)]);
    let mut b = Blob::new(BlobType::File, "foo.txt".to_string(), FOO);
    assert_eq!(b.update(&PathProbe::Absent(root)), Err(UpdateError::Unreadable));
    assert_eq!(b.path, "foo.txt");

    let unlisted = FsEntry::Dir { path: "root".to_string(), hidden: Some(false), listing: None };
    assert_eq!(b.update(&PathProbe::Absent(unlisted)), Err(UpdateError::Unreadable));

    // an unreadable hidden file is skipped, not read
    let skipped = dir("root", Some(false), vec![file("root/.locked", Some(true), None)]);
    assert_eq!(b.update(&PathProbe::Absent(skipped)), Ok(()));

    // one match and an unreadable entry: the search cannot tell it is unique
    let one = dir(
        "root",
        Some(false),
        vec![file("root/a", Some(false), Some(FOO)), file("root/c", Some(false), None)],
    );
    assert_eq!(b.update(&PathProbe::Absent(one)), Err(UpdateError::Unreadable));
    assert_eq!(b.path, "foo.txt");
}

#[test]
fn ambiguity_is_reported_even_beside_an_unreadable_entry() {
    let root = dir(
        "root",
        Some(false),
        vec![
            file("root/c", Some(false), None),
            dir(
                "root/sub",
                Some(false),
                vec![
                    file("root/sub/a.txt", Some(false), Some(FOO)),
                    file("root/sub/b.txt", Some(false), Some(FOO)),
                ],
            ),
            FsEntry::Dir { path: "root/locked".to_string(), hidden: Some(false), listing: None },
        ],
    );
    let mut b = Blob::new(BlobType::File, "foo.txt".to_string(), FOO);
    assert_eq!(
        b.update(&PathProbe::Absent(root)),
        Err(UpdateError::MultipleCandidates)
    );
    assert_eq!(b.path, "foo.txt");
    assert_eq!(b.hash, foo_hash());
}

#[test]
fn probe_outcomes_for_the_own_path() {
    let mut b = Blob::new(BlobType::File, "foo.txt".to_string(), FOO);
    assert_eq!(b.update(&PathProbe::Present(None)), Err(UpdateError::Unreadable));
    assert_eq!(b.hash, foo_hash());
    assert_eq!(b.update(&PathProbe::Unknown), Ok(()));
    assert_eq!(b.path, "foo.txt");
    assert_eq!(b.hash, foo_hash());
    assert_eq!(b.update(&PathProbe::Present(Some(b"changed".to_vec()))), Ok(()));
    assert_eq!(b.hash, *blake3::hash(b"changed").as_bytes());
}

#[test]
fn root_that_is_not_a_directory_holds_no_match() {
    let root = file("root", Some(false), Some(FOO));
    assert_eq!(Blob::walk(&root, &foo_hash()), Ok(None));
}

#[test]
fn digest_comparison() {
    let a = foo_hash();
    let mut b = a;
    assert!(same_digest(&a, &b));
    b[31] ^= 1;
    assert!(!same_digest(&a, &b));
}

#[test]
fn blob_colors() {
    assert_eq!(BlobType::PinboardGraph.color(), Some(NamedColor::LightBlue));
    assert_eq!(BlobType::File.color(), None);
    let b = Blob::new(BlobType::PinboardGraph, "x.pinbrd".to_string(), b"");
    assert_eq!(b.color(), Some(NamedColor::LightBlue));
    assert_eq!(b.duplicate().path, "x.pinbrd");
    assert_eq!(*b.ty(), BlobType::PinboardGraph);
    assert_eq!(b.path(), "x.pinbrd");
}

#[test]
fn walk_decides_on_recorded_digests() {
    let target = [7u8; 32];
    let mut other = target;
    other[0] = 8;
    let entry = |path: &str, d: [u8; 32]| FsEntry::File {
        path: path.to_string(),
        hidden: Some(false),
        digest: Some(d),
    };
    let one = dir("r", Some(false), vec![entry("r/a", other), entry("r/b", target)]);
    assert_eq!(Blob::walk(&one, &target), Ok(Some("r/b".to_string())));
    let two = dir("r", Some(false), vec![entry("r/a", target), entry("r/b", target)]);
    assert_eq!(Blob::walk(&two, &target), Err(UpdateError::MultipleCandidates));
    assert_eq!(digest_of(FOO), foo_hash());
}
