use gitgraph::delta::{
    CommitContents, Delta, DeltaReadError, DeltaStatus, File, FileChange, WorkingDirStatus,
};
use gitgraph::diff::{get_file_blob, BlobSource, Change, DeltaDiff, Hunk, Side};
use gitgraph::errors::GitError;
use gitgraph::oid::Oid;
use gitgraph::text::{decimal, ends_with, extension, find_first, find_last, slice};

fn file(id: u8, path: &str) -> File {
    File::new(Some(Oid::from_bytes([id; 20])), path.to_string())
}

#[test]
fn oid_hex_form_has_two_digits_for_each_byte() {
    let mut bytes = [0u8; 20];
    bytes[0] = 0xab;
    bytes[1] = 0x01;
    bytes[19] = 0xf0;
    let hex = Oid::from_bytes(bytes).to_hex();
    assert_eq!(hex, "ab010000000000000000000000000000000000f0");
    assert_eq!(Oid::zero().to_hex(), "0".repeat(40));
}

#[test]
fn oid_is_parsed_from_its_hex_form() {
    let id = Oid::from_hex("ab010000000000000000000000000000000000f0").unwrap();
    assert_eq!(id.as_bytes()[0], 0xab);
    assert_eq!(id.as_bytes()[1], 0x01);
    assert_eq!(id.as_bytes()[19], 0xf0);
    assert_eq!(Oid::from_hex(&id.to_hex()), Ok(id));
}

#[test]
fn oid_is_not_parsed_from_other_text() {
    let refused = |text: &str| Err(GitError::Wrapped(format!("unable to parse OID - {text}")));
    assert_eq!(Oid::from_hex(""), refused("too short"));
    assert_eq!(Oid::from_hex("not hexadecimal"), refused("contains invalid characters"));
    assert_eq!(Oid::from_hex(&"a".repeat(41)), refused("too long"));
}

#[test]
fn file_without_a_valid_id_gets_the_zero_id() {
    let unknown = File::new(None, "a/b.txt".to_string());
    assert_eq!(unknown.id, "0".repeat(40));
    assert_eq!(unknown.path, "a/b.txt");
    assert_eq!(file(0x11, "x").id, "11".repeat(20));
}

#[test]
fn newest_and_oldest_file_of_each_change() {
    let old = file(1, "old");
    let new = file(2, "new");
    let single = [
        FileChange::Added(new.clone()),
        FileChange::Untracked(new.clone()),
        FileChange::Deleted(new.clone()),
    ];
    for change in &single {
        assert_eq!(change.get_newest_file(), &new);
        assert_eq!(change.get_oldest_file(), &new);
    }
    let double = [
        FileChange::Copied(old.clone(), new.clone()),
        FileChange::Renamed(old.clone(), new.clone()),
        FileChange::Modified(old.clone(), new.clone()),
    ];
    for change in &double {
        assert_eq!(change.get_newest_file(), &new);
        assert_eq!(change.get_oldest_file(), &old);
        assert_eq!(change.get_files(), (Some(&old), Some(&new)));
    }
}

#[test]
fn files_before_and_after_of_one_sided_changes() {
    let f = file(3, "f");
    assert_eq!(FileChange::Added(f.clone()).get_files(), (None, Some(&f)));
    assert_eq!(FileChange::Untracked(f.clone()).get_files(), (None, Some(&f)));
    assert_eq!(FileChange::Deleted(f.clone()).get_files(), (Some(&f), None));
}

#[test]
fn delta_is_read_from_each_supported_status() {
    let old = file(1, "old.json");
    let new = file(2, "new.json");
    let read = |status| {
        Delta::try_new(status, Some(old.clone()), Some(new.clone()), false).unwrap().change
    };
    assert_eq!(read(DeltaStatus::Added), FileChange::Added(new.clone()));
    assert_eq!(read(DeltaStatus::Copied), FileChange::Copied(old.clone(), new.clone()));
    assert_eq!(read(DeltaStatus::Deleted), FileChange::Deleted(old.clone()));
    assert_eq!(read(DeltaStatus::Modified), FileChange::Modified(old.clone(), new.clone()));
    assert_eq!(read(DeltaStatus::Renamed), FileChange::Renamed(old.clone(), new.clone()));
    assert_eq!(read(DeltaStatus::Untracked), FileChange::Untracked(new.clone()));
}

#[test]
fn delta_is_not_read_from_an_unsupported_status() {
    for status in [
        DeltaStatus::Unmodified,
        DeltaStatus::Ignored,
        DeltaStatus::Typechange,
        DeltaStatus::Unreadable,
        DeltaStatus::Conflicted,
    ] {
        let read = Delta::try_new(status, Some(file(1, "a")), None, true);
        assert_eq!(read, Err(DeltaReadError::UnsupportedDeltaType));
    }
}

#[test]
fn delta_takes_its_media_type_from_the_extension_of_the_newest_file() {
    let json = Delta::try_new(
        DeltaStatus::Modified,
        Some(file(1, "a.txt")),
        Some(file(2, "b.JSON")),
        true,
    )
    .unwrap();
    assert!(json.binary);
    assert_eq!(json.mime_type.as_deref(), Some("application/json"));
    let deleted =
        Delta::try_new(DeltaStatus::Deleted, Some(file(1, "dir.d/a.png")), None, false).unwrap();
    assert_eq!(deleted.mime_type.as_deref(), Some("image/png"));
    assert!(!deleted.binary);
}

#[test]
fn delta_without_a_known_extension_has_no_media_type() {
    let read = |path: &str| {
        Delta::try_new(DeltaStatus::Added, None, Some(file(2, path)), false).unwrap().mime_type
    };
    assert_eq!(read("Makefile"), None);
    assert_eq!(read(".gitignore"), None);
    assert_eq!(read("archive.unknownextension"), None);
    assert_eq!(read("ends.with.dot."), None);
}

#[test]
fn extension_is_what_follows_the_last_dot() {
    assert_eq!(extension("a/b.tar.gz").as_deref(), Some("gz"));
    assert_eq!(extension(".gitignore").as_deref(), Some("gitignore"));
    assert_eq!(extension("dot.").as_deref(), Some(""));
    assert_eq!(extension("none"), None);
    assert_eq!(extension(""), None);
    assert_eq!(extension("päth.ünï").as_deref(), Some("ünï"));
}

#[test]
fn text_searches_count_characters() {
    assert_eq!(find_first("a/b/c", '/', 0), 1);
    assert_eq!(find_first("a/b/c", '/', 2), 3);
    assert_eq!(find_first("a/b/c", '/', 4), 5);
    assert_eq!(find_first("ä/b", '/', 0), 1);
    assert_eq!(find_last("a/b/c", '/'), Some(3));
    assert_eq!(find_last("abc", '/'), None);
    assert_eq!(slice("ärger", 1, 3), "rg");
    assert!(ends_with("x/.git/index", ".git/index"));
    assert!(!ends_with("index", ".git/index"));
    assert!(ends_with("abc", ""));
    assert!(!ends_with("x/.git/index2", ".git/index"));
}

#[test]
fn decimal_form_of_numbers() {
    assert_eq!(decimal(0), "0");
    assert_eq!(decimal(9), "9");
    assert_eq!(decimal(10), "10");
    assert_eq!(decimal(1234567890), "1234567890");
    assert_eq!(decimal(u128::MAX), u128::MAX.to_string());
}

#[test]
fn working_dir_status_sorts_staged_from_unstaged() {
    let staged = Delta::from_parts(FileChange::Added(file(1, "a")), false, None);
    let unstaged = Delta::from_parts(FileChange::Deleted(file(2, "b")), false, None);
    let both = Delta::from_parts(FileChange::Untracked(file(3, "c")), true, None);
    let mut status = WorkingDirStatus::new();
    assert!(status.staged_deltas.is_empty() && status.unstaged_deltas.is_empty());
    status.record(Some(staged.clone()), None);
    status.record(None, Some(unstaged.clone()));
    status.record(Some(both.clone()), Some(both.clone()));
    status.record(None, None);
    assert_eq!(status.staged_deltas, vec![staged, both.clone()]);
    assert_eq!(status.unstaged_deltas, vec![unstaged, both]);
}

#[test]
fn commit_contents_leave_out_what_could_not_be_read() {
    let a = Delta::from_parts(FileChange::Added(file(1, "a")), false, None);
    let b = Delta::from_parts(FileChange::Added(file(2, "b")), false, None);
    let contents = CommitContents::new(
        3,
        4,
        vec![
            Ok(a.clone()),
            Err(DeltaReadError::UnsupportedDeltaType),
            Ok(b.clone()),
            Err(DeltaReadError::UnsupportedDeltaType),
        ],
    );
    assert_eq!(contents.insertions, 3);
    assert_eq!(contents.deletions, 4);
    assert_eq!(contents.deltas, vec![a, b]);
}

#[test]
fn change_is_read_from_the_side_that_has_the_line() {
    assert_eq!(
        Change::try_new(Some(7), None, '-'),
        Ok(Change { side: Side::OldFile, line_num: 7, change_type: '-' })
    );
    assert_eq!(
        Change::try_new(None, Some(9), '+'),
        Ok(Change { side: Side::NewFile, line_num: 9, change_type: '+' })
    );
    assert_eq!(Change::try_new(Some(1), Some(1), ' '), Err(()));
}

#[test]
fn diff_gives_each_hunk_the_lines_under_its_header() {
    let change = |n| Change { side: Side::NewFile, line_num: n, change_type: '+' };
    let hunks = vec![
        Hunk::new((1, 2), (1, 3), "@@ -1,2 +1,3 @@".to_string()),
        Hunk::new((9, 1), (10, 0), "@@ -9,1 +10,0 @@".to_string()),
        Hunk::new((20, 1), (20, 1), "@@ empty @@".to_string()),
        Hunk::new((1, 2), (1, 3), "@@ -1,2 +1,3 @@".to_string()),
    ];
    let lines = vec![
        ("@@ -1,2 +1,3 @@".to_string(), change(1)),
        ("@@ -9,1 +10,0 @@".to_string(), change(2)),
        ("@@ -1,2 +1,3 @@".to_string(), change(3)),
        ("@@ other @@".to_string(), change(4)),
    ];
    let diff = DeltaDiff::assemble(Some("old".to_string()), None, hunks, lines);
    assert_eq!(diff.old_file.as_deref(), Some("old"));
    assert_eq!(diff.new_file, None);
    assert_eq!(diff.hunks.len(), 4);
    assert_eq!(diff.hunks[0].changes, vec![change(1), change(3)]);
    assert_eq!(diff.hunks[1].changes, vec![change(2)]);
    assert_eq!(diff.hunks[2].changes, vec![]);
    assert_eq!(diff.hunks[3].changes, vec![]);
    assert_eq!(diff.hunks[1].old_range, (9, 1));
    assert_eq!(diff.hunks[1].new_range, (10, 0));
    assert_eq!(diff.hunks[1].header, "@@ -9,1 +10,0 @@");
}

#[test]
fn content_of_a_file_comes_from_its_blob_or_from_the_working_dir() {
    let stored = file(0x5a, "a");
    assert_eq!(get_file_blob(&stored), Some(BlobSource::Object(Oid::from_bytes([0x5a; 20]))));
    let fresh = File::new(None, "a".to_string());
    assert_eq!(get_file_blob(&fresh), Some(BlobSource::WorkingDir));
    let broken = File { id: "no id".to_string(), path: "a".to_string() };
    assert_eq!(get_file_blob(&broken), None);
}

#[test]
fn each_status_knows_which_files_it_has() {
    let with_old =
        [DeltaStatus::Copied, DeltaStatus::Deleted, DeltaStatus::Modified, DeltaStatus::Renamed];
    let with_new = [
        DeltaStatus::Added,
        DeltaStatus::Copied,
        DeltaStatus::Modified,
        DeltaStatus::Renamed,
        DeltaStatus::Untracked,
    ];
    let all = [
        DeltaStatus::Unmodified,
        DeltaStatus::Added,
        DeltaStatus::Deleted,
        DeltaStatus::Modified,
        DeltaStatus::Renamed,
        DeltaStatus::Copied,
        DeltaStatus::Ignored,
        DeltaStatus::Untracked,
        DeltaStatus::Typechange,
        DeltaStatus::Unreadable,
        DeltaStatus::Conflicted,
    ];
    for status in all {
        assert_eq!(status.reads_old_file(), with_old.contains(&status));
        assert_eq!(status.reads_new_file(), with_new.contains(&status));
    }
}

#[test]
fn every_hex_form_reads_back_as_its_id() {
    let mut bytes = [0u8; 20];
    for (i, byte) in bytes.iter_mut().enumerate() {
        *byte = (i * 13 + 7) as u8;
    }
    for id in [Oid::zero(), Oid::from_bytes([0xff; 20]), Oid::from_bytes(bytes)] {
        assert_eq!(Oid::from_hex(&id.to_hex()), Ok(id));
        let stored = File::new(Some(id), "a".to_string());
        assert_eq!(Oid::from_hex(&stored.id), Ok(id));
    }
}
