use gitgraph::delta::{Delta, File, FileChange};
use gitgraph::diff::Hunk;
use gitgraph::oid::Oid;
use gitgraph::errors::CommitError;
use gitgraph::stage::{
    commit, generate_patch_file, revert_origin, stage, stage_line, unstage, CommitStep,
    IndexAction, LineChange, PatchLine,
};

fn file(path: &str) -> File {
    File::new(Some(Oid::from_bytes([1; 20])), path.to_string())
}

fn delta(change: FileChange) -> Delta {
    Delta::from_parts(change, false, None)
}

fn path(text: &str) -> String {
    text.to_string()
}

#[test]
fn staging_steps_of_each_change() {
    assert_eq!(stage(None), vec![IndexAction::AddAll]);
    assert_eq!(
        stage(Some(&delta(FileChange::Untracked(file("u"))))),
        vec![IndexAction::AddPath(path("u"))]
    );
    assert_eq!(
        stage(Some(&delta(FileChange::Copied(file("a"), file("b"))))),
        vec![IndexAction::AddPath(path("b"))]
    );
    assert_eq!(
        stage(Some(&delta(FileChange::Deleted(file("d"))))),
        vec![IndexAction::RemovePath(path("d"))]
    );
    assert_eq!(
        stage(Some(&delta(FileChange::Renamed(file("old"), file("new"))))),
        vec![IndexAction::RemovePath(path("old")), IndexAction::AddPath(path("new"))]
    );
    assert_eq!(
        stage(Some(&delta(FileChange::Modified(file("a"), file("b"))))),
        vec![IndexAction::AddPath(path("b"))]
    );
}

#[test]
fn unstaging_steps_of_each_change() {
    assert_eq!(unstage(None), vec![IndexAction::ResetAllToHead]);
    assert_eq!(
        unstage(Some(&delta(FileChange::Added(file("n"))))),
        vec![IndexAction::RemovePath(path("n"))]
    );
    assert_eq!(
        unstage(Some(&delta(FileChange::Copied(file("a"), file("b"))))),
        vec![IndexAction::RemovePath(path("b"))]
    );
    assert_eq!(
        unstage(Some(&delta(FileChange::Deleted(file("d"))))),
        vec![IndexAction::RecoverFromHead(path("d"))]
    );
    assert_eq!(
        unstage(Some(&delta(FileChange::Renamed(file("old"), file("new"))))),
        vec![IndexAction::RecoverFromHead(path("old")), IndexAction::RemovePath(path("new"))]
    );
    assert_eq!(
        unstage(Some(&delta(FileChange::Modified(file("a"), file("b"))))),
        vec![IndexAction::ResetPathToHead(path("b"))]
    );
}

#[test]
fn reverted_marks_change_places() {
    assert_eq!(revert_origin('+'), '-');
    assert_eq!(revert_origin('-'), '+');
    assert_eq!(revert_origin('>'), '<');
    assert_eq!(revert_origin('<'), '>');
    assert_eq!(revert_origin(' '), ' ');
    assert_eq!(revert_origin('='), '=');
}

fn diff_lines() -> Vec<PatchLine> {
    vec![
        PatchLine { hunk: Some((1, 2)), origin: '-', content: b"other hunk\n".to_vec() },
        PatchLine { hunk: Some((10, 3)), origin: ' ', content: b"same\n".to_vec() },
        PatchLine { hunk: Some((10, 3)), origin: '-', content: b"gone\n".to_vec() },
        PatchLine { hunk: None, origin: 'F', content: b"file header\n".to_vec() },
        PatchLine { hunk: Some((10, 3)), origin: '+', content: vec![0xff, b'\n'] },
        PatchLine { hunk: Some((10, 4)), origin: '+', content: b"other length\n".to_vec() },
    ]
}

#[test]
fn patch_that_stages_a_hunk() {
    let change = delta(FileChange::Modified(file("src/old.rs"), file("src/new.rs")));
    let hunk = Hunk::new((10, 3), (12, 4), "@@ -10,3 +12,4 @@ context".to_string());
    let patch = generate_patch_file(&change, &hunk, false, &diff_lines());
    let mut expected = b"diff --git a/src/old.rs b/src/new.rs\n--- a/src/old.rs\n+++ b/src/new.rs\n@@ -10,3 +10,4 @@\n same\n-gone\n+".to_vec();
    expected.extend_from_slice(&[0xff, b'\n']);
    assert_eq!(patch, expected);
}

#[test]
fn patch_that_unstages_a_hunk() {
    let change = delta(FileChange::Modified(file("a"), file("a")));
    let hunk = Hunk::new((10, 3), (12, 4), "@@ -10,3 +12,4 @@".to_string());
    let patch = generate_patch_file(&change, &hunk, true, &diff_lines());
    let mut expected =
        b"diff --git a/a b/a\n--- a/a\n+++ b/a\n@@ -12,4 +12,3 @@\n same\n+gone\n-".to_vec();
    expected.extend_from_slice(&[0xff, b'\n']);
    assert_eq!(patch, expected);
}

#[test]
fn patch_without_lines_is_its_header() {
    let change = delta(FileChange::Modified(file("ä"), file("b")));
    let hunk = Hunk::new((0, 0), (1, 4294967295), String::new());
    let patch = generate_patch_file(&change, &hunk, false, &Vec::new());
    assert_eq!(
        patch,
        "diff --git a/ä b/b\n--- a/ä\n+++ b/b\n@@ -0,0 +0,4294967295 @@\n".as_bytes().to_vec()
    );
}

#[test]
fn patch_mark_that_is_no_ascii_is_written_as_utf8() {
    let change = delta(FileChange::Modified(file("a"), file("a")));
    let hunk = Hunk::new((1, 1), (1, 1), String::new());
    let lines = vec![PatchLine { hunk: Some((1, 1)), origin: 'é', content: b"x".to_vec() }];
    let patch = generate_patch_file(&change, &hunk, false, &lines);
    assert!(patch.ends_with("@@ -1,1 +1,1 @@\néx".as_bytes()));
}

fn add(after: usize, content: &str) -> LineChange {
    LineChange::Add { after, content: content.to_string() }
}

#[test]
fn staged_line_is_added_in_front_of_its_line() {
    let content = b"a\nb\nc".to_vec();
    assert_eq!(stage_line(&content, &add(1, "x\n")), b"a\nx\nb\nc".to_vec());
    assert_eq!(stage_line(&content, &add(0, "x\n")), b"x\na\nb\nc".to_vec());
    assert_eq!(stage_line(&content, &add(2, "x")), b"a\nb\nxc".to_vec());
    assert_eq!(stage_line(&content, &add(3, "x\n")), content);
}

#[test]
fn staged_line_is_added_to_the_empty_last_line() {
    assert_eq!(stage_line(&b"a\n".to_vec(), &add(1, "b\n")), b"a\nb\n".to_vec());
    assert_eq!(stage_line(&Vec::new(), &add(0, "first\n")), b"first\n".to_vec());
}

#[test]
fn staged_line_is_removed_with_its_line_feed() {
    let content = b"a\nb\nc".to_vec();
    assert_eq!(stage_line(&content, &LineChange::Remove(1)), b"b\nc".to_vec());
    assert_eq!(stage_line(&content, &LineChange::Remove(2)), b"a\nc".to_vec());
    assert_eq!(stage_line(&content, &LineChange::Remove(3)), b"a\nb".to_vec());
    assert_eq!(stage_line(&content, &LineChange::Remove(4)), content);
    assert_eq!(stage_line(&b"a\n".to_vec(), &LineChange::Remove(1)), Vec::<u8>::new());
    assert_eq!(stage_line(&b"a\n".to_vec(), &LineChange::Remove(2)), b"a".to_vec());
    assert_eq!(stage_line(&Vec::new(), &LineChange::Remove(1)), Vec::<u8>::new());
    assert_eq!(stage_line(&b"\n\n".to_vec(), &LineChange::Remove(2)), b"\n".to_vec());
}

#[test]
fn commit_amends_only_where_head_has_a_commit() {
    assert_eq!(commit(true, true), Ok(CommitStep::Amend));
    assert_eq!(commit(false, true), Err(CommitError::NeedCommitToAmend));
    assert_eq!(commit(true, false), Ok(CommitStep::OnHead));
    assert_eq!(commit(false, false), Ok(CommitStep::Root));
}
