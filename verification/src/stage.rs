//! Staging and unstaging: which steps on the index a change asks for, the
//! patch that stages one hunk, and the content that stages one line.

use crate::delta::{Delta, FileChange};
use crate::diff::Hunk;
use crate::errors::CommitError;
use crate::text::{append_bytes, decimal, decimal_of, push_char};
use vstd::prelude::*;
use vstd::string::*;
use vstd::utf8::encode_utf8;

verus! {

/// One step on the index.
#[derive(Clone, Debug, PartialEq, Eq)]
pub enum IndexAction {
    /// Add the file at this path as it is in the working directory.
    AddPath(String),
    /// Add every file of the working directory.
    AddAll,
    /// Remove the entry at this path.
    RemovePath(String),
    /// Put back the entry at this path as it is in HEAD.
    RecoverFromHead(String),
    /// Set the content of the entry at this path to what HEAD holds.
    ResetPathToHead(String),
    /// Set the whole index to the tree of HEAD.
    ResetAllToHead,
}

/// The steps that stage a change, in their order; without a change,
/// everything is staged.
pub open spec fn stage_steps(delta: Option<Delta>) -> Seq<IndexAction> {
    match delta {
        None => seq![IndexAction::AddAll],
        Some(delta) => match delta.change {
            FileChange::Untracked(file) => seq![IndexAction::AddPath(file.path)],
            FileChange::Copied(_, file) => seq![IndexAction::AddPath(file.path)],
            FileChange::Deleted(file) => seq![IndexAction::RemovePath(file.path)],
            FileChange::Renamed(old, new) => seq![
                IndexAction::RemovePath(old.path),
                IndexAction::AddPath(new.path),
            ],
            FileChange::Modified(_, file) => seq![IndexAction::AddPath(file.path)],
            FileChange::Added(_) => seq![],
        },
    }
}

/// The steps that unstage a change, in their order; without a change,
/// everything is unstaged.
pub open spec fn unstage_steps(delta: Option<Delta>) -> Seq<IndexAction> {
    match delta {
        None => seq![IndexAction::ResetAllToHead],
        Some(delta) => match delta.change {
            FileChange::Added(file) => seq![IndexAction::RemovePath(file.path)],
            FileChange::Copied(_, file) => seq![IndexAction::RemovePath(file.path)],
            FileChange::Deleted(file) => seq![IndexAction::RecoverFromHead(file.path)],
            FileChange::Renamed(old, new) => seq![
                IndexAction::RecoverFromHead(old.path),
                IndexAction::RemovePath(new.path),
            ],
            FileChange::Modified(_, file) => seq![IndexAction::ResetPathToHead(file.path)],
            FileChange::Untracked(_) => seq![],
        },
    }
}

/// The steps on the index that stage a change. The caller takes them in
/// order and stops at the first that fails.
///
/// A file that was added is staged already: such a change cannot be staged.
pub fn stage(delta: Option<&Delta>) -> (steps: Vec<IndexAction>)
    requires
        delta matches Some(change) ==> !(change.change is Added),
    ensures
        steps@ == stage_steps(
            match delta {
                Some(change) => Some(*change),
                None => None,
            },
        ),
{
    let mut steps: Vec<IndexAction> = Vec::new();
    match delta {
        None => {
            steps.push(IndexAction::AddAll);
        },
        Some(delta) => match &delta.change {
            FileChange::Untracked(file) => {
                steps.push(IndexAction::AddPath(file.path.clone()));
            },
            FileChange::Copied(_, file) => {
                steps.push(IndexAction::AddPath(file.path.clone()));
            },
            FileChange::Deleted(file) => {
                steps.push(IndexAction::RemovePath(file.path.clone()));
            },
            FileChange::Renamed(old, new) => {
                steps.push(IndexAction::RemovePath(old.path.clone()));
                steps.push(IndexAction::AddPath(new.path.clone()));
            },
            FileChange::Modified(_, file) => {
                steps.push(IndexAction::AddPath(file.path.clone()));
            },
            FileChange::Added(_) => {},
        },
    }
    assert(steps@ =~= stage_steps(
        match delta {
            Some(change) => Some(*change),
            None => None,
        },
    ));
    steps
}

/// The steps on the index that unstage a change. The caller takes them in
/// order and stops at the first that fails.
///
/// An untracked file is not staged: such a change cannot be unstaged.
pub fn unstage(delta: Option<&Delta>) -> (steps: Vec<IndexAction>)
    requires
        delta matches Some(change) ==> !(change.change is Untracked),
    ensures
        steps@ == unstage_steps(
            match delta {
                Some(change) => Some(*change),
                None => None,
            },
        ),
{
    let mut steps: Vec<IndexAction> = Vec::new();
    match delta {
        None => {
            steps.push(IndexAction::ResetAllToHead);
        },
        Some(delta) => match &delta.change {
            FileChange::Added(file) => {
                steps.push(IndexAction::RemovePath(file.path.clone()));
            },
            FileChange::Copied(_, file) => {
                steps.push(IndexAction::RemovePath(file.path.clone()));
            },
            FileChange::Deleted(file) => {
                steps.push(IndexAction::RecoverFromHead(file.path.clone()));
            },
            FileChange::Renamed(old, new) => {
                steps.push(IndexAction::RecoverFromHead(old.path.clone()));
                steps.push(IndexAction::RemovePath(new.path.clone()));
            },
            FileChange::Modified(_, file) => {
                steps.push(IndexAction::ResetPathToHead(file.path.clone()));
            },
            FileChange::Untracked(_) => {},
        },
    }
    assert(steps@ =~= unstage_steps(
        match delta {
            Some(change) => Some(*change),
            None => None,
        },
    ));
    steps
}

/// How the index becomes a commit.
#[derive(Clone, Copy, Debug, PartialEq, Eq, Structural)]
pub enum CommitStep {
    /// Replace the commit of HEAD.
    Amend,
    /// A new commit whose parent is the commit of HEAD.
    OnHead,
    /// A new commit without a parent.
    Root,
}

/// How the index becomes a commit: to amend, HEAD must have a commit; a new
/// commit goes on top of the commit of HEAD, or is a root without one.
pub fn commit(has_head_commit: bool, amend: bool) -> (step: Result<CommitStep, CommitError>)
    ensures
        step == if amend {
            if has_head_commit {
                Ok::<CommitStep, CommitError>(CommitStep::Amend)
            } else {
                Err::<CommitStep, CommitError>(CommitError::NeedCommitToAmend)
            }
        } else if has_head_commit {
            Ok::<CommitStep, CommitError>(CommitStep::OnHead)
        } else {
            Ok::<CommitStep, CommitError>(CommitStep::Root)
        },
{
    if amend {
        if has_head_commit {
            Ok(CommitStep::Amend)
        } else {
            Err(CommitError::NeedCommitToAmend)
        }
    } else if has_head_commit {
        Ok(CommitStep::OnHead)
    } else {
        Ok(CommitStep::Root)
    }
}

/// The mark of a line in the patch that goes the other way: additions and
/// removals change places, and so do the two marks of a missing newline at
/// the end of the file.
pub open spec fn reverted(origin: char) -> char {
    if origin == '+' {
        '-'
    } else if origin == '-' {
        '+'
    } else if origin == '>' {
        '<'
    } else if origin == '<' {
        '>'
    } else {
        origin
    }
}

pub fn revert_origin(origin: char) -> (mark: char)
    ensures
        mark == reverted(origin),
{
    match origin {
        '+' => '-',
        '-' => '+',
        '>' => '<',
        '<' => '>',
        c => c,
    }
}

/// One line of a diff as the object store reports it: the old range of the
/// hunk it belongs to, if it belongs to one, its mark and its content.
#[derive(Debug, PartialEq, Eq)]
pub struct PatchLine {
    /// First line and number of lines of the hunk in the old file.
    pub hunk: Option<(u32, u32)>,
    pub origin: char,
    pub content: Vec<u8>,
}

/// The four header lines of a patch for one hunk of one file.
pub open spec fn patch_header(
    old_path: Seq<char>,
    new_path: Seq<char>,
    start: u32,
    old_length: u32,
    new_length: u32,
) -> Seq<char> {
    "diff --git a/"@ + old_path + " b/"@ + new_path + "\n"@ + "--- a/"@ + old_path + "\n"@
        + "+++ b/"@ + new_path + "\n"@ + "@@ -"@ + decimal_of(start as nat) + ","@ + decimal_of(
        old_length as nat,
    ) + " +"@ + decimal_of(start as nat) + ","@ + decimal_of(new_length as nat) + " @@\n"@
}

/// The mark of a line in a patch: as reported, or reverted.
pub open spec fn patch_mark(origin: char, revert: bool) -> char {
    if revert {
        reverted(origin)
    } else {
        origin
    }
}

/// The body of a patch: of the first `upto` lines, those of the hunk with
/// the given old range, each as its mark followed by its content.
pub open spec fn patch_body(lines: Seq<PatchLine>, range: (u32, u32), revert: bool, upto: int) -> Seq<
    u8,
>
    decreases upto,
{
    if upto <= 0 {
        Seq::empty()
    } else {
        let before = patch_body(lines, range, revert, upto - 1);
        let line = lines[upto - 1];
        if line.hunk == Some(range) {
            before + encode_utf8(seq![patch_mark(line.origin, revert)]) + line.content@
        } else {
            before
        }
    }
}

/// The patch that stages one hunk of a modified file, or unstages it if
/// `revert` is set. The header names the old and the new path. Its range
/// line starts both sides at the start of the hunk, in the old file to
/// stage and in the new file to unstage, and carries the two lengths of the
/// hunk, swapped to unstage.
pub open spec fn patch_of(
    old_path: Seq<char>,
    new_path: Seq<char>,
    hunk: Hunk,
    revert: bool,
    lines: Seq<PatchLine>,
) -> Seq<u8> {
    let start = if revert {
        hunk.new_range.0
    } else {
        hunk.old_range.0
    };
    let old_length = if revert {
        hunk.new_range.1
    } else {
        hunk.old_range.1
    };
    let new_length = if revert {
        hunk.old_range.1
    } else {
        hunk.new_range.1
    };
    encode_utf8(patch_header(old_path, new_path, start, old_length, new_length)) + patch_body(
        lines,
        hunk.old_range,
        revert,
        lines.len() as int,
    )
}

/// The header lines of a patch.
fn header_text(old_path: &str, new_path: &str, start: u32, old_length: u32, new_length: u32) -> (text:
    String)
    ensures
        text@ == patch_header(old_path@, new_path@, start, old_length, new_length),
{
    let mut text = String::from_str("diff --git a/");
    text.append(old_path);
    text.append(" b/");
    text.append(new_path);
    text.append("\n");
    text.append("--- a/");
    text.append(old_path);
    text.append("\n");
    text.append("+++ b/");
    text.append(new_path);
    text.append("\n");
    text.append("@@ -");
    text.append(decimal(start as u128).as_str());
    text.append(",");
    text.append(decimal(old_length as u128).as_str());
    text.append(" +");
    text.append(decimal(start as u128).as_str());
    text.append(",");
    text.append(decimal(new_length as u128).as_str());
    text.append(" @@\n");
    text
}

/// The patch that stages one hunk of a modified file, or unstages it if
/// `revert` is set, from the lines of the diff of the file.
///
/// Only a modified file has hunks to stage.
pub fn generate_patch_file(delta: &Delta, hunk: &Hunk, revert: bool, lines: &Vec<PatchLine>) -> (patch:
    Vec<u8>)
    requires
        delta.change is Modified,
    ensures
        patch@ == patch_of(
            delta.change.oldest().path@,
            delta.change.newest().path@,
            *hunk,
            revert,
            lines@,
        ),
{
    let old_path = delta.change.get_oldest_file().path.as_str();
    let new_path = delta.change.get_newest_file().path.as_str();
    let (old_start, old_length) = hunk.old_range;
    let (new_start, new_length) = hunk.new_range;
    let hunk_start = if revert {
        new_start
    } else {
        old_start
    };
    let hunk_old_length = if revert {
        new_length
    } else {
        old_length
    };
    let hunk_new_length = if revert {
        old_length
    } else {
        new_length
    };
    let header = header_text(old_path, new_path, hunk_start, hunk_old_length, hunk_new_length);
    let mut patch = header.as_str().as_bytes_vec();
    let ghost head = patch@;
    let mut i: usize = 0;
    while i < lines.len()
        invariant
            i <= lines.len(),
            patch@ == head + patch_body(lines@, hunk.old_range, revert, i as int),
        decreases lines.len() - i,
    {
        let line = &lines[i];
        let selected = match line.hunk {
            Some(range) => range.0 == hunk.old_range.0 && range.1 == hunk.old_range.1,
            None => false,
        };
        if selected {
            let mark = if revert {
                revert_origin(line.origin)
            } else {
                line.origin
            };
            let mut origin = String::new();
            push_char(&mut origin, mark);
            assert(origin@ =~= seq![patch_mark(line.origin, revert)]);
            let mark_bytes = origin.as_str().as_bytes_vec();
            append_bytes(&mut patch, &mark_bytes);
            append_bytes(&mut patch, &line.content);
            assert(patch@ =~= head + patch_body(lines@, hunk.old_range, revert, i + 1));
        }
        i += 1;
    }
    patch
}


/// A change to one line of a file.
#[derive(Clone, Debug, PartialEq, Eq)]
pub enum LineChange {
    /// Put `content` in front of the line with index `after`, counted from
    /// zero.
    Add { after: usize, content: String },
    /// Take out the line with this number, counted from one.
    Remove(usize),
}

/// The lines of the first `upto` bytes: a line feed ends a line, so there is
/// one line more than there are line feeds.
pub open spec fn lines_upto(bytes: Seq<u8>, upto: int) -> Seq<Seq<u8>>
    decreases upto,
{
    if upto <= 0 {
        seq![Seq::empty()]
    } else {
        let before = lines_upto(bytes, upto - 1);
        if bytes[upto - 1] == 10u8 {
            before.push(Seq::empty())
        } else {
            before.update(before.len() - 1, before.last().push(bytes[upto - 1]))
        }
    }
}

/// The lines of a content, without their line feeds.
pub open spec fn split_lines(bytes: Seq<u8>) -> Seq<Seq<u8>> {
    lines_upto(bytes, bytes.len() as int)
}

/// The first `upto` lines with a line feed between each two.
pub open spec fn join_upto(lines: Seq<Seq<u8>>, upto: int) -> Seq<u8>
    decreases upto,
{
    if upto <= 0 {
        Seq::empty()
    } else if upto == 1 {
        lines[0]
    } else {
        join_upto(lines, upto - 1).push(10u8) + lines[upto - 1]
    }
}

/// The index of the line that a change is about, counted from zero.
pub open spec fn target_line(change: LineChange) -> int {
    match change {
        LineChange::Add { after, .. } => after as int,
        LineChange::Remove(line) => line - 1,
    }
}

/// The lines after a change: the content of an addition stands in front of
/// its line, a removed line is gone. A change about a line that is not there
/// changes nothing.
pub open spec fn changed_lines(lines: Seq<Seq<u8>>, change: LineChange) -> Seq<Seq<u8>> {
    let target = target_line(change);
    if target < 0 || target >= lines.len() {
        lines
    } else {
        match change {
            LineChange::Add { content, .. } => lines.update(
                target,
                encode_utf8(content@) + lines[target],
            ),
            LineChange::Remove(_) => lines.remove(target),
        }
    }
}

/// The content of a file after a change to one of its lines.
pub open spec fn staged_content(content: Seq<u8>, change: LineChange) -> Seq<u8> {
    let lines = changed_lines(split_lines(content), change);
    join_upto(lines, lines.len() as int)
}

/// The bytes of each line.
pub open spec fn line_views(lines: Seq<Vec<u8>>) -> Seq<Seq<u8>> {
    lines.map_values(|line: Vec<u8>| line@)
}

/// The lines of a content.
fn split(content: &Vec<u8>) -> (lines: Vec<Vec<u8>>)
    ensures
        line_views(lines@) == split_lines(content@),
        lines@.len() >= 1,
{
    let mut done: Vec<Vec<u8>> = Vec::new();
    let mut current: Vec<u8> = Vec::new();
    let mut i: usize = 0;
    while i < content.len()
        invariant
            i <= content.len(),
            line_views(done@).push(current@) == lines_upto(content@, i as int),
        decreases content.len() - i,
    {
        let ghost before = lines_upto(content@, i as int);
        let byte = content[i];
        if byte == 10u8 {
            let ghost ended = done@;
            done.push(current);
            current = Vec::new();
            assert(line_views(done@) =~= before);
            assert(line_views(done@).push(current@) =~= lines_upto(content@, i + 1));
        } else {
            current.push(byte);
            assert(line_views(done@).push(current@) =~= lines_upto(content@, i + 1));
        }
        i += 1;
    }
    let ghost ended = done@;
    done.push(current);
    assert(line_views(done@) =~= line_views(ended).push(current@));
    done
}

/// The lines with a line feed between each two.
fn join(lines: &Vec<Vec<u8>>) -> (bytes: Vec<u8>)
    ensures
        bytes@ == join_upto(line_views(lines@), lines@.len() as int),
{
    let mut bytes: Vec<u8> = Vec::new();
    let mut k: usize = 0;
    while k < lines.len()
        invariant
            k <= lines.len(),
            bytes@ == join_upto(line_views(lines@), k as int),
        decreases lines.len() - k,
    {
        if k > 0 {
            bytes.push(10u8);
        }
        append_bytes(&mut bytes, &lines[k]);
        assert(line_views(lines@)[k as int] == lines@[k as int]@);
        assert(bytes@ =~= join_upto(line_views(lines@), k + 1));
        k += 1;
    }
    bytes
}

/// The content of a file after a change to one of its lines: what goes
/// into the index to stage that change alone.
///
/// Lines are numbered from one: there is no line zero to remove.
pub fn stage_line(content: &Vec<u8>, change: &LineChange) -> (staged: Vec<u8>)
    requires
        *change matches LineChange::Remove(line) ==> line >= 1,
    ensures
        staged@ == staged_content(content@, *change),
{
    let mut lines = split(content);
    let ghost before = lines@;
    match change {
        LineChange::Add { after, content: added } => {
            if *after < lines.len() {
                let mut line = added.as_str().as_bytes_vec();
                append_bytes(&mut line, &lines[*after]);
                lines[*after] = line;
                assert(line_views(lines@) =~= changed_lines(line_views(before), *change));
            }
        },
        LineChange::Remove(number) => {
            if *number - 1 < lines.len() {
                lines.remove(*number - 1);
                assert(line_views(lines@) =~= changed_lines(line_views(before), *change));
            }
        },
    }
    join(&lines)
}

} // verus!
