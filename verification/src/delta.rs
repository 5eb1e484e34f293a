//! Changes to files between two trees.

use crate::git::hex_of;
use crate::oid::{Oid, OID_LEN};
use crate::text::{extension, extension_of, text_of};
use vstd::prelude::*;

verus! {

/// Why a change could not be read.
#[derive(Clone, Copy, Debug, PartialEq, Eq)]
pub enum DeltaReadError {
    UnsupportedDeltaType,
}

/// One side of a change: a file by its path and the id of its blob, in
/// hexadecimal form.
#[derive(Clone, Debug, PartialEq, Eq)]
pub struct File {
    pub id: String,
    pub path: String,
}

impl File {
    /// The file at `path` with the given blob. Without a valid id the file
    /// gets the id whose bytes are all zero.
    pub fn new(id: Option<Oid>, path: String) -> (file: File)
        ensures
            file.path == path,
            file.id@ == hex_of(
                match id {
                    Some(id) => id@,
                    None => Seq::new(OID_LEN as nat, |i: int| 0u8),
                },
            ),
    {
        let id = match id {
            Some(id) => id.to_hex(),
            None => Oid::zero().to_hex(),
        };
        File { id, path }
    }
}

/// What happened to a file, with the file before and after as far as there
/// is one.
#[derive(Clone, Debug, PartialEq, Eq)]
pub enum FileChange {
    Added(File),
    Untracked(File),
    /// The file it was copied from, and the copy.
    Copied(File, File),
    Deleted(File),
    /// The file under its old name, and under its new one.
    Renamed(File, File),
    /// The file before and after the change.
    Modified(File, File),
}

impl FileChange {
    /// The file after the change; for a deleted file, the file itself.
    pub open spec fn newest(self) -> File {
        match self {
            FileChange::Added(file) => file,
            FileChange::Untracked(file) => file,
            FileChange::Copied(_, file) => file,
            FileChange::Deleted(file) => file,
            FileChange::Renamed(_, file) => file,
            FileChange::Modified(_, file) => file,
        }
    }

    /// The file before the change; for a new file, the file itself.
    pub open spec fn oldest(self) -> File {
        match self {
            FileChange::Added(file) => file,
            FileChange::Untracked(file) => file,
            FileChange::Copied(file, _) => file,
            FileChange::Deleted(file) => file,
            FileChange::Renamed(file, _) => file,
            FileChange::Modified(file, _) => file,
        }
    }

    /// The file before the change, if there was one.
    pub open spec fn before(self) -> Option<File> {
        match self {
            FileChange::Added(_) => None,
            FileChange::Untracked(_) => None,
            FileChange::Copied(old, _) => Some(old),
            FileChange::Deleted(old) => Some(old),
            FileChange::Renamed(old, _) => Some(old),
            FileChange::Modified(old, _) => Some(old),
        }
    }

    /// The file after the change, if there is one.
    pub open spec fn after(self) -> Option<File> {
        match self {
            FileChange::Added(new) => Some(new),
            FileChange::Untracked(new) => Some(new),
            FileChange::Copied(_, new) => Some(new),
            FileChange::Deleted(_) => None,
            FileChange::Renamed(_, new) => Some(new),
            FileChange::Modified(_, new) => Some(new),
        }
    }

    pub fn get_newest_file(&self) -> (file: &File)
        ensures
            *file == self.newest(),
    {
        match self {
            FileChange::Added(f) => f,
            FileChange::Untracked(f) => f,
            FileChange::Copied(_, f) => f,
            FileChange::Deleted(f) => f,
            FileChange::Renamed(_, f) => f,
            FileChange::Modified(_, f) => f,
        }
    }

    pub fn get_oldest_file(&self) -> (file: &File)
        ensures
            *file == self.oldest(),
    {
        match self {
            FileChange::Added(f) => f,
            FileChange::Untracked(f) => f,
            FileChange::Copied(f, _) => f,
            FileChange::Deleted(f) => f,
            FileChange::Renamed(f, _) => f,
            FileChange::Modified(f, _) => f,
        }
    }

    /// The file before and the file after the change.
    pub fn get_files(&self) -> (files: (Option<&File>, Option<&File>))
        ensures
            match files.0 {
                Some(old) => self.before() == Some(*old),
                None => self.before() is None,
            },
            match files.1 {
                Some(new) => self.after() == Some(*new),
                None => self.after() is None,
            },
    {
        match self {
            FileChange::Added(new) => (None, Some(new)),
            FileChange::Untracked(new) => (None, Some(new)),
            FileChange::Copied(old, new) => (Some(old), Some(new)),
            FileChange::Deleted(old) => (Some(old), None),
            FileChange::Renamed(old, new) => (Some(old), Some(new)),
            FileChange::Modified(old, new) => (Some(old), Some(new)),
        }
    }
}

/// How the object store classifies a change.
#[derive(Clone, Copy, Debug, PartialEq, Eq, Structural)]
pub enum DeltaStatus {
    Unmodified,
    Added,
    Deleted,
    Modified,
    Renamed,
    Copied,
    Ignored,
    Untracked,
    Typechange,
    Unreadable,
    Conflicted,
}

impl DeltaStatus {
    /// Whether a change of this status has a file before it.
    pub open spec fn has_old_file(self) -> bool {
        self == DeltaStatus::Copied || self == DeltaStatus::Deleted || self
            == DeltaStatus::Modified || self == DeltaStatus::Renamed
    }

    /// Whether a change of this status has a file after it.
    pub open spec fn has_new_file(self) -> bool {
        self == DeltaStatus::Added || self == DeltaStatus::Copied || self == DeltaStatus::Modified
            || self == DeltaStatus::Renamed || self == DeltaStatus::Untracked
    }

    /// Whether a change of this status has a file before it.
    pub fn reads_old_file(self) -> (reads: bool)
        ensures
            reads == self.has_old_file(),
    {
        match self {
            DeltaStatus::Copied | DeltaStatus::Deleted | DeltaStatus::Modified
            | DeltaStatus::Renamed => true,
            _ => false,
        }
    }

    /// Whether a change of this status has a file after it.
    pub fn reads_new_file(self) -> (reads: bool)
        ensures
            reads == self.has_new_file(),
    {
        match self {
            DeltaStatus::Added | DeltaStatus::Copied | DeltaStatus::Modified | DeltaStatus::Renamed
            | DeltaStatus::Untracked => true,
            _ => false,
        }
    }
}

/// The change that a status stands for, given the file before and after as
/// far as the change has them; nothing for a status that is not supported.
pub open spec fn change_of(status: DeltaStatus, old_file: Option<File>, new_file: Option<File>) -> Option<
    FileChange,
> {
    match status {
        DeltaStatus::Added => Some(FileChange::Added(new_file.unwrap())),
        DeltaStatus::Copied => Some(FileChange::Copied(old_file.unwrap(), new_file.unwrap())),
        DeltaStatus::Deleted => Some(FileChange::Deleted(old_file.unwrap())),
        DeltaStatus::Modified => Some(FileChange::Modified(old_file.unwrap(), new_file.unwrap())),
        DeltaStatus::Renamed => Some(FileChange::Renamed(old_file.unwrap(), new_file.unwrap())),
        DeltaStatus::Untracked => Some(FileChange::Untracked(new_file.unwrap())),
        _ => None,
    }
}

/// The media type that belongs to a file extension, if the extension is a
/// known one.
pub uninterp spec fn media_type_of(extension: Seq<char>) -> Option<Seq<char>>;

/// Calls `rocket::http::ContentType::from_extension`, which looks the
/// extension up in a fixed table without regard to case, and formats what it
/// finds with the `Display` impl of the content type. The result depends on
/// the extension alone; the contract gives it the name `media_type_of` and
/// claims nothing else.
#[verifier::external_body]
fn media_type_for(extension: &str) -> (media: Option<String>)
    ensures
        text_of(media) == media_type_of(extension@),
{
    match rocket::http::ContentType::from_extension(extension) {
        Some(kind) => Some(kind.to_string()),
        None => None,
    }
}

/// The media type of a path: that of its extension, if it has one.
pub open spec fn media_type_of_path(path: Seq<char>) -> Option<Seq<char>> {
    match extension_of(path) {
        Some(extension) => media_type_of(extension),
        None => None,
    }
}

/// A change with what is known of its content.
#[derive(Clone, Debug, PartialEq, Eq)]
pub struct Delta {
    pub change: FileChange,
    /// Whether the content is binary.
    pub binary: bool,
    /// The media type of the content, if it is known.
    pub mime_type: Option<String>,
}

impl Delta {
    /// A change whose media type the caller already holds.
    pub fn from_parts(change: FileChange, binary: bool, mime_type: Option<String>) -> (delta: Delta)
        ensures
            delta == (Delta { change, binary, mime_type }),
    {
        Delta { change, binary, mime_type }
    }

    /// Reads a change from its status and its files. The media type is that
    /// of the extension of the newest file's path. Fails for a status that
    /// is not supported.
    ///
    /// A change of a supported status comes with the files that the status
    /// has.
    pub fn try_new(
        status: DeltaStatus,
        old_file: Option<File>,
        new_file: Option<File>,
        binary: bool,
    ) -> (read: Result<Delta, DeltaReadError>)
        requires
            status.has_old_file() ==> old_file is Some,
            status.has_new_file() ==> new_file is Some,
        ensures
            match read {
                Ok(delta) => change_of(status, old_file, new_file) == Some(delta.change)
                    && delta.binary == binary && text_of(delta.mime_type) == media_type_of_path(
                    delta.change.newest().path@,
                ),
                Err(error) => change_of(status, old_file, new_file) is None,
            },
    {
        let change = match (status, old_file, new_file) {
            (DeltaStatus::Added, _, Some(new)) => FileChange::Added(new),
            (DeltaStatus::Copied, Some(old), Some(new)) => FileChange::Copied(old, new),
            (DeltaStatus::Deleted, Some(old), _) => FileChange::Deleted(old),
            (DeltaStatus::Modified, Some(old), Some(new)) => FileChange::Modified(old, new),
            (DeltaStatus::Renamed, Some(old), Some(new)) => FileChange::Renamed(old, new),
            (DeltaStatus::Untracked, _, Some(new)) => FileChange::Untracked(new),
            _ => {
                return Err(DeltaReadError::UnsupportedDeltaType);
            },
        };
        let mime_type = match extension(change.get_newest_file().path.as_str()) {
            Some(found) => media_type_for(found.as_str()),
            None => None,
        };
        Ok(Delta::from_parts(change, binary, mime_type))
    }
}

/// The changes of the working directory: those not yet staged, and those
/// staged for the next commit.
#[derive(Clone, Debug, PartialEq, Eq)]
pub struct WorkingDirStatus {
    pub unstaged_deltas: Vec<Delta>,
    pub staged_deltas: Vec<Delta>,
}

impl WorkingDirStatus {
    /// A status without changes.
    pub fn new() -> (status: WorkingDirStatus)
        ensures
            status.unstaged_deltas@ == Seq::<Delta>::empty(),
            status.staged_deltas@ == Seq::<Delta>::empty(),
    {
        WorkingDirStatus { unstaged_deltas: Vec::new(), staged_deltas: Vec::new() }
    }

    /// Takes in one entry of the status list: its change between HEAD and
    /// the index is staged, its change between the index and the working
    /// directory is not.
    pub fn record(&mut self, head_to_index: Option<Delta>, index_to_workdir: Option<Delta>)
        ensures
            final(self).staged_deltas@ == match head_to_index {
                Some(delta) => old(self).staged_deltas@.push(delta),
                None => old(self).staged_deltas@,
            },
            final(self).unstaged_deltas@ == match index_to_workdir {
                Some(delta) => old(self).unstaged_deltas@.push(delta),
                None => old(self).unstaged_deltas@,
            },
    {
        match head_to_index {
            Some(delta) => {
                self.staged_deltas.push(delta);
            },
            None => {},
        }
        match index_to_workdir {
            Some(delta) => {
                self.unstaged_deltas.push(delta);
            },
            None => {},
        }
    }
}

/// The changes that were read, in their order: the first `upto` results
/// without the failures.
pub open spec fn readable(results: Seq<Result<Delta, DeltaReadError>>, upto: int) -> Seq<Delta>
    decreases upto,
{
    if upto <= 0 {
        Seq::empty()
    } else {
        let before = readable(results, upto - 1);
        match results[upto - 1] {
            Ok(delta) => before.push(delta),
            Err(_) => before,
        }
    }
}

/// What a commit changed.
#[derive(Clone, Debug, PartialEq, Eq)]
pub struct CommitContents {
    pub insertions: usize,
    pub deletions: usize,
    pub deltas: Vec<Delta>,
}

impl CommitContents {
    /// The contents of a commit from the counts of its diff and the changes
    /// as they were read. A change that could not be read is left out.
    pub fn new(
        insertions: usize,
        deletions: usize,
        results: Vec<Result<Delta, DeltaReadError>>,
    ) -> (contents: CommitContents)
        ensures
            contents.insertions == insertions,
            contents.deletions == deletions,
            contents.deltas@ == readable(results@, results@.len() as int),
    {
        let ghost all = results@;
        let mut deltas: Vec<Delta> = Vec::new();
        for result in it: results
            invariant
                it.seq() == all,
                deltas@ == readable(all, it.index()),
        {
            match result {
                Ok(delta) => {
                    deltas.push(delta);
                },
                Err(_) => {},
            }
        }
        CommitContents { insertions, deletions, deltas }
    }
}

} // verus!
