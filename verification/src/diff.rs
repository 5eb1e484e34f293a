//! The lines and hunks of a change, and where the content of a file comes
//! from.

use crate::delta::File;
use crate::git::parsed_oid;
use crate::oid::{Oid, OID_LEN};
use vstd::prelude::*;

verus! {

/// The side of a change on which a line stands.
#[derive(Clone, Copy, Debug, PartialEq, Eq, Structural)]
pub enum Side {
    OldFile,
    NewFile,
}

/// One changed line: its side, its number on that side, and the mark of
/// the change (`+`, `-`, ...).
#[derive(Clone, Copy, Debug, PartialEq, Eq, Structural)]
pub struct Change {
    pub side: Side,
    pub line_num: u32,
    pub change_type: char,
}

impl Change {
    /// Reads a line of a diff from its numbers in the old and in the new
    /// file and its mark. A line of only one file is a change on that side.
    /// A line of both files is context and gives an error.
    ///
    /// A line of both files whose mark is not a blank, and a line of neither
    /// file, are no lines of a diff.
    pub fn try_new(old_lineno: Option<u32>, new_lineno: Option<u32>, origin: char) -> (read: Result<
        Change,
        (),
    >)
        requires
            old_lineno is Some || new_lineno is Some,
            old_lineno is Some && new_lineno is Some ==> origin == ' ',
        ensures
            match read {
                Ok(change) => change == match old_lineno {
                    Some(line) => Change { side: Side::OldFile, line_num: line, change_type: origin },
                    None => Change {
                        side: Side::NewFile,
                        line_num: new_lineno.unwrap(),
                        change_type: origin,
                    },
                } && !(old_lineno is Some && new_lineno is Some),
                Err(_) => old_lineno is Some && new_lineno is Some,
            },
    {
        match (old_lineno, new_lineno) {
            (Some(_), Some(_)) => Err(()),
            (Some(line), None) => Ok(
                Change { side: Side::OldFile, line_num: line, change_type: origin },
            ),
            (None, Some(line)) => Ok(
                Change { side: Side::NewFile, line_num: line, change_type: origin },
            ),
            (None, None) => Err(()),
        }
    }
}

/// A run of changed lines: where it starts and how many lines it spans in
/// the old and in the new file, its header line, and its changes.
#[derive(Debug, PartialEq, Eq)]
pub struct Hunk {
    /// First line and number of lines in the old file.
    pub old_range: (u32, u32),
    /// First line and number of lines in the new file.
    pub new_range: (u32, u32),
    pub header: String,
    pub changes: Vec<Change>,
}

impl Hunk {
    /// A hunk without changes.
    pub fn new(old_range: (u32, u32), new_range: (u32, u32), header: String) -> (hunk: Hunk)
        ensures
            hunk.old_range == old_range,
            hunk.new_range == new_range,
            hunk.header == header,
            hunk.changes@ == Seq::<Change>::empty(),
    {
        Hunk { old_range, new_range, header, changes: Vec::new() }
    }
}

/// The changed lines among the first `upto` lines that stand under the
/// given hunk header, in their order.
pub open spec fn changes_under(lines: Seq<(String, Change)>, header: Seq<char>, upto: int) -> Seq<
    Change,
>
    decreases upto,
{
    if upto <= 0 {
        Seq::empty()
    } else {
        let before = changes_under(lines, header, upto - 1);
        if lines[upto - 1].0@ == header {
            before.push(lines[upto - 1].1)
        } else {
            before
        }
    }
}

/// Whether a hunk before hunk `k` has the same header as hunk `k`.
pub open spec fn header_taken(hunks: Seq<Hunk>, k: int) -> bool {
    exists|j: int| 0 <= j < k && (#[trigger] hunks[j]).header@ == hunks[k].header@
}

/// The changes of hunk `k`: the changed lines under its header. Of several
/// hunks with one header the first takes the lines, the others get none.
pub open spec fn changes_of_hunk(hunks: Seq<Hunk>, lines: Seq<(String, Change)>, k: int) -> Seq<
    Change,
> {
    if header_taken(hunks, k) {
        Seq::empty()
    } else {
        changes_under(lines, hunks[k].header@, lines.len() as int)
    }
}

/// The diff of one change: the content of the file before and after, and
/// the hunks between them.
#[derive(Debug, PartialEq, Eq)]
pub struct DeltaDiff {
    pub old_file: Option<String>,
    pub new_file: Option<String>,
    pub hunks: Vec<Hunk>,
}

/// Whether some hunk before `upto` has the given header.
fn header_seen(hunks: &Vec<Hunk>, upto: usize, header: &String) -> (seen: bool)
    requires
        upto <= hunks@.len(),
    ensures
        seen == exists|j: int| 0 <= j < upto && (#[trigger] hunks@[j]).header@ == header@,
{
    let mut j: usize = 0;
    while j < upto
        invariant
            j <= upto,
            upto <= hunks@.len(),
            forall|i: int| 0 <= i < j ==> (#[trigger] hunks@[i]).header@ != header@,
        decreases upto - j,
    {
        if hunks[j].header == *header {
            return true;
        }
        j += 1;
    }
    false
}

/// The changed lines under the given header.
fn collect_changes(lines: &Vec<(String, Change)>, header: &String) -> (changes: Vec<Change>)
    ensures
        changes@ == changes_under(lines@, header@, lines@.len() as int),
{
    let mut changes: Vec<Change> = Vec::new();
    let mut i: usize = 0;
    while i < lines.len()
        invariant
            i <= lines.len(),
            changes@ == changes_under(lines@, header@, i as int),
        decreases lines.len() - i,
    {
        if lines[i].0 == *header {
            changes.push(lines[i].1);
        }
        i += 1;
    }
    changes
}

impl DeltaDiff {
    /// Puts a diff together from the hunks in their order and the changed
    /// lines, each with the header of the hunk it was reported under. Every
    /// hunk gets the lines under its header; what the hunks held as changes
    /// before is dropped.
    pub fn assemble(
        old_file: Option<String>,
        new_file: Option<String>,
        hunks: Vec<Hunk>,
        lines: Vec<(String, Change)>,
    ) -> (diff: DeltaDiff)
        ensures
            diff.old_file == old_file,
            diff.new_file == new_file,
            diff.hunks@.len() == hunks@.len(),
            forall|k: int|
                0 <= k < hunks@.len() ==> {
                    &&& (#[trigger] diff.hunks@[k]).old_range == hunks@[k].old_range
                    &&& diff.hunks@[k].new_range == hunks@[k].new_range
                    &&& diff.hunks@[k].header == hunks@[k].header
                    &&& diff.hunks@[k].changes@ == changes_of_hunk(hunks@, lines@, k)
                },
    {
        let ghost all = hunks@;
        let mut done: Vec<Hunk> = Vec::new();
        for hunk in it: hunks
            invariant
                it.seq() == all,
                done@.len() == it.index(),
                forall|k: int|
                    0 <= k < it.index() ==> {
                        &&& (#[trigger] done@[k]).old_range == all[k].old_range
                        &&& done@[k].new_range == all[k].new_range
                        &&& done@[k].header == all[k].header
                        &&& done@[k].changes@ == changes_of_hunk(all, lines@, k)
                    },
        {
            let ghost k = it.index();
            let taken = header_seen(&done, done.len(), &hunk.header);
            proof {
                if taken {
                    let j = choose|j: int|
                        0 <= j < done@.len() && (#[trigger] done@[j]).header@ == hunk.header@;
                    assert(all[j].header@ == all[k].header@);
                }
                if header_taken(all, k) {
                    let j = choose|j: int| 0 <= j < k && (#[trigger] all[j]).header@ == all[k].header@;
                    assert(done@[j].header@ == hunk.header@);
                }
                assert(taken == header_taken(all, k));
            }
            let changes = if taken {
                Vec::new()
            } else {
                collect_changes(&lines, &hunk.header)
            };
            done.push(
                Hunk {
                    old_range: hunk.old_range,
                    new_range: hunk.new_range,
                    header: hunk.header,
                    changes,
                },
            );
        }
        DeltaDiff { old_file, new_file, hunks: done }
    }
}

/// Where the content of a file is read from.
#[derive(Clone, Copy, Debug, PartialEq, Eq)]
pub enum BlobSource {
    /// The file in the working directory, at the path of the file.
    WorkingDir,
    /// The blob with this id in the object store.
    Object(Oid),
}

/// Where the content behind an id comes from: from the working directory
/// if all bytes of the id are zero, else from the blob with that id.
pub open spec fn source_of(id: Oid) -> BlobSource {
    if id@ == Seq::new(OID_LEN as nat, |i: int| 0u8) {
        BlobSource::WorkingDir
    } else {
        BlobSource::Object(id)
    }
}

/// Where the content behind an id comes from.
pub fn blob_source(id: Oid) -> (source: BlobSource)
    ensures
        source == source_of(id),
{
    if id.is_zero() {
        BlobSource::WorkingDir
    } else {
        BlobSource::Object(id)
    }
}

/// Where the content of a file comes from, by its id. Nothing if the id of
/// the file is no object id.
pub fn get_file_blob(file: &File) -> (source: Option<BlobSource>)
    ensures
        match source {
            Some(source) => exists|id: Oid|
                parsed_oid(file.id@) == Ok::<Seq<u8>, Seq<char>>(id@) && source
                    == #[trigger] source_of(id),
            None => parsed_oid(file.id@) is Err,
        },
{
    match Oid::from_hex(file.id.as_str()) {
        Ok(id) => Some(blob_source(id)),
        Err(_) => None,
    }
}

} // verus!
