//! Which changes on disk concern the working directory.

use crate::text::{ends_with, ends_with_text};
use vstd::prelude::*;

verus! {

/// A path that changed, and whether it lies in the folder of the repository
/// data.
#[derive(Clone, Debug, PartialEq, Eq)]
pub struct ChangedPath {
    pub in_git_folder: bool,
    pub path: String,
}

/// Whether a changed path concerns the working directory: every path outside
/// the folder of the repository data does; inside it, only the log of HEAD,
/// which changes with a commit, and the index, which changes with staging.
pub open spec fn concerns_working_dir(in_git_folder: bool, path: Seq<char>) -> bool {
    ||| !in_git_folder
    ||| ends_with_text(path, ".git\\logs\\HEAD"@)
    ||| ends_with_text(path, ".git/logs/HEAD"@)
    ||| ends_with_text(path, ".git\\index"@)
    ||| ends_with_text(path, ".git/index"@)
}

/// Whether a changed path concerns the working directory.
pub fn is_working_dir_change(in_git_folder: bool, path: &str) -> (concerned: bool)
    ensures
        concerned == concerns_working_dir(in_git_folder, path@),
{
    !in_git_folder || ends_with(path, ".git\\logs\\HEAD") || ends_with(path, ".git/logs/HEAD")
        || ends_with(path, ".git\\index") || ends_with(path, ".git/index")
}

/// Whether the working directory has to be read again after an event: some
/// path of the event concerns it.
pub fn needs_update(paths: &Vec<ChangedPath>) -> (needed: bool)
    ensures
        needed == exists|i: int|
            0 <= i < paths@.len() && concerns_working_dir(
                (#[trigger] paths@[i]).in_git_folder,
                paths@[i].path@,
            ),
{
    let mut i: usize = 0;
    while i < paths.len()
        invariant
            i <= paths.len(),
            forall|j: int|
                0 <= j < i ==> !concerns_working_dir(
                    (#[trigger] paths@[j]).in_git_folder,
                    paths@[j].path@,
                ),
        decreases paths.len() - i,
    {
        if is_working_dir_change(paths[i].in_git_folder, paths[i].path.as_str()) {
            return true;
        }
        i += 1;
    }
    false
}

} // verus!
