//! The settings that are kept between runs, and the files that hold them.

use vstd::prelude::*;

verus! {

/// The setting that holds the path of the repository opened last.
#[derive(Clone, Copy, Debug, PartialEq, Eq, Structural)]
pub struct OpenRepo {}

impl OpenRepo {
    /// The name of the file that holds the setting.
    pub fn get_filename() -> (name: &'static str)
        ensures
            name@ == "openrepo"@,
    {
        "openrepo"
    }
}

/// Whether a diff is shown hunk by hunk or as a whole file.
#[derive(Clone, Copy, Debug, PartialEq, Eq, Structural)]
pub enum HunkOrFile {
    Hunk,
    File,
}

/// Whether a diff is shown in two columns or in one.
#[derive(Clone, Copy, Debug, PartialEq, Eq, Structural)]
pub enum SplitOrUnified {
    Split,
    Unified,
}

/// How diffs are shown.
#[derive(Clone, Copy, Debug, PartialEq, Eq, Structural)]
pub struct DiffSettings {
    pub hunk_or_file: HunkOrFile,
    pub split_or_unified: SplitOrUnified,
}

impl DiffSettings {
    /// The name of the file that holds the settings.
    pub fn get_filename() -> (name: &'static str)
        ensures
            name@ == "diffsettings"@,
    {
        "diffsettings"
    }
}

} // verus!
