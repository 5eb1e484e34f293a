use gitgraph::diff::BlobSource;
use gitgraph::errors::GitError;
use gitgraph::oid::Oid;
use gitgraph::server::{
    content_type_of, content_type_of_media, raw_file_source, raw_source, CORS,
};
use gitgraph::settings::{DiffSettings, HunkOrFile, OpenRepo, SplitOrUnified};
use gitgraph::timer::{format_lap, Timer};
use gitgraph::watch::{is_working_dir_change, needs_update, ChangedPath};

fn oid(n: u8) -> Oid {
    Oid::from_bytes([n; 20])
}

#[test]
fn raw_file_comes_from_the_blob_or_the_named_file() {
    assert_eq!(raw_file_source(&"5a".repeat(20), None), Ok(BlobSource::Object(oid(0x5a))));
    assert_eq!(raw_file_source(&"5a".repeat(20), Some("f")), Ok(BlobSource::Object(oid(0x5a))));
    assert_eq!(raw_file_source(&"0".repeat(40), Some("f")), Ok(BlobSource::WorkingDir));
    assert_eq!(
        raw_file_source(&"0".repeat(40), None),
        Err(GitError::Wrapped("file needed for oid=0".to_string()))
    );
    assert_eq!(
        raw_file_source("xyz", Some("f")),
        Err(GitError::Wrapped("unable to parse OID - contains invalid characters".to_string()))
    );
}

#[test]
fn content_type_is_sniffed_from_the_content() {
    assert_eq!(content_type_of(&b"%PDF-1.5 and more".to_vec()).as_deref(), Some("application/pdf"));
    assert_eq!(
        content_type_of(&b"\x89PNG\r\n\x1a\n0000".to_vec()).as_deref(),
        Some("image/png")
    );
}

#[test]
fn content_type_of_a_sniffed_media_type() {
    assert_eq!(content_type_of_media(None), None);
    assert_eq!(
        content_type_of_media(Some("application/json".to_string())).as_deref(),
        Some("application/json")
    );
    assert_eq!(content_type_of_media(Some("application//x-custom".to_string())), None);
}

#[test]
fn cors_headers_open_the_server_to_any_origin() {
    assert_eq!(CORS::name(), "Add CORS headers to responses");
    assert_eq!(
        CORS::headers(),
        [
            ("Access-Control-Allow-Origin", "*"),
            ("Access-Control-Allow-Methods", "POST, GET, PATCH, OPTIONS"),
            ("Access-Control-Allow-Headers", "*"),
            ("Access-Control-Allow-Credentials", "true"),
        ]
    );
}

#[test]
fn settings_files_have_their_names() {
    assert_eq!(OpenRepo::get_filename(), "openrepo");
    assert_eq!(DiffSettings::get_filename(), "diffsettings");
    let settings =
        DiffSettings { hunk_or_file: HunkOrFile::Hunk, split_or_unified: SplitOrUnified::Unified };
    assert_eq!(settings, settings.clone());
    assert_ne!(HunkOrFile::Hunk, HunkOrFile::File);
    assert_ne!(SplitOrUnified::Split, SplitOrUnified::Unified);
}

#[test]
fn lap_text_picks_its_unit_by_the_digits_of_the_nanoseconds() {
    assert_eq!(format_lap(0), "0 ns");
    assert_eq!(format_lap(9_999), "9999 ns");
    assert_eq!(format_lap(10_000), "10 μs");
    assert_eq!(format_lap(9_999_999), "9999 μs");
    assert_eq!(format_lap(10_000_000), "10 ms");
    assert_eq!(format_lap(9_999_999_999), "9999 ms");
    assert_eq!(format_lap(10_000_000_000), "10 s");
    assert_eq!(format_lap(123_456_789_012_345), "123456 s");
}

#[test]
fn timer_reports_each_lap_with_a_unit() {
    let mut timer = Timer::new();
    for _ in 0..3 {
        let lap = timer.lap();
        let (number, unit) = lap.split_once(' ').unwrap();
        assert!(number.parse::<u128>().is_ok());
        assert!(["ns", "μs", "ms", "s"].contains(&unit));
    }
}

#[test]
fn changes_outside_the_git_folder_concern_the_working_dir() {
    assert!(is_working_dir_change(false, "/repo/src/a.rs"));
    assert!(!is_working_dir_change(true, "/repo/.git/objects/ab/cdef"));
    assert!(is_working_dir_change(true, "/repo/.git/index"));
    assert!(is_working_dir_change(true, "/repo/.git/logs/HEAD"));
    assert!(is_working_dir_change(true, "C:\\repo\\.git\\index"));
    assert!(is_working_dir_change(true, "C:\\repo\\.git\\logs\\HEAD"));
    assert!(!is_working_dir_change(true, "/repo/.git/index.lock"));
    assert!(!is_working_dir_change(true, "/repo/.git/HEAD"));
}

#[test]
fn an_event_needs_an_update_if_one_of_its_paths_does() {
    let inside = |p: &str| ChangedPath { in_git_folder: true, path: p.to_string() };
    let outside = |p: &str| ChangedPath { in_git_folder: false, path: p.to_string() };
    assert!(!needs_update(&vec![]));
    assert!(!needs_update(&vec![inside("/r/.git/a"), inside("/r/.git/b")]));
    assert!(needs_update(&vec![inside("/r/.git/a"), outside("/r/b")]));
    assert!(needs_update(&vec![inside("/r/.git/a"), inside("/r/.git/index")]));
}

#[test]
fn raw_source_of_an_id_that_was_read() {
    assert_eq!(raw_source(oid(7), None), Ok(BlobSource::Object(oid(7))));
    assert_eq!(raw_source(Oid::zero(), Some("a")), Ok(BlobSource::WorkingDir));
    assert_eq!(
        raw_source(Oid::zero(), None),
        Err(GitError::Wrapped("file needed for oid=0".to_string()))
    );
}
