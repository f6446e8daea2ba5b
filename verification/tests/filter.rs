use syncbox::sync::filter::{should_exclude, should_sync};
use syncbox::sync::types::FileInfo;

fn pats(v: &[&str]) -> Vec<String> {
    v.iter().map(|s| s.to_string()).collect()
}

#[test]
fn wildcard_suffix_pattern() {
    let p = pats(&["*.tmp"]);
    assert!(should_exclude("/src/a.tmp", "/src", &p));
    assert!(should_exclude("/src/dir/b.tmp", "/src", &p));
    assert!(!should_exclude("/src/a.txt", "/src", &p));
}

#[test]
fn plain_pattern_must_match_whole_relative_path() {
    let p = pats(&["temp"]);
    assert!(should_exclude("/src/temp", "/src", &p));
    assert!(!should_exclude("/src/a/temp", "/src", &p));
    // only '*' is a wildcard; every other character stands for itself
    let p = pats(&[".log"]);
    assert!(!should_exclude("/src/xlog", "/src", &p));
    assert!(should_exclude("/src/.log", "/src", &p));
    let p = pats(&["*.log"]);
    assert!(should_exclude("/src/a.log", "/src", &p));
    assert!(!should_exclude("/src/catalog", "/src", &p));
    let p = pats(&["a+(b)[1]"]);
    assert!(should_exclude("/src/a+(b)[1]", "/src", &p));
    assert!(!should_exclude("/src/aa(b)1", "/src", &p));
}

#[test]
fn directory_pattern_matches_at_any_depth() {
    let p = pats(&["secret/"]);
    assert!(should_exclude("/src/secret/file.txt", "/src", &p));
    assert!(should_exclude("/src/sub/secret/file.txt", "/src", &p));
    assert!(!should_exclude("/src/notsecret/file.txt", "/src", &p));
}

#[test]
fn rooted_pattern_matches_from_root_only() {
    let p = pats(&["/temp/"]);
    assert!(should_exclude("/src/temp/x", "/src", &p));
    assert!(!should_exclude("/src/a/temp/x", "/src", &p));
}

#[test]
fn system_files_are_always_excluded() {
    let none: Vec<String> = vec![];
    assert!(should_exclude("/src/.DS_Store", "/src", &none));
    assert!(should_exclude("/src/d/._file", "/src", &none));
    assert!(should_exclude("/src/.Trashes", "/src", &none));
    assert!(!should_exclude("/src/file", "/src", &none));
}

#[test]
fn paths_outside_root_are_not_excluded() {
    let p = pats(&["*"]);
    assert!(!should_exclude("/other/a.tmp", "/src", &p));
    assert!(should_exclude("/src/a.tmp", "/src", &p));
}

#[test]
fn regex_characters_in_patterns_match_literally() {
    let p = pats(&["a(b"]);
    assert!(should_exclude("/src/a(b", "/src", &p));
    assert!(!should_exclude("/src/ab", "/src", &p));
}

fn info(mtime: i128, size: u64, hash: Option<[u8; 32]>) -> FileInfo {
    FileInfo { path: "/src/f".to_string(), mtime, size, blake3_hash: hash, is_dir: false }
}

#[test]
fn should_sync_when_target_missing() {
    assert!(should_sync(&info(1, 1, None), None, false));
    assert!(should_sync(&info(1, 1, None), None, true));
}

#[test]
fn should_sync_by_time_and_size() {
    let src = info(100, 10, None);
    assert!(!should_sync(&src, Some(&info(100, 10, None)), false));
    assert!(!should_sync(&src, Some(&info(200, 10, None)), false));
    assert!(should_sync(&src, Some(&info(50, 10, None)), false));
    assert!(should_sync(&src, Some(&info(200, 11, None)), false));
}

#[test]
fn should_sync_by_checksum() {
    let src = info(100, 10, Some([1; 32]));
    assert!(!should_sync(&src, Some(&info(50, 10, Some([1; 32]))), true));
    assert!(should_sync(&src, Some(&info(100, 10, Some([2; 32]))), true));
    assert!(should_sync(&src, Some(&info(100, 9, Some([1; 32]))), true));
    assert!(should_sync(&src, Some(&info(100, 10, None)), true));
}

#[test]
fn identical_file_needs_no_sync() {
    let f = info(7, 3, Some([9; 32]));
    assert!(!should_sync(&f, Some(&f), false));
    assert!(!should_sync(&f, Some(&f), true));
}

#[test]
fn is_newer_than_and_content_eq() {
    assert!(info(2, 1, None).is_newer_than(&info(1, 1, None)));
    assert!(!info(1, 1, None).is_newer_than(&info(1, 1, None)));
    assert!(info(1, 2, None).is_newer_than(&info(5, 1, None)));
    assert!(info(1, 2, Some([3; 32])).content_eq(&info(9, 2, Some([3; 32]))));
    assert!(!info(1, 2, Some([3; 32])).content_eq(&info(1, 2, Some([4; 32]))));
}
