use syncbox::cli::Command;
use syncbox::config::{default_delete_extra, Config, SyncTask};
use syncbox::infra::error::SyncError;
use syncbox::sync::file_ops::{compute_blake3_hash, files_to_delete, record_deletion, record_would_delete};
use syncbox::sync::report::{report_text, SyncReport};
use syncbox::sync::scanner::{scan_directory, ScanEntry, ScanNode};
use syncbox::sync::sync_logic::{
    count_files, finish_sync, nothing_to_sync, plan_sync, plan_sync_checked, record_copy, record_dry_run_copies, SyncItem, SyncOptions,
};
use syncbox::sync::types::{FileInfo, SyncParameters};

fn file(path: &str, mtime: i128, size: u64) -> FileInfo {
    FileInfo { path: path.to_string(), mtime, size, blake3_hash: None, is_dir: false }
}

fn dir_info(path: &str) -> FileInfo {
    FileInfo { path: path.to_string(), mtime: 1, size: 4096, blake3_hash: None, is_dir: true }
}

#[test]
fn plan_sync_skips_directories() {
    let sources = vec![dir_info("/s/d"), file("/s/d/a", 10, 1)];
    let targets = vec![dir_info("/t/d/a")];
    let plan = plan_sync(&sources, "/s", &targets, "/t", false);
    let queued: Vec<&str> = plan.queue.iter().map(|it| it.source.path.as_str()).collect();
    assert_eq!(queued, vec!["/s/d/a"]);
}

#[test]
fn plan_sync_queues_new_and_changed_files() {
    let sources = vec![file("/s/a", 10, 1), file("/s/b", 10, 2), file("/s/d/c", 10, 3)];
    let targets = vec![file("/t/a", 10, 1), file("/t/b", 5, 2)];
    let plan = plan_sync(&sources, "/s", &targets, "/t", false);
    let queued: Vec<(&str, &str)> =
        plan.queue.iter().map(|it| (it.source.path.as_str(), it.target_path.as_str())).collect();
    assert_eq!(queued, vec![("/s/b", "/t/b"), ("/s/d/c", "/t/d/c")]);
    assert_eq!(plan.total_size, 5);
}

#[test]
fn plan_sync_against_mirror_is_empty() {
    let sources = vec![file("/s/a", 10, 1), file("/s/x/b", 11, 2)];
    let targets = vec![file("/t/x/b", 11, 2), file("/t/a", 10, 1)];
    let plan = plan_sync(&sources, "/s", &targets, "/t", false);
    assert!(plan.queue.is_empty());
    assert_eq!(plan.total_size, 0);
}

#[test]
fn plan_sync_checked_refuses_what_cannot_be_planned() {
    let sources = vec![file("/elsewhere/a", 10, 1)];
    assert!(plan_sync_checked(&sources, "/s", &vec![], "/t", false).is_none());
    let big = vec![file("/s/a", 10, u64::MAX), file("/s/b", 10, 1)];
    assert!(plan_sync_checked(&big, "/s", &vec![], "/t", false).is_none());
    let mirror = vec![file("/t/b", 10, 1)];
    let plan = plan_sync_checked(&big, "/s", &mirror, "/t", false).unwrap();
    assert_eq!(plan.total_size, u64::MAX);
    assert_eq!(plan.queue.len(), 1);
}

#[test]
fn plan_sync_uses_last_target_with_a_path() {
    let sources = vec![file("/s/a", 10, 1)];
    let targets = vec![file("/t/a", 20, 1), file("/t/./a", 1, 1)];
    let plan = plan_sync(&sources, "/s", &targets, "/t", false);
    assert_eq!(plan.queue.len(), 1);
}

#[test]
fn dry_run_lists_queue_as_copied() {
    let sources = vec![file("/s/a", 10, 1)];
    let plan = plan_sync(&sources, "/s", &vec![], "/t", false);
    let mut report = SyncReport::new();
    record_dry_run_copies(&mut report, &plan);
    assert_eq!(report.copied, vec!["/s/a".to_string()]);
    assert!(report.deleted.is_empty());
    assert!(finish_sync(&report).is_ok());
}

#[test]
fn copy_failures_end_the_run_with_an_error() {
    let item = SyncItem { source: file("/s/a", 1, 1), target_path: "/t/a".to_string() };
    let mut report = SyncReport::new();
    record_copy(&mut report, &item, Ok(()));
    record_copy(&mut report, &item, Err("Permission denied".to_string()));
    assert_eq!(report.copied, vec!["/s/a".to_string()]);
    assert_eq!(report.errors, vec![("/t/a".to_string(), "Permission denied".to_string())]);
    assert_eq!(finish_sync(&report), Err("Failed to copy 1 files:\n  - /t/a: Permission denied\n".to_string()));
}

#[test]
fn nothing_to_sync_condition() {
    let empty = plan_sync(&vec![], "/s", &vec![], "/t", false);
    let mut report = SyncReport::new();
    assert!(nothing_to_sync(&empty, false, &report));
    assert!(nothing_to_sync(&empty, true, &report));
    report.would_delete.push("/t/x".to_string());
    assert!(!nothing_to_sync(&empty, true, &report));
    assert!(nothing_to_sync(&empty, false, &report));
    let mut failed = SyncReport::new();
    failed.delete_errors.push(("/t/x".to_string(), "busy".to_string()));
    assert!(!nothing_to_sync(&empty, true, &failed));
    let some = plan_sync(&vec![file("/s/a", 1, 1)], "/s", &vec![], "/t", false);
    assert!(!nothing_to_sync(&some, false, &SyncReport::new()));
}

#[test]
fn files_to_delete_spares_source_files_and_protected_ones() {
    let sources = vec![file("/s/keep", 1, 1), dir_info("/s/d")];
    let targets: Vec<FileInfo> = vec!["/t/keep", "/t/extra", "/t/important.txt", "/t/.DS_Store", "/t/sub/old", "/t/d"]
        .into_iter()
        .map(|p| file(p, 1, 1))
        .chain(vec![dir_info("/t/sub")])
        .collect();
    let del = files_to_delete(&sources, "/s", &targets, "/t", &[], &["important.txt".to_string()]);
    assert_eq!(del, vec!["/t/extra".to_string(), "/t/sub/old".to_string(), "/t/d".to_string()]);
}

#[test]
fn files_to_delete_spares_what_the_sync_rules_exclude() {
    let sources = vec![file("/s/a.tmp", 1, 1)];
    let targets = vec![file("/t/a.tmp", 1, 1), file("/t/b.tmp", 1, 1), file("/t/c.txt", 1, 1)];
    let del = files_to_delete(&vec![], "/s", &targets, "/t", &["*.tmp".to_string()], &[]);
    assert_eq!(del, vec!["/t/c.txt".to_string()]);
    let del = files_to_delete(&sources, "/s", &targets, "/t", &[], &[]);
    assert_eq!(del, vec!["/t/b.tmp".to_string(), "/t/c.txt".to_string()]);
}

#[test]
fn deletion_records() {
    let mut report = SyncReport::new();
    record_would_delete(&mut report, &"/t/a".to_string());
    assert_eq!(report.would_delete, vec!["/t/a".to_string()]);
    assert!(report.deleted.is_empty());
    let mut report = SyncReport::new();
    record_deletion(&mut report, &"/t/a".to_string(), Ok(()));
    record_deletion(&mut report, &"/t/b".to_string(), Err("busy".to_string()));
    assert_eq!(report.deleted, vec!["/t/a".to_string()]);
    assert_eq!(report.would_delete, vec!["/t/a".to_string()]);
    assert_eq!(report.delete_errors, vec![("/t/b".to_string(), "busy".to_string())]);
}

#[test]
fn report_text_of_a_real_run() {
    let mut report = SyncReport::new();
    report.copied.push("/s/a".to_string());
    report.copied.push("/s/b".to_string());
    report.deleted.push("/t/old".to_string());
    report.would_delete.push("/t/old".to_string());
    let text = report_text(false, &report, false, true, 1234, 1536, true).unwrap();
    assert_eq!(
        text,
        "同步成功！\n源文件总数：1,234，同步文件数: 2 (1.50 KB)\n同步的文件：\n  - /s/a\n  - /s/b\n已删除文件数: 1\n已删除的文件：\n  - /t/old\n"
    );
}

#[test]
fn report_text_of_a_dry_run() {
    let mut report = SyncReport::new();
    report.copied.push("/s/a".to_string());
    report.would_delete.push("/t/old".to_string());
    let text = report_text(false, &report, true, true, 3, 512, false).unwrap();
    assert_eq!(text, "试运行模式\n源文件总数：3，待同步文件数: 1 (512 B)\n待删除文件数: 1\n");
}

#[test]
fn report_text_lists_errors() {
    let mut report = SyncReport::new();
    report.errors.push(("/t/a".to_string(), "denied".to_string()));
    let text = report_text(false, &report, false, false, 1, 0, true).unwrap();
    assert_eq!(text, "同步成功！\n源文件总数：1，同步文件数: 0 (0 B)\n同步错误数: 1\n同步错误详情：\n  - /t/a: denied\n");
    assert!(report_text(true, &report, false, false, 1, 0, true).is_none());
}

#[test]
fn scan_directory_walks_and_filters() {
    let tree = ScanNode::Listed(vec![
        ScanEntry::File { path: "/s/a.txt".to_string(), info: Some(file("/s/a.txt", 1, 1)) },
        ScanEntry::File { path: "/s/a.tmp".to_string(), info: Some(file("/s/a.tmp", 1, 1)) },
        ScanEntry::Unreadable,
        ScanEntry::File { path: "/s/locked".to_string(), info: None },
        ScanEntry::Dir {
            path: "/s/d".to_string(),
            info: Some(dir_info("/s/d")),
            node: Box::new(ScanNode::Listed(vec![ScanEntry::File {
                path: "/s/d/b".to_string(),
                info: Some(file("/s/d/b", 2, 2)),
            }])),
        },
        ScanEntry::Dir {
            path: "/s/skip".to_string(),
            info: Some(dir_info("/s/skip")),
            node: Box::new(ScanNode::Unreadable("x".to_string())),
        },
        ScanEntry::Dir {
            path: "/s/locked_dir".to_string(),
            info: Some(dir_info("/s/locked_dir")),
            node: Box::new(ScanNode::Unreadable("Permission denied".to_string())),
        },
    ]);
    let files = scan_directory("/s", &tree, &["*.tmp".to_string(), "skip".to_string()], false).ok().unwrap();
    let paths: Vec<&str> = files.iter().map(|f| f.path.as_str()).collect();
    assert_eq!(paths, vec!["/s/a.txt", "/s/d", "/s/d/b", "/s/locked_dir"]);
    assert!(files[1].is_dir && !files[2].is_dir);
}

fn leaf(path: &str) -> ScanEntry {
    ScanEntry::File { path: path.to_string(), info: Some(file(path, 1, 1)) }
}

fn dir(path: &str, entries: Vec<ScanEntry>) -> ScanEntry {
    ScanEntry::Dir { path: path.to_string(), info: Some(dir_info(path)), node: Box::new(ScanNode::Listed(entries)) }
}

#[test]
fn scan_directory_applies_documented_exclusions() {
    let tree = ScanNode::Listed(vec![
        leaf("/s/keep.txt"),
        leaf("/s/app.log"),
        leaf("/s/.DS_Store"),
        dir("/s/temp", vec![leaf("/s/temp/t.txt")]),
        dir("/s/secret", vec![leaf("/s/secret/k")]),
        dir(
            "/s/sub",
            vec![
                leaf("/s/sub/secret"),
                leaf("/s/sub/x.log"),
                dir("/s/sub/temp", vec![leaf("/s/sub/temp/t.txt")]),
                dir("/s/sub/secret_dir", vec![leaf("/s/sub/secret_dir/ok")]),
            ],
        ),
    ]);
    let rules = vec!["*.log".to_string(), "secret/".to_string(), "secret".to_string(), "/temp/".to_string()];
    let files = scan_directory("/s", &tree, &rules, false).ok().unwrap();
    let paths: Vec<&str> = files.iter().map(|f| f.path.as_str()).collect();
    assert_eq!(
        paths,
        vec![
            "/s/keep.txt",
            "/s/temp",
            "/s/sub",
            "/s/sub/temp",
            "/s/sub/temp/t.txt",
            "/s/sub/secret_dir",
            "/s/sub/secret_dir/ok"
        ]
    );
}

#[test]
fn scan_directory_errors() {
    let missing = ScanNode::Missing("No such file or directory (os error 2)".to_string());
    match scan_directory("/nope", &missing, &[], false) {
        Err(SyncError::SourceNotFound(p)) => assert_eq!(p, "/nope (No such file or directory (os error 2))"),
        _ => panic!("expected SourceNotFound"),
    }
    match scan_directory("/s", &ScanNode::Unreadable("Permission denied".to_string()), &[], false) {
        Err(SyncError::IoError(m)) => assert_eq!(m, "Permission denied"),
        _ => panic!("expected IoError"),
    }
}

#[test]
fn blake3_digest_of_empty_input() {
    let h = compute_blake3_hash(&[]);
    let hex: String = h.iter().map(|b| format!("{:02x}", b)).collect();
    assert_eq!(hex, "af1349b9f5f9a1a6a0404dea36dcc9499bcb25c9adc112b7cc9a93cae41f3262");
    assert_ne!(compute_blake3_hash(b"abc"), h);
}

fn task(name: &str) -> SyncTask {
    SyncTask {
        name: name.to_string(),
        source: format!("/src/{}", name),
        target: format!("/dst/{}", name),
        exclude: vec!["*.log".to_string()],
        delete_extra: true,
        delete_extra_exclude: vec![".keep".to_string()],
    }
}

#[test]
fn find_task_returns_first_match() {
    let config = Config { sync: vec![task("docs"), task("photos"), task("docs")] };
    assert_eq!(config.find_task("photos").unwrap().source, "/src/photos");
    assert!(std::ptr::eq(config.find_task("docs").unwrap(), &config.sync[0]));
    assert!(config.find_task("music").is_none());
    assert!(!default_delete_extra());
}

#[test]
fn parameters_from_task_and_command() {
    let p = SyncParameters::from_task(&task("docs"));
    assert_eq!(p.source, "/src/docs");
    assert_eq!(p.target, "/dst/docs");
    assert_eq!(p.excludes, vec!["*.log".to_string()]);
    assert!(p.delete_extra);
    assert_eq!(p.delete_excludes, vec![".keep".to_string()]);
    assert!(!p.dry_run && !p.checksum && !p.detail);

    let cmd = Command::Sync {
        source: "./a".to_string(),
        target: "./b".to_string(),
        dry_run: true,
        checksum: false,
        delete: true,
        exclude: vec!["temp".to_string()],
        delete_exclude: vec![],
        detail: true,
    };
    let p = SyncParameters::from_command(&cmd);
    assert_eq!(p.source, "./a");
    assert!(p.dry_run && p.delete_extra && p.detail && !p.checksum);
    assert_eq!(p.excludes, vec!["temp".to_string()]);

    let cmd = Command::Watch {
        name: "docs".to_string(),
        config: "syncbox.toml".to_string(),
        delay: 500,
        dry_run: false,
        checksum: true,
        detail: false,
    };
    let p = SyncParameters::from_command(&cmd);
    assert!(p.source.is_empty() && p.checksum && !p.delete_extra);
}

#[test]
fn default_options_do_nothing_special() {
    let o = SyncOptions::default();
    assert!(!o.dry_run && !o.checksum && !o.delete_extra);
    assert!(o.excludes.is_empty() && o.delete_excludes.is_empty());
}

#[test]
fn count_files_leaves_out_directories() {
    let records = vec![dir_info("/s/d"), file("/s/d/a", 1, 1), file("/s/b", 1, 1)];
    assert_eq!(count_files(&records), 2);
    assert_eq!(count_files(&vec![]), 0);
}

#[test]
fn scan_directory_gives_digests_exactly_in_checksum_mode() {
    let mut hashed = file("/s/h", 1, 1);
    hashed.blake3_hash = Some([7u8; 32]);
    let mut odd_dir = dir_info("/s/d");
    odd_dir.blake3_hash = Some([1u8; 32]);
    let tree = ScanNode::Listed(vec![
        ScanEntry::File { path: "/s/h".to_string(), info: Some(hashed) },
        ScanEntry::File { path: "/s/u".to_string(), info: Some(file("/s/u", 1, 1)) },
        ScanEntry::Dir { path: "/s/d".to_string(), info: Some(odd_dir), node: Box::new(ScanNode::Listed(vec![])) },
    ]);
    let with = scan_directory("/s", &tree, &[], true).ok().unwrap();
    let paths: Vec<&str> = with.iter().map(|f| f.path.as_str()).collect();
    assert_eq!(paths, vec!["/s/h", "/s/d"]);
    assert_eq!(with[0].blake3_hash, Some([7u8; 32]));
    assert!(with[1].blake3_hash.is_none() && with[1].is_dir);
    let without = scan_directory("/s", &tree, &[], false).ok().unwrap();
    assert_eq!(without.len(), 3);
    assert!(without.iter().all(|f| f.blake3_hash.is_none()));
}
