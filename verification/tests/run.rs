use syncbox::infra::error::SyncError;
use syncbox::sync::run::{RunEvent, RunFailure, RunRequest, SyncRun};
use syncbox::sync::types::{FileInfo, SyncParameters};

fn params(dry_run: bool, delete_extra: bool) -> SyncParameters {
    SyncParameters {
        source: "/s".to_string(),
        target: "/t".to_string(),
        dry_run,
        checksum: false,
        excludes: vec![],
        delete_extra,
        delete_excludes: vec![],
        detail: false,
    }
}

fn file(path: &str, mtime: i128, size: u64) -> FileInfo {
    FileInfo { path: path.to_string(), mtime, size, blake3_hash: None, is_dir: false }
}

fn step(run: &mut SyncRun, e: RunEvent) -> RunRequest {
    run.step_checked(e).unwrap()
}

#[test]
fn real_run_copies_then_finishes() {
    let (mut run, req) = SyncRun::new(params(false, false));
    assert!(req == RunRequest::ScanSource);
    let req = step(&mut run, RunEvent::SourceScanned(Ok(vec![file("/s/a", 5, 3), file("/s/b", 5, 4)])));
    assert!(req == RunRequest::ScanTarget);
    let req = step(&mut run, RunEvent::TargetScanned(vec![file("/t/a", 5, 3)], true));
    assert!(req == RunRequest::Copy(0));
    assert_eq!(run.plan.queue[0].target_path, "/t/b");
    let req = step(&mut run, RunEvent::Copied(Ok(())));
    assert!(req == RunRequest::Finish);
    assert!(matches!(run.outcome, Some(Ok(false))));
    assert_eq!(run.report.copied, vec!["/s/b".to_string()]);
}

#[test]
fn up_to_date_run_has_nothing_to_do() {
    let (mut run, _) = SyncRun::new(params(false, false));
    step(&mut run, RunEvent::SourceScanned(Ok(vec![file("/s/a", 5, 3)])));
    let req = step(&mut run, RunEvent::TargetScanned(vec![file("/t/a", 5, 3)], true));
    assert!(req == RunRequest::Finish);
    assert!(matches!(run.outcome, Some(Ok(true))));
}

#[test]
fn dry_run_neither_deletes_nor_copies() {
    let (mut run, _) = SyncRun::new(params(true, true));
    step(&mut run, RunEvent::SourceScanned(Ok(vec![file("/s/a", 5, 3)])));
    let req = step(&mut run, RunEvent::TargetScanned(vec![], true));
    assert!(req == RunRequest::ReadDeletionInputs);
    let req = step(
        &mut run,
        RunEvent::DeletionInputs(Ok((vec![file("/s/a", 5, 3)], vec![file("/t/old", 1, 1)]))),
    );
    assert!(req == RunRequest::Finish);
    assert_eq!(run.report.would_delete, vec!["/t/old".to_string()]);
    assert!(run.report.deleted.is_empty());
    assert_eq!(run.report.copied, vec!["/s/a".to_string()]);
    assert!(matches!(run.outcome, Some(Ok(false))));
}

#[test]
fn deletion_then_copy_failure() {
    let (mut run, _) = SyncRun::new(params(false, true));
    step(&mut run, RunEvent::SourceScanned(Ok(vec![file("/s/a", 5, 3)])));
    step(&mut run, RunEvent::TargetScanned(vec![], true));
    let req = step(&mut run, RunEvent::DeletionInputs(Ok((vec![], vec![file("/t/old", 1, 1)]))));
    assert!(req == RunRequest::Delete(0));
    let req = step(&mut run, RunEvent::Deleted(Ok(())));
    assert!(req == RunRequest::Copy(0));
    let req = step(&mut run, RunEvent::Copied(Err("Permission denied".to_string())));
    assert!(req == RunRequest::Finish);
    assert_eq!(run.report.deleted, vec!["/t/old".to_string()]);
    match &run.outcome {
        Some(Err(RunFailure::Copies(m))) => assert_eq!(m, "Failed to copy 1 files:\n  - /t/a: Permission denied\n"),
        _ => panic!("expected a copy failure"),
    }
}

#[test]
fn source_scan_failure_ends_the_run() {
    let (mut run, _) = SyncRun::new(params(false, false));
    let req = step(&mut run, RunEvent::SourceScanned(Err(SyncError::SourceNotFound("/s".to_string()))));
    assert!(req == RunRequest::Finish);
    assert!(matches!(run.outcome, Some(Err(RunFailure::SourceScan(SyncError::SourceNotFound(_))))));
}

#[test]
fn unplannable_scan_is_refused() {
    let (mut run, _) = SyncRun::new(params(false, false));
    assert!(run.step_checked(RunEvent::SourceScanned(Ok(vec![file("/elsewhere/a", 1, 1)]))).is_none());
    let big = vec![file("/s/a", 1, u64::MAX), file("/s/b", 1, 1)];
    let req = step(&mut run, RunEvent::SourceScanned(Ok(big)));
    assert!(req == RunRequest::ScanTarget);
    assert!(run.step_checked(RunEvent::TargetScanned(vec![], true)).is_none());
    let req = step(&mut run, RunEvent::TargetScanned(vec![file("/t/b", 1, 1)], true));
    assert!(req == RunRequest::Copy(0));
    assert_eq!(run.plan.total_size, u64::MAX);
}

#[test]
fn out_of_phase_events_change_nothing() {
    let (mut run, _) = SyncRun::new(params(false, false));
    let req = step(&mut run, RunEvent::Copied(Ok(())));
    assert!(req == RunRequest::ScanSource);
    assert!(run.report.copied.is_empty());
}

#[test]
fn dry_run_with_only_deletions_reports_them() {
    let (mut run, _) = SyncRun::new(params(true, true));
    step(&mut run, RunEvent::SourceScanned(Ok(vec![file("/s/a", 5, 3)])));
    step(&mut run, RunEvent::TargetScanned(vec![file("/t/a", 5, 3), file("/t/old", 1, 1)], true));
    let req = step(
        &mut run,
        RunEvent::DeletionInputs(Ok((vec![file("/s/a", 5, 3)], vec![file("/t/a", 5, 3), file("/t/old", 1, 1)]))),
    );
    assert!(req == RunRequest::Finish);
    assert_eq!(run.report.would_delete, vec!["/t/old".to_string()]);
    assert!(run.report.copied.is_empty());
    assert!(matches!(run.outcome, Some(Ok(false))));
}

#[test]
fn deletion_failures_are_recorded_and_copies_still_run() {
    let (mut run, _) = SyncRun::new(params(false, true));
    step(&mut run, RunEvent::SourceScanned(Ok(vec![file("/s/a", 5, 3)])));
    step(&mut run, RunEvent::TargetScanned(vec![], true));
    let req = step(&mut run, RunEvent::DeletionInputs(Ok((vec![], vec![file("/t/x", 1, 1), file("/t/y", 1, 1)]))));
    assert!(req == RunRequest::Delete(0));
    let req = step(&mut run, RunEvent::Deleted(Err("busy".to_string())));
    assert!(req == RunRequest::Delete(1));
    let req = step(&mut run, RunEvent::Deleted(Ok(())));
    assert!(req == RunRequest::Copy(0));
    assert_eq!(run.report.deleted, vec!["/t/y".to_string()]);
    assert_eq!(run.report.delete_errors, vec![("/t/x".to_string(), "busy".to_string())]);
    let req = step(&mut run, RunEvent::Copied(Ok(())));
    assert!(req == RunRequest::Finish);
    assert_eq!(run.report.copied, vec!["/s/a".to_string()]);
    assert!(matches!(run.outcome, Some(Ok(false))));
}

#[test]
fn read_only_target_stops_a_run_with_copies() {
    let (mut run, _) = SyncRun::new(params(false, false));
    step(&mut run, RunEvent::SourceScanned(Ok(vec![file("/s/a", 5, 3)])));
    let req = step(&mut run, RunEvent::TargetScanned(vec![], false));
    assert!(req == RunRequest::Finish);
    match &run.outcome {
        Some(Err(RunFailure::ReadOnlyTarget(m))) => assert_eq!(m, "Only readable directory: /t"),
        _ => panic!("expected a read-only target"),
    }
    let (mut run, _) = SyncRun::new(params(true, false));
    step(&mut run, RunEvent::SourceScanned(Ok(vec![file("/s/a", 5, 3)])));
    assert!(step(&mut run, RunEvent::TargetScanned(vec![], false)) == RunRequest::Finish);
    assert!(matches!(run.outcome, Some(Ok(false))));
    let (mut run, _) = SyncRun::new(params(false, false));
    step(&mut run, RunEvent::SourceScanned(Ok(vec![file("/s/a", 5, 3)])));
    step(&mut run, RunEvent::TargetScanned(vec![file("/t/a", 5, 3)], false));
    assert!(matches!(run.outcome, Some(Ok(true))));
}
