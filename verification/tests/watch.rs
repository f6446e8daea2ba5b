use syncbox::sync::report::SyncReport;
use syncbox::sync::watcher::{is_relevant_event, FsEventKind, WatchAction, WatchEvent, WatchLoop, WatchPhase};

#[test]
fn only_content_events_count() {
    assert!(is_relevant_event(&FsEventKind::Create));
    assert!(is_relevant_event(&FsEventKind::Modify));
    assert!(is_relevant_event(&FsEventKind::Remove));
    assert!(!is_relevant_event(&FsEventKind::Access));
    assert!(!is_relevant_event(&FsEventKind::Any));
    assert!(!is_relevant_event(&FsEventKind::Other));
}

#[test]
fn burst_of_changes_syncs_once() {
    let mut w = WatchLoop::new("/src".to_string());
    assert!(w.step(WatchEvent::Changed) == WatchAction::WaitQuietly);
    assert!(w.step(WatchEvent::Changed) == WatchAction::WaitQuietly);
    assert!(w.step(WatchEvent::Changed) == WatchAction::WaitQuietly);
    assert!(w.step(WatchEvent::TimedOut) == WatchAction::RunSync);
    let mut r = SyncReport::new();
    r.copied.push("/src/a".to_string());
    assert!(w.step(WatchEvent::SyncSucceeded(r)) == WatchAction::WaitForChange);
    assert!(w.phase == WatchPhase::Idle);
    assert_eq!(w.total.copied, vec!["/src/a".to_string()]);
}

#[test]
fn failed_sync_is_reported_and_watching_goes_on() {
    let mut w = WatchLoop::new("/src".to_string());
    w.step(WatchEvent::Changed);
    w.step(WatchEvent::TimedOut);
    assert!(w.step(WatchEvent::SyncFailed("boom".to_string())) == WatchAction::WaitForChange);
    assert_eq!(w.total.errors, vec![("/src".to_string(), "boom".to_string())]);
}

#[test]
fn closed_channel_finishes() {
    let mut w = WatchLoop::new("/src".to_string());
    assert!(w.step(WatchEvent::ChannelClosed) == WatchAction::Finish);
    assert!(w.step(WatchEvent::Changed) == WatchAction::Finish);
    let mut w = WatchLoop::new("/src".to_string());
    w.step(WatchEvent::Changed);
    assert!(w.step(WatchEvent::ChannelClosed) == WatchAction::Finish);
    assert!(w.phase == WatchPhase::Done);
}

#[test]
fn running_report_accumulates_every_list() {
    let mut w = WatchLoop::new("/src".to_string());
    for k in 0..2 {
        w.step(WatchEvent::Changed);
        w.step(WatchEvent::TimedOut);
        let mut r = SyncReport::new();
        r.copied.push(format!("/src/c{}", k));
        r.deleted.push(format!("/t/d{}", k));
        r.would_delete.push(format!("/t/d{}", k));
        r.delete_errors.push((format!("/t/e{}", k), "busy".to_string()));
        w.step(WatchEvent::SyncSucceeded(r));
    }
    assert_eq!(w.total.copied, vec!["/src/c0".to_string(), "/src/c1".to_string()]);
    assert_eq!(w.total.deleted, vec!["/t/d0".to_string(), "/t/d1".to_string()]);
    assert_eq!(w.total.would_delete, vec!["/t/d0".to_string(), "/t/d1".to_string()]);
    assert_eq!(
        w.total.delete_errors,
        vec![("/t/e0".to_string(), "busy".to_string()), ("/t/e1".to_string(), "busy".to_string())]
    );
}
