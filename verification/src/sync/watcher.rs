//! The decisions of the watch loop: which file-system events count, when a
//! burst of changes has settled, and how the running report grows.

use vstd::prelude::*;
use crate::sync::report::{pair_texts, texts, SyncReport};

verus! {

/// The kinds of file-system events the watcher reports.
pub enum FsEventKind {
    Any,
    Access,
    Create,
    Modify,
    Remove,
    Other,
}

/// Only creations, modifications and removals trigger a sync.
pub open spec fn spec_is_relevant(kind: FsEventKind) -> bool {
    kind is Create || kind is Modify || kind is Remove
}

/// Whether an event of this kind triggers a sync.
pub fn is_relevant_event(kind: &FsEventKind) -> (b: bool)
    ensures
        b == spec_is_relevant(*kind),
{
    match kind {
        FsEventKind::Create | FsEventKind::Modify | FsEventKind::Remove => true,
        _ => false,
    }
}

/// Where the watch loop stands.
#[derive(PartialEq, Eq, Structural, Clone, Copy)]
pub enum WatchPhase {
    /// Waiting for a change.
    Idle,
    /// A change arrived; waiting for a quiet period.
    Debouncing,
    /// A sync is running.
    Syncing,
    /// The event source is gone; the loop has ended.
    Done,
}

/// What happened since the last step.
pub enum WatchEvent {
    /// A relevant change arrived.
    Changed,
    /// The quiet period passed with no change.
    TimedOut,
    /// The event source closed.
    ChannelClosed,
    /// The sync finished with this report.
    SyncSucceeded(SyncReport),
    /// The sync failed with this message.
    SyncFailed(String),
}

/// What the loop asks its driver to do next.
#[derive(PartialEq, Eq, Structural, Clone, Copy)]
pub enum WatchAction {
    /// Wait for the next change, however long it takes.
    WaitForChange,
    /// Wait for the next change, at most the debounce delay.
    WaitQuietly,
    /// Run a sync now.
    RunSync,
    /// Stop; the running report is the result.
    Finish,
}

/// The next phase and action when `event` arrives in `phase`. Events that
/// do not fit the phase leave it unchanged and repeat its action.
pub open spec fn spec_next(phase: WatchPhase, event: WatchEvent) -> (WatchPhase, WatchAction) {
    match phase {
        WatchPhase::Idle => match event {
            WatchEvent::Changed => (WatchPhase::Debouncing, WatchAction::WaitQuietly),
            WatchEvent::ChannelClosed => (WatchPhase::Done, WatchAction::Finish),
            _ => (WatchPhase::Idle, WatchAction::WaitForChange),
        },
        WatchPhase::Debouncing => match event {
            WatchEvent::Changed => (WatchPhase::Debouncing, WatchAction::WaitQuietly),
            WatchEvent::TimedOut => (WatchPhase::Syncing, WatchAction::RunSync),
            WatchEvent::ChannelClosed => (WatchPhase::Done, WatchAction::Finish),
            _ => (WatchPhase::Debouncing, WatchAction::WaitQuietly),
        },
        WatchPhase::Syncing => match event {
            WatchEvent::SyncSucceeded(_) => (WatchPhase::Idle, WatchAction::WaitForChange),
            WatchEvent::SyncFailed(_) => (WatchPhase::Idle, WatchAction::WaitForChange),
            _ => (WatchPhase::Syncing, WatchAction::RunSync),
        },
        WatchPhase::Done => (WatchPhase::Done, WatchAction::Finish),
    }
}

/// The watch loop's state: its phase and the report of all syncs so far.
pub struct WatchLoop {
    pub phase: WatchPhase,
    /// The source directory, named in the report when a sync fails.
    pub source: String,
    /// Copies and copy errors of all syncs so far.
    pub total: SyncReport,
}

impl WatchLoop {
    /// A loop waiting for its first change, with an empty report.
    pub fn new(source: String) -> (w: Self)
        ensures
            w.phase == WatchPhase::Idle,
            w.source@ == source@,
            w.total.is_empty_report(),
    {
        WatchLoop { phase: WatchPhase::Idle, source, total: SyncReport::new() }
    }

    /// Takes one event: moves to the next phase and says what to do. A
    /// finished sync adds every list of its report to the running report;
    /// a failed one adds the source directory with the message to the
    /// errors.
    pub fn step(&mut self, event: WatchEvent) -> (a: WatchAction)
        ensures
            (final(self).phase, a) == spec_next(old(self).phase, event),
            final(self).source@ == old(self).source@,
            match (old(self).phase, event) {
                (WatchPhase::Syncing, WatchEvent::SyncSucceeded(r)) => {
                    &&& texts(final(self).total.copied@) == texts(old(self).total.copied@) + texts(r.copied@)
                    &&& pair_texts(final(self).total.errors@) == pair_texts(old(self).total.errors@)
                        + pair_texts(r.errors@)
                    &&& texts(final(self).total.deleted@) == texts(old(self).total.deleted@) + texts(r.deleted@)
                    &&& texts(final(self).total.would_delete@) == texts(old(self).total.would_delete@) + texts(
                        r.would_delete@,
                    )
                    &&& pair_texts(final(self).total.delete_errors@) == pair_texts(old(self).total.delete_errors@)
                        + pair_texts(r.delete_errors@)
                },
                (WatchPhase::Syncing, WatchEvent::SyncFailed(m)) => {
                    &&& final(self).total.copied@ == old(self).total.copied@
                    &&& pair_texts(final(self).total.errors@) == pair_texts(old(self).total.errors@).push(
                        (old(self).source@, m@),
                    )
                    &&& final(self).total.deleted@ == old(self).total.deleted@
                    &&& final(self).total.would_delete@ == old(self).total.would_delete@
                    &&& final(self).total.delete_errors@ == old(self).total.delete_errors@
                },
                _ => final(self).total == old(self).total,
            },
    {
        match self.phase {
            WatchPhase::Idle => match event {
                WatchEvent::Changed => {
                    self.phase = WatchPhase::Debouncing;
                    WatchAction::WaitQuietly
                },
                WatchEvent::ChannelClosed => {
                    self.phase = WatchPhase::Done;
                    WatchAction::Finish
                },
                _ => WatchAction::WaitForChange,
            },
            WatchPhase::Debouncing => match event {
                WatchEvent::Changed => WatchAction::WaitQuietly,
                WatchEvent::TimedOut => {
                    self.phase = WatchPhase::Syncing;
                    WatchAction::RunSync
                },
                WatchEvent::ChannelClosed => {
                    self.phase = WatchPhase::Done;
                    WatchAction::Finish
                },
                _ => WatchAction::WaitQuietly,
            },
            WatchPhase::Syncing => match event {
                WatchEvent::SyncSucceeded(r) => {
                    let mut r = r;
                    let ghost c = texts(self.total.copied@);
                    let ghost e = pair_texts(self.total.errors@);
                    let ghost rc = texts(r.copied@);
                    let ghost re = pair_texts(r.errors@);
                    let ghost d = texts(self.total.deleted@);
                    let ghost w = texts(self.total.would_delete@);
                    let ghost de = pair_texts(self.total.delete_errors@);
                    let ghost rd = texts(r.deleted@);
                    let ghost rw = texts(r.would_delete@);
                    let ghost rde = pair_texts(r.delete_errors@);
                    self.total.copied.append(&mut r.copied);
                    self.total.errors.append(&mut r.errors);
                    self.total.deleted.append(&mut r.deleted);
                    self.total.would_delete.append(&mut r.would_delete);
                    self.total.delete_errors.append(&mut r.delete_errors);
                    assert(texts(self.total.copied@) =~= c + rc);
                    assert(pair_texts(self.total.errors@) =~= e + re);
                    assert(texts(self.total.deleted@) =~= d + rd);
                    assert(texts(self.total.would_delete@) =~= w + rw);
                    assert(pair_texts(self.total.delete_errors@) =~= de + rde);
                    self.phase = WatchPhase::Idle;
                    WatchAction::WaitForChange
                },
                WatchEvent::SyncFailed(m) => {
                    let ghost e = pair_texts(self.total.errors@);
                    let ghost mv = m@;
                    self.total.errors.push((self.source.clone(), m));
                    assert(pair_texts(self.total.errors@) =~= e.push((self.source@, mv)));
                    self.phase = WatchPhase::Idle;
                    WatchAction::WaitForChange
                },
                _ => WatchAction::RunSync,
            },
            WatchPhase::Done => WatchAction::Finish,
        }
    }
}

/// The phase after a run of events, starting from `phase`.
pub open spec fn phase_after(phase: WatchPhase, events: Seq<WatchEvent>) -> WatchPhase
    decreases events.len(),
{
    if events.len() == 0 {
        phase
    } else {
        spec_next(phase_after(phase, events.drop_last()), events.last()).0
    }
}

/// A burst of changes: every event is a change.
pub open spec fn all_changes(events: Seq<WatchEvent>) -> bool {
    forall|i: int| 0 <= i < events.len() ==> events[i] is Changed
}

/// Debouncing: however many changes arrive in a burst, no sync starts
/// until the burst has gone quiet; then exactly one starts. From an idle
/// loop, a non-empty burst of changes leaves it debouncing, every change
/// of the burst is answered by waiting quietly, and the quiet period that
/// follows starts a sync.
pub proof fn lemma_burst_syncs_once(events: Seq<WatchEvent>)
    requires
        events.len() > 0,
        all_changes(events),
    ensures
        phase_after(WatchPhase::Idle, events) == WatchPhase::Debouncing,
        forall|i: int|
            0 <= i < events.len() ==> spec_next(phase_after(WatchPhase::Idle, events.take(i)), #[trigger] events[i]).1
                == WatchAction::WaitQuietly,
        spec_next(phase_after(WatchPhase::Idle, events), WatchEvent::TimedOut)
            == (WatchPhase::Syncing, WatchAction::RunSync),
    decreases events.len(),
{
    if events.len() > 1 {
        let prefix = events.drop_last();
        lemma_burst_syncs_once(prefix);
        assert forall|i: int|
            0 <= i < events.len() implies spec_next(phase_after(WatchPhase::Idle, events.take(i)), #[trigger] events[i]).1
            == WatchAction::WaitQuietly by {
            if i < events.len() - 1 {
                assert(events.take(i) =~= prefix.take(i));
                assert(events[i] == prefix[i]);
            } else {
                assert(events.take(i) =~= prefix);
            }
        }
    } else {
        assert(events.drop_last() =~= Seq::<WatchEvent>::empty());
        assert forall|i: int|
            0 <= i < events.len() implies spec_next(phase_after(WatchPhase::Idle, events.take(i)), #[trigger] events[i]).1
            == WatchAction::WaitQuietly by {
            assert(events.take(0) =~= Seq::<WatchEvent>::empty());
        }
    }
}

/// A closed event source always ends the loop, whatever it was doing
/// except running a sync, and an ended loop stays ended.
pub proof fn lemma_close_finishes(phase: WatchPhase)
    ensures
        phase != WatchPhase::Syncing ==> spec_next(phase, WatchEvent::ChannelClosed) == (
            WatchPhase::Done,
            WatchAction::Finish,
        ),
        forall|e: WatchEvent| #[trigger] spec_next(WatchPhase::Done, e) == (WatchPhase::Done, WatchAction::Finish),
{
}

} // verus!
