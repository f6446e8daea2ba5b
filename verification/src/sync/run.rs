//! One sync run as a sequence of decisions: the driver asks for scans,
//! deletions and copies, performs them, and hands back what happened.

use vstd::prelude::*;
use crate::infra::error::SyncError;
use crate::sync::file_ops::{
    deletion_recorded, files_to_delete, record_deletion, record_would_delete, source_rel_paths, spec_files_to_delete,
};
use crate::sync::report::{pair_texts, texts, SyncReport};
use crate::sync::sync_logic::{
    all_under, all_under_root, finish_sync, nothing_to_sync, plan_sync, plan_sync_checked, queue_size, queue_view,
    record_copy, record_dry_run_copies, spec_nothing_to_sync, spec_sync_queue, SyncPlan, copy_failure_message,
    copy_recorded, dry_run_copies_recorded, lemma_up_to_date_target_needs_no_copies, target_up_to_date,
};
use crate::sync::types::{FileInfo, SyncParameters};

verus! {

/// Where a run stands.
#[derive(PartialEq, Eq, Structural, Clone, Copy)]
pub enum RunPhase {
    /// Waiting for the scan of the source.
    AwaitSource,
    /// Waiting for the scan of the target.
    AwaitTarget,
    /// Waiting for what deciding the deletions needs.
    AwaitDeletionInputs,
    /// Deleting extra files one by one.
    Deleting,
    /// Copying queued files one by one.
    Copying,
    /// The run is over.
    Finished,
}

/// What the run asks its driver to do next.
#[derive(PartialEq, Eq, Structural, Clone, Copy)]
pub enum RunRequest {
    /// Scan the source directory with the sync rules (with digests in
    /// checksum mode).
    ScanSource,
    /// Scan the target directory likewise; a missing or unreadable target
    /// is an empty list.
    ScanTarget,
    /// Scan the source and the target with the sync rules and no digests.
    ReadDeletionInputs,
    /// Delete the extra file with this index in `to_delete`.
    Delete(usize),
    /// Copy the queued file with this index in the plan's queue.
    Copy(usize),
    /// Stop; `outcome` says how the run ended.
    Finish,
}

/// Why a run failed.
pub enum RunFailure {
    /// The source could not be scanned.
    SourceScan(SyncError),
    /// The deletion step could not read what it needs.
    Deletion(String),
    /// Some copies failed; the message counts them and names each cause.
    Copies(String),
    /// There are files to copy, but the target directory is read-only.
    ReadOnlyTarget(String),
}

/// The message of a run stopped by a read-only target directory.
pub open spec fn read_only_target_message(target: Seq<char>) -> Seq<char> {
    "Only readable directory: "@ + target
}

/// What the driver did.
pub enum RunEvent {
    SourceScanned(Result<Vec<FileInfo>, SyncError>),
    /// The target's records, and whether the target directory can be
    /// written (a target that does not exist yet can).
    TargetScanned(Vec<FileInfo>, bool),
    DeletionInputs(Result<(Vec<FileInfo>, Vec<FileInfo>), String>),
    Deleted(Result<(), String>),
    Copied(Result<(), String>),
}

/// A sync run in progress.
pub struct SyncRun {
    pub params: SyncParameters,
    pub phase: RunPhase,
    pub source_files: Vec<FileInfo>,
    pub plan: SyncPlan,
    pub to_delete: Vec<String>,
    /// The next deletion or copy.
    pub next: usize,
    pub report: SyncReport,
    /// Set when the run is over: `Ok(true)` when there was nothing to do,
    /// `Ok(false)` when it synced, or the failure.
    pub outcome: Option<Result<bool, RunFailure>>,
}

/// How a run whose copies are done ends: successfully when no copy
/// failed, else with the message naming each failed copy and its cause.
pub open spec fn copies_outcome(report: SyncReport, outcome: Option<Result<bool, RunFailure>>) -> bool {
    match outcome {
        Some(Ok(false)) => report.errors@.len() == 0,
        Some(Err(RunFailure::Copies(m))) => report.errors@.len() > 0 && m@ == copy_failure_message(
            pair_texts(report.errors@),
        ),
        _ => false,
    }
}

/// Where a run goes once its deletions are dealt with, `report` being the
/// report at that point: with nothing to do it ends successfully with the
/// report as it is; a dry run lists the queued files as copied and ends
/// successfully; otherwise it copies the queue from its first file, or,
/// with an empty queue, ends as `copies_outcome` says.
pub open spec fn spec_after_deletions(params: SyncParameters, plan: SyncPlan, report: SyncReport, fin: SyncRun) -> bool {
    if spec_nothing_to_sync(plan.queue@.len(), params.delete_extra, report) {
        &&& fin.phase == RunPhase::Finished
        &&& fin.outcome == Some(Ok::<bool, RunFailure>(true))
        &&& fin.report == report
    } else if params.dry_run {
        &&& fin.phase == RunPhase::Finished
        &&& fin.outcome == Some(Ok::<bool, RunFailure>(false))
        &&& dry_run_copies_recorded(report, plan, fin.report)
    } else if plan.queue@.len() > 0 {
        &&& fin.phase == RunPhase::Copying
        &&& fin.next == 0
        &&& fin.report == report
    } else {
        &&& fin.phase == RunPhase::Finished
        &&& fin.report == report
        &&& copies_outcome(report, fin.outcome)
    }
}

/// Whether `event` is the one the phase waits for.
pub open spec fn event_fits(phase: RunPhase, event: RunEvent) -> bool {
    match (phase, event) {
        (RunPhase::AwaitSource, RunEvent::SourceScanned(_)) => true,
        (RunPhase::AwaitTarget, RunEvent::TargetScanned(_, _)) => true,
        (RunPhase::AwaitDeletionInputs, RunEvent::DeletionInputs(_)) => true,
        (RunPhase::Deleting, RunEvent::Deleted(_)) => true,
        (RunPhase::Copying, RunEvent::Copied(_)) => true,
        _ => false,
    }
}

/// One step of a run: from `old`, `event` leads to `new`, which asks for
/// `req`.
pub open spec fn spec_step(old: SyncRun, event: RunEvent, new: SyncRun, req: RunRequest) -> bool {
    &&& req == new.request_for()
    &&& new.params == old.params
    &&& req matches RunRequest::Delete(i) ==> new.params.delete_extra && !new.params.dry_run
        && i < new.to_delete@.len()
    &&& req matches RunRequest::Copy(i) ==> !new.params.dry_run && i < new.plan.queue@.len()
    &&& !event_fits(old.phase, event) ==> new == old
    &&& match (old.phase, event) {
        (RunPhase::AwaitSource, RunEvent::SourceScanned(Err(e))) => {
            &&& new.phase == RunPhase::Finished
            &&& new.outcome == Some(Err::<bool, RunFailure>(RunFailure::SourceScan(e)))
            &&& new.report == old.report
        },
        (RunPhase::AwaitSource, RunEvent::SourceScanned(Ok(files))) => {
            &&& new.phase == RunPhase::AwaitTarget
            &&& new.source_files@ == files@
            &&& new.report == old.report
        },
        (RunPhase::AwaitTarget, RunEvent::TargetScanned(targets, writable)) => {
            &&& queue_view(new.plan.queue@) == spec_sync_queue(
                old.source_files@,
                old.params.source@,
                targets@,
                old.params.target@,
                old.params.checksum,
            )
            &&& new.plan.total_size == queue_size(queue_view(new.plan.queue@))
            &&& new.source_files == old.source_files
            &&& if !old.params.dry_run && !writable && new.plan.queue@.len() > 0 {
                &&& new.phase == RunPhase::Finished
                &&& new.outcome matches Some(Err(RunFailure::ReadOnlyTarget(m)))
                &&& m@ == read_only_target_message(old.params.target@)
                &&& new.report == old.report
            } else {
                &&& old.params.delete_extra ==> new.phase == RunPhase::AwaitDeletionInputs && new.report
                    == old.report
                &&& !old.params.delete_extra ==> spec_after_deletions(old.params, new.plan, old.report, new)
            }
        },
        (RunPhase::AwaitDeletionInputs, RunEvent::DeletionInputs(Err(m))) => {
            &&& new.phase == RunPhase::Finished
            &&& new.outcome == Some(Err::<bool, RunFailure>(RunFailure::Deletion(m)))
            &&& new.report == old.report
        },
        (RunPhase::AwaitDeletionInputs, RunEvent::DeletionInputs(Ok((sources, targets)))) => {
            &&& texts(new.to_delete@) == spec_files_to_delete(
                targets@,
                old.params.target@,
                source_rel_paths(sources@, old.params.source@),
                old.params.excludes@,
                old.params.delete_excludes@,
            )
            &&& new.plan == old.plan
            &&& old.params.dry_run ==> exists|mid: SyncReport|
                {
                    &&& texts(mid.would_delete@) == texts(old.report.would_delete@) + texts(new.to_delete@)
                    &&& mid.copied@ == old.report.copied@
                    &&& mid.errors@ == old.report.errors@
                    &&& mid.deleted@ == old.report.deleted@
                    &&& mid.delete_errors@ == old.report.delete_errors@
                    &&& #[trigger] spec_after_deletions(old.params, old.plan, mid, new)
                }
            &&& !old.params.dry_run && new.to_delete@.len() > 0 ==> {
                &&& new.phase == RunPhase::Deleting
                &&& new.next == 0
                &&& new.report == old.report
            }
            &&& !old.params.dry_run && new.to_delete@.len() == 0 ==> spec_after_deletions(
                old.params,
                old.plan,
                old.report,
                new,
            )
        },
        (RunPhase::Deleting, RunEvent::Deleted(o)) => {
            &&& new.to_delete == old.to_delete
            &&& new.plan == old.plan
            &&& deletion_recorded(old.report, old.to_delete@[old.next as int], o, new.report)
            &&& old.next + 1 < old.to_delete@.len() ==> new.phase == RunPhase::Deleting && new.next == old.next + 1
            &&& old.next + 1 >= old.to_delete@.len() ==> spec_after_deletions(old.params, old.plan, new.report, new)
        },
        (RunPhase::Copying, RunEvent::Copied(o)) => {
            &&& new.plan == old.plan
            &&& copy_recorded(old.report, old.plan.queue@[old.next as int], o, new.report)
            &&& old.next + 1 < old.plan.queue@.len() ==> new.phase == RunPhase::Copying && new.next == old.next + 1
            &&& old.next + 1 >= old.plan.queue@.len() ==> {
                &&& new.phase == RunPhase::Finished
                &&& copies_outcome(new.report, new.outcome)
            }
        },
        (RunPhase::Finished, _) => new == old,
        _ => true,
    }
}

impl SyncRun {
    /// The request that fits the run's state.
    pub open spec fn request_for(&self) -> RunRequest {
        match self.phase {
            RunPhase::AwaitSource => RunRequest::ScanSource,
            RunPhase::AwaitTarget => RunRequest::ScanTarget,
            RunPhase::AwaitDeletionInputs => RunRequest::ReadDeletionInputs,
            RunPhase::Deleting => RunRequest::Delete(self.next),
            RunPhase::Copying => RunRequest::Copy(self.next),
            RunPhase::Finished => RunRequest::Finish,
        }
    }

    /// What holds of a run at every step: deletions happen only when
    /// deletion is on and never in a dry run, and without deletion the
    /// report lists no deleted file; copies never happen in a dry run, and a
    /// dry run's report lists no deletion and no failure;
    /// pending indices are in range; a finished run has an outcome.
    pub open spec fn inv(&self) -> bool {
        &&& self.phase == RunPhase::AwaitDeletionInputs ==> self.params.delete_extra
        &&& self.phase == RunPhase::Deleting ==> {
            &&& self.params.delete_extra
            &&& !self.params.dry_run
            &&& self.next < self.to_delete@.len()
        }
        &&& self.phase == RunPhase::Copying ==> {
            &&& !self.params.dry_run
            &&& self.next < self.plan.queue@.len()
        }
        &&& (self.phase == RunPhase::Finished <==> self.outcome is Some)
        &&& !self.params.delete_extra ==> self.report.deleted@.len() == 0 && self.report.would_delete@.len() == 0
        &&& self.params.dry_run ==> self.report.deleted@.len() == 0 && self.report.delete_errors@.len() == 0
            && self.report.errors@.len() == 0
        &&& self.phase == RunPhase::AwaitTarget ==> all_under(self.source_files@, self.params.source@)
    }

    /// The scans this event reports can be planned: every file of a source
    /// scan lies under the source root, and the files a target scan leaves
    /// to copy add up within `u64`.
    pub open spec fn plannable(&self, event: RunEvent) -> bool {
        &&& self.phase == RunPhase::AwaitSource ==> (event matches RunEvent::SourceScanned(Ok(files)) ==> all_under(
            files@,
            self.params.source@,
        ))
        &&& self.phase == RunPhase::AwaitTarget ==> (event matches RunEvent::TargetScanned(targets, _) ==> queue_size(
            spec_sync_queue(
                self.source_files@,
                self.params.source@,
                targets@,
                self.params.target@,
                self.params.checksum,
            ),
        ) <= u64::MAX)
    }

    /// A run about to scan its source.
    pub fn new(params: SyncParameters) -> (r: (Self, RunRequest))
        ensures
            r.0.inv(),
            r.0.params == params,
            r.0.phase == RunPhase::AwaitSource,
            r.0.report.is_empty_report(),
            r.1 == r.0.request_for(),
    {
        let run = SyncRun {
            params,
            phase: RunPhase::AwaitSource,
            source_files: Vec::new(),
            plan: SyncPlan { queue: Vec::new(), total_size: 0 },
            to_delete: Vec::new(),
            next: 0,
            report: SyncReport::new(),
            outcome: None,
        };
        (run, RunRequest::ScanSource)
    }

    /// The files chosen for deletion have been dealt with (or there are
    /// none): end when there is nothing to do, list the copies in a dry
    /// run, else start copying.
    fn after_deletions(&mut self) -> (req: RunRequest)
        requires
            old(self).outcome is None,
            !old(self).params.delete_extra ==> old(self).report.deleted@.len() == 0
                && old(self).report.would_delete@.len() == 0,
            old(self).params.dry_run ==> old(self).report.deleted@.len() == 0
                && old(self).report.delete_errors@.len() == 0 && old(self).report.errors@.len() == 0,
        ensures
            final(self).inv(),
            req == final(self).request_for(),
            final(self).params == old(self).params,
            final(self).plan == old(self).plan,
            final(self).to_delete == old(self).to_delete,
            final(self).source_files == old(self).source_files,
            spec_after_deletions(old(self).params, old(self).plan, old(self).report, *final(self)),
    {
        if nothing_to_sync(&self.plan, self.params.delete_extra, &self.report) {
            self.phase = RunPhase::Finished;
            self.outcome = Some(Ok(true));
            RunRequest::Finish
        } else if self.params.dry_run {
            record_dry_run_copies(&mut self.report, &self.plan);
            self.phase = RunPhase::Finished;
            self.outcome = Some(Ok(false));
            RunRequest::Finish
        } else if self.plan.queue.len() == 0 {
            self.finish_copies()
        } else {
            self.next = 0;
            self.phase = RunPhase::Copying;
            RunRequest::Copy(0)
        }
    }

    /// Ends a run whose copies are done: an error when some failed.
    fn finish_copies(&mut self) -> (req: RunRequest)
        ensures
            final(self).phase == RunPhase::Finished,
            req == RunRequest::Finish,
            final(self).params == old(self).params,
            final(self).report == old(self).report,
            final(self).plan == old(self).plan,
            final(self).to_delete == old(self).to_delete,
            final(self).source_files == old(self).source_files,
            final(self).next == old(self).next,
            copies_outcome(old(self).report, final(self).outcome),
    {
        match finish_sync(&self.report) {
            Ok(()) => {
                self.outcome = Some(Ok(false));
            },
            Err(m) => {
                self.outcome = Some(Err(RunFailure::Copies(m)));
            },
        }
        self.phase = RunPhase::Finished;
        RunRequest::Finish
    }

    /// Takes one event and says what to do next (`spec_step`): each
    /// request fits the new state, a deletion is asked for only when
    /// deletion is on and the run is not a dry run, a copy only when the run
    /// is not a dry run, and the report records every outcome handed back.
    pub fn step(&mut self, event: RunEvent) -> (req: RunRequest)
        requires
            old(self).inv(),
            old(self).plannable(event),
        ensures
            final(self).inv(),
            spec_step(*old(self), event, *final(self), req),
    {
        let phase = self.phase;
        match event {
            RunEvent::SourceScanned(result) => {
                if phase != RunPhase::AwaitSource {
                    return self.current_request();
                }
                match result {
                    Err(e) => {
                        self.phase = RunPhase::Finished;
                        self.outcome = Some(Err(RunFailure::SourceScan(e)));
                        RunRequest::Finish
                    },
                    Ok(files) => {
                        self.source_files = files;
                        self.phase = RunPhase::AwaitTarget;
                        RunRequest::ScanTarget
                    },
                }
            },
            RunEvent::TargetScanned(targets, writable) => {
                if phase != RunPhase::AwaitTarget {
                    return self.current_request();
                }
                self.plan = plan_sync(
                    &self.source_files,
                    self.params.source.as_str(),
                    &targets,
                    self.params.target.as_str(),
                    self.params.checksum,
                );
                if !self.params.dry_run && !writable && self.plan.queue.len() > 0 {
                    let mut m = String::from_str("Only readable directory: ");
                    m.append(self.params.target.as_str());
                    self.phase = RunPhase::Finished;
                    self.outcome = Some(Err(RunFailure::ReadOnlyTarget(m)));
                    RunRequest::Finish
                } else if self.params.delete_extra {
                    self.phase = RunPhase::AwaitDeletionInputs;
                    RunRequest::ReadDeletionInputs
                } else {
                    self.after_deletions()
                }
            },
            RunEvent::DeletionInputs(result) => {
                if phase != RunPhase::AwaitDeletionInputs {
                    return self.current_request();
                }
                match result {
                    Err(m) => {
                        self.phase = RunPhase::Finished;
                        self.outcome = Some(Err(RunFailure::Deletion(m)));
                        RunRequest::Finish
                    },
                    Ok((sources, targets)) => {
                        self.to_delete = files_to_delete(
                            &sources,
                            self.params.source.as_str(),
                            &targets,
                            self.params.target.as_str(),
                            self.params.excludes.as_slice(),
                            self.params.delete_excludes.as_slice(),
                        );
                        if self.params.dry_run {
                            let ghost start = texts(self.report.would_delete@);
                            let ghost td = self.to_delete@;
                            let mut i: usize = 0;
                            while i < self.to_delete.len()
                                invariant
                                    i <= self.to_delete@.len(),
                                    texts(self.report.would_delete@) == start + texts(self.to_delete@.take(i as int)),
                                    self.report.deleted@ == old(self).report.deleted@,
                                    self.report.copied@ == old(self).report.copied@,
                                    self.report.errors@ == old(self).report.errors@,
                                    self.report.delete_errors@ == old(self).report.delete_errors@,
                                    self.outcome is None,
                                    self.phase == RunPhase::AwaitDeletionInputs,
                                    self.params == old(self).params,
                                    self.plan == old(self).plan,
                                    self.to_delete@ == td,
                                decreases self.to_delete.len() - i,
                            {
                                let ghost before = texts(self.report.would_delete@);
                                record_would_delete(&mut self.report, &self.to_delete[i]);
                                i = i + 1;
                                assert(texts(self.to_delete@.take(i as int)) =~= texts(self.to_delete@.take(i - 1)).push(
                                    self.to_delete@[i - 1]@,
                                ));
                                assert(texts(self.report.would_delete@) =~= start + texts(self.to_delete@.take(i as int)));
                            }
                            assert(self.to_delete@.take(self.to_delete.len() as int) =~= self.to_delete@);
                            self.after_deletions()
                        } else if self.to_delete.len() == 0 {
                            self.after_deletions()
                        } else {
                            self.next = 0;
                            self.phase = RunPhase::Deleting;
                            RunRequest::Delete(0)
                        }
                    },
                }
            },
            RunEvent::Deleted(outcome) => {
                if phase != RunPhase::Deleting {
                    return self.current_request();
                }
                let i = self.next;
                record_deletion(&mut self.report, &self.to_delete[i], outcome);
                if i < self.to_delete.len() - 1 {
                    self.next = i + 1;
                    RunRequest::Delete(i + 1)
                } else {
                    self.after_deletions()
                }
            },
            RunEvent::Copied(outcome) => {
                if phase != RunPhase::Copying {
                    return self.current_request();
                }
                let i = self.next;
                record_copy(&mut self.report, &self.plan.queue[i], outcome);
                if i < self.plan.queue.len() - 1 {
                    self.next = i + 1;
                    RunRequest::Copy(i + 1)
                } else {
                    self.finish_copies()
                }
            },
        }
    }

    /// Takes one event as `step` does, after checking that its scan can be
    /// planned: `None`, with the run unchanged, when a file of a source scan
    /// lies outside the source root, or when the files a target scan leaves
    /// to copy add up beyond `u64`.
    pub fn step_checked(&mut self, event: RunEvent) -> (r: Option<RunRequest>)
        requires
            old(self).inv(),
        ensures
            r is None <==> !old(self).plannable(event),
            r is None ==> *final(self) == *old(self),
            final(self).inv(),
            r matches Some(req) ==> spec_step(*old(self), event, *final(self), req),
    {
        if self.phase == RunPhase::AwaitSource {
            if let RunEvent::SourceScanned(Ok(files)) = &event {
                if !all_under_root(files, self.params.source.as_str()) {
                    return None;
                }
            }
        }
        if self.phase == RunPhase::AwaitTarget {
            if let RunEvent::TargetScanned(targets, _) = &event {
                let fits = plan_sync_checked(
                    &self.source_files,
                    self.params.source.as_str(),
                    targets,
                    self.params.target.as_str(),
                    self.params.checksum,
                ).is_some();
                if !fits {
                    return None;
                }
            }
        }
        Some(self.step(event))
    }

    /// The request that fits the current state.
    fn current_request(&self) -> (req: RunRequest)
        ensures
            req == self.request_for(),
    {
        match self.phase {
            RunPhase::AwaitSource => RunRequest::ScanSource,
            RunPhase::AwaitTarget => RunRequest::ScanTarget,
            RunPhase::AwaitDeletionInputs => RunRequest::ReadDeletionInputs,
            RunPhase::Deleting => RunRequest::Delete(self.next),
            RunPhase::Copying => RunRequest::Copy(self.next),
            RunPhase::Finished => RunRequest::Finish,
        }
    }
}

/// Re-running a sync over an up-to-date target does nothing: without
/// deletion, when the target already holds an up-to-date copy of every
/// source file, the run ends as soon as the target is scanned, successfully
/// and with nothing to report beyond what it had.
pub proof fn lemma_up_to_date_run_does_nothing(
    old: SyncRun,
    targets: Vec<FileInfo>,
    writable: bool,
    new: SyncRun,
    req: RunRequest,
)
    requires
        old.phase == RunPhase::AwaitTarget,
        !old.params.delete_extra,
        target_up_to_date(
            old.source_files@,
            old.params.source@,
            targets@,
            old.params.target@,
            old.params.checksum,
        ),
        spec_step(old, RunEvent::TargetScanned(targets, writable), new, req),
    ensures
        new.phase == RunPhase::Finished,
        new.outcome == Some(Ok::<bool, RunFailure>(true)),
        new.report == old.report,
        req == RunRequest::Finish,
{
    lemma_up_to_date_target_needs_no_copies(
        old.source_files@,
        old.params.source@,
        targets@,
        old.params.target@,
        old.params.checksum,
    );
    assert(queue_view(new.plan.queue@).len() == new.plan.queue@.len());
}

/// A real run never skips its copies: in a run that is not a dry run, a
/// step taken before copying that leaves a non-empty copy queue does not
/// end the run successfully; once it leaves the scanning and deleting
/// phases it either copies the queue from its first file or has failed.
pub proof fn lemma_real_run_copies_its_queue(old: SyncRun, event: RunEvent, new: SyncRun, req: RunRequest)
    requires
        old.inv(),
        spec_step(old, event, new, req),
        new.inv(),
        !old.params.dry_run,
        old.phase != RunPhase::Copying,
        old.phase != RunPhase::Finished,
        new.plan.queue@.len() > 0,
    ensures
        !(new.outcome matches Some(Ok(_))),
        new.phase == RunPhase::Copying || new.phase == RunPhase::Finished ==> (new.phase == RunPhase::Copying
            && new.next == 0 && req == RunRequest::Copy(0)) || new.outcome matches Some(Err(_)),
{
}

/// "Nothing to sync" means nothing to copy: a step that ends a run
/// successfully as having had nothing to do leaves an empty copy queue.
pub proof fn lemma_nothing_to_do_means_empty_queue(old: SyncRun, event: RunEvent, new: SyncRun, req: RunRequest)
    requires
        old.inv(),
        spec_step(old, event, new, req),
        new.inv(),
        old.phase != RunPhase::Finished,
        new.outcome == Some(Ok::<bool, RunFailure>(true)),
    ensures
        new.plan.queue@.len() == 0,
{
}

} // verus!
