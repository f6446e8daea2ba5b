//! The decisions of one sync run: which files to copy, and how the run ends.

use vstd::prelude::*;
use crate::paths::{join, path_join, path_strip_prefix, strip_prefix};
use crate::sync::filter::{should_sync, spec_should_sync};
use crate::sync::types::{clone_file_info, FileInfo};
use crate::numbers::{decimal, push_decimal};
use crate::sync::report::{error_lines, pair_texts, push_error_lines, texts, SyncReport};
use crate::text::chars_of;

verus! {

/// The options of one sync run.
pub struct SyncOptions {
    pub dry_run: bool,
    pub excludes: Vec<String>,
    pub checksum: bool,
    pub delete_extra: bool,
    pub delete_excludes: Vec<String>,
}

impl Default for SyncOptions {
    /// No dry run, no rules, no checksum, no deletion.
    fn default() -> (o: Self)
        ensures
            !o.dry_run,
            o.excludes@.len() == 0,
            !o.checksum,
            !o.delete_extra,
            o.delete_excludes@.len() == 0,
    {
        SyncOptions {
            dry_run: false,
            excludes: Vec::new(),
            checksum: false,
            delete_extra: false,
            delete_excludes: Vec::new(),
        }
    }
}

/// A file to copy and where it goes.
pub struct SyncItem {
    pub source: FileInfo,
    pub target_path: String,
}

/// The files to copy, in scan order, and their total size in bytes.
pub struct SyncPlan {
    pub queue: Vec<SyncItem>,
    pub total_size: u64,
}

/// The plan's queue as (file, target path) pairs.
pub open spec fn queue_view(q: Seq<SyncItem>) -> Seq<(FileInfo, Seq<char>)> {
    q.map_values(|it: SyncItem| (it.source, it.target_path@))
}

/// The target file recorded under relative path `rel`: the last file (not
/// directory) of `targets` whose path, relative to `target_root`, is `rel`.
pub open spec fn cache_lookup(targets: Seq<FileInfo>, target_root: Seq<char>, rel: Seq<char>) -> Option<FileInfo>
    decreases targets.len(),
{
    if targets.len() == 0 {
        None
    } else if !targets.last().is_dir && path_strip_prefix(targets.last().path@, target_root) == Some(rel) {
        Some(targets.last())
    } else {
        cache_lookup(targets.drop_last(), target_root, rel)
    }
}

/// Every file of `files` lies under `root`.
pub open spec fn all_under(files: Seq<FileInfo>, root: Seq<char>) -> bool {
    forall|i: int| 0 <= i < files.len() ==> (#[trigger] path_strip_prefix(files[i].path@, root)) is Some
}

/// The copy queue: each source file (directories are skipped) that needs
/// syncing against the target file at the same relative path, paired with
/// that path under the target root.
pub open spec fn spec_sync_queue(
    sources: Seq<FileInfo>,
    source_root: Seq<char>,
    targets: Seq<FileInfo>,
    target_root: Seq<char>,
    checksum: bool,
) -> Seq<(FileInfo, Seq<char>)>
    decreases sources.len(),
{
    if sources.len() == 0 {
        Seq::empty()
    } else {
        let prev = spec_sync_queue(sources.drop_last(), source_root, targets, target_root, checksum);
        let f = sources.last();
        let rel = path_strip_prefix(f.path@, source_root)->0;
        if !f.is_dir && spec_should_sync(f, cache_lookup(targets, target_root, rel), checksum) {
            prev.push((f, path_join(target_root, rel)))
        } else {
            prev
        }
    }
}

/// The total size of the files of a queue.
pub open spec fn queue_size(q: Seq<(FileInfo, Seq<char>)>) -> nat
    decreases q.len(),
{
    if q.len() == 0 {
        0
    } else {
        queue_size(q.drop_last()) + q.last().0.size as nat
    }
}

/// Queues only grow as more source files are planned: the queue of a
/// prefix of the sources is no larger in total size than the whole queue.
proof fn lemma_queue_size_prefix(
    sources: Seq<FileInfo>,
    source_root: Seq<char>,
    targets: Seq<FileInfo>,
    target_root: Seq<char>,
    checksum: bool,
    k: int,
)
    requires
        0 <= k <= sources.len(),
    ensures
        queue_size(spec_sync_queue(sources.take(k), source_root, targets, target_root, checksum)) <= queue_size(
            spec_sync_queue(sources, source_root, targets, target_root, checksum),
        ),
    decreases sources.len() - k,
{
    if k < sources.len() {
        lemma_queue_size_prefix(sources, source_root, targets, target_root, checksum, k + 1);
        let pre = sources.take(k + 1);
        assert(pre.drop_last() =~= sources.take(k));
        let prev = spec_sync_queue(sources.take(k), source_root, targets, target_root, checksum);
        let f = pre.last();
        let item = (f, path_join(target_root, path_strip_prefix(f.path@, source_root)->0));
        assert(prev.push(item).drop_last() =~= prev);
    } else {
        assert(sources.take(k) =~= sources);
    }
}

/// The relative path of every target file, in order.
fn target_keys(targets: &Vec<FileInfo>, target_root: &str) -> (keys: Vec<Option<String>>)
    ensures
        keys@.len() == targets@.len(),
        forall|k: int| 0 <= k < keys@.len() ==> match #[trigger] keys@[k] {
            Some(s) => path_strip_prefix(targets@[k].path@, target_root@) == Some(s@),
            None => path_strip_prefix(targets@[k].path@, target_root@) is None,
        },
{
    let mut keys: Vec<Option<String>> = Vec::new();
    let mut i: usize = 0;
    while i < targets.len()
        invariant
            i <= targets@.len(),
            keys@.len() == i,
            forall|k: int| 0 <= k < i ==> match #[trigger] keys@[k] {
                Some(s) => path_strip_prefix(targets@[k].path@, target_root@) == Some(s@),
                None => path_strip_prefix(targets@[k].path@, target_root@) is None,
            },
        decreases targets.len() - i,
    {
        keys.push(strip_prefix(targets[i].path.as_str(), target_root));
        i = i + 1;
    }
    keys
}

/// The target file at relative path `rel`, looked up in the keyed targets.
fn lookup_target<'a>(
    targets: &'a Vec<FileInfo>,
    keys: &Vec<Option<String>>,
    target_root: &str,
    rel: &str,
) -> (r: Option<&'a FileInfo>)
    requires
        keys@.len() == targets@.len(),
        forall|k: int| 0 <= k < keys@.len() ==> match #[trigger] keys@[k] {
            Some(s) => path_strip_prefix(targets@[k].path@, target_root@) == Some(s@),
            None => path_strip_prefix(targets@[k].path@, target_root@) is None,
        },
    ensures
        match r {
            Some(t) => cache_lookup(targets@, target_root@, rel@) == Some(*t),
            None => cache_lookup(targets@, target_root@, rel@) is None,
        },
{
    let relv = chars_of(rel);
    let mut j: usize = targets.len();
    assert(targets@.take(j as int) =~= targets@);
    while j > 0
        invariant
            j <= targets@.len(),
            keys@.len() == targets@.len(),
            relv@ == rel@,
            forall|k: int| 0 <= k < keys@.len() ==> match #[trigger] keys@[k] {
                Some(s) => path_strip_prefix(targets@[k].path@, target_root@) == Some(s@),
                None => path_strip_prefix(targets@[k].path@, target_root@) is None,
            },
            cache_lookup(targets@, target_root@, rel@) == cache_lookup(targets@.take(j as int), target_root@, rel@),
        decreases j,
    {
        let ghost pre = targets@.take(j as int);
        assert(pre.drop_last() =~= targets@.take(j - 1));
        assert(pre.last() == targets@[j - 1]);
        let k = j - 1;
        let hit = !targets[k].is_dir && match &keys[k] {
            Some(s) => {
                let sv = chars_of(s.as_str());
                crate::text::chars_eq(sv.as_slice(), relv.as_slice())
            },
            None => false,
        };
        if hit {
            return Some(&targets[k]);
        }
        j = k;
    }
    None
}

/// Plans the copies with sizes added up by checked arithmetic: `None`
/// exactly when the queued sizes add up beyond `u64`.
fn plan_within(
    source_files: &Vec<FileInfo>,
    source_root: &str,
    target_files: &Vec<FileInfo>,
    target_root: &str,
    checksum: bool,
) -> (r: Option<SyncPlan>)
    requires
        all_under(source_files@, source_root@),
    ensures
        r is None <==> queue_size(
            spec_sync_queue(source_files@, source_root@, target_files@, target_root@, checksum),
        ) > u64::MAX,
        r matches Some(plan) ==> {
            &&& queue_view(plan.queue@) == spec_sync_queue(
                source_files@,
                source_root@,
                target_files@,
                target_root@,
                checksum,
            )
            &&& plan.total_size == queue_size(queue_view(plan.queue@))
        },
{
    let keys = target_keys(target_files, target_root);
    let mut queue: Vec<SyncItem> = Vec::new();
    let mut total: u64 = 0;
    let mut i: usize = 0;
    while i < source_files.len()
        invariant
            i <= source_files@.len(),
            all_under(source_files@, source_root@),
            keys@.len() == target_files@.len(),
            forall|k: int| 0 <= k < keys@.len() ==> match #[trigger] keys@[k] {
                Some(s) => path_strip_prefix(target_files@[k].path@, target_root@) == Some(s@),
                None => path_strip_prefix(target_files@[k].path@, target_root@) is None,
            },
            queue_view(queue@) == spec_sync_queue(
                source_files@.take(i as int),
                source_root@,
                target_files@,
                target_root@,
                checksum,
            ),
            total == queue_size(queue_view(queue@)),
        decreases source_files.len() - i,
    {
        let ghost pre = source_files@.take(i + 1);
        assert(pre.drop_last() =~= source_files@.take(i as int));
        assert(pre.last() == source_files@[i as int]);
        let f = &source_files[i];
        assert(path_strip_prefix(source_files@[i as int].path@, source_root@) is Some);
        let rel = match strip_prefix(f.path.as_str(), source_root) {
            Some(rel) => rel,
            None => {
                return None;
            },
        };
        let target = lookup_target(target_files, &keys, target_root, rel.as_str());
        if !f.is_dir && should_sync(f, target, checksum) {
            let target_path = join(target_root, rel.as_str());
            let ghost qv = queue_view(queue@);
            queue.push(SyncItem { source: clone_file_info(f), target_path });
            assert(queue_view(queue@) =~= qv.push((source_files@[i as int], path_join(target_root@, rel@))));
            assert(queue_view(queue@).drop_last() =~= qv);
            match total.checked_add(f.size) {
                Some(t) => {
                    total = t;
                },
                None => {
                    proof {
                        lemma_queue_size_prefix(
                            source_files@,
                            source_root@,
                            target_files@,
                            target_root@,
                            checksum,
                            i + 1,
                        );
                    }
                    return None;
                },
            }
        }
        i = i + 1;
    }
    assert(source_files@.take(source_files.len() as int) =~= source_files@);
    Some(SyncPlan { queue, total_size: total })
}

/// Plans the copies of a sync run: walks the source files in order and
/// queues each one that `should_sync` asks for, comparing it with the
/// target file at the same relative path (when several target files share
/// that path, the last one). Every source file lies under the source root,
/// and the queued sizes add up within `u64`.
pub fn plan_sync(
    source_files: &Vec<FileInfo>,
    source_root: &str,
    target_files: &Vec<FileInfo>,
    target_root: &str,
    checksum: bool,
) -> (plan: SyncPlan)
    requires
        all_under(source_files@, source_root@),
        queue_size(spec_sync_queue(source_files@, source_root@, target_files@, target_root@, checksum))
            <= u64::MAX,
    ensures
        queue_view(plan.queue@) == spec_sync_queue(source_files@, source_root@, target_files@, target_root@, checksum),
        plan.total_size == queue_size(queue_view(plan.queue@)),
{
    match plan_within(source_files, source_root, target_files, target_root, checksum) {
        Some(plan) => plan,
        None => {
            proof {
                assert(false);
            }
            SyncPlan { queue: Vec::new(), total_size: 0 }
        },
    }
}

/// Whether every file of `files` lies under `root`.
pub(crate) fn all_under_root(files: &Vec<FileInfo>, root: &str) -> (b: bool)
    ensures
        b == all_under(files@, root@),
{
    let mut i: usize = 0;
    while i < files.len()
        invariant
            i <= files@.len(),
            forall|k: int| 0 <= k < i ==> (#[trigger] path_strip_prefix(files@[k].path@, root@)) is Some,
        decreases files.len() - i,
    {
        if strip_prefix(files[i].path.as_str(), root).is_none() {
            return false;
        }
        i = i + 1;
    }
    true
}

/// Plans as `plan_sync` does, after checking that it can: `None` when a
/// source file does not lie under the source root or the queued sizes add
/// up beyond `u64`.
pub fn plan_sync_checked(
    source_files: &Vec<FileInfo>,
    source_root: &str,
    target_files: &Vec<FileInfo>,
    target_root: &str,
    checksum: bool,
) -> (r: Option<SyncPlan>)
    ensures
        r is None <==> !(all_under(source_files@, source_root@) && queue_size(
            spec_sync_queue(source_files@, source_root@, target_files@, target_root@, checksum),
        ) <= u64::MAX),
        r matches Some(plan) ==> {
            &&& queue_view(plan.queue@) == spec_sync_queue(
                source_files@,
                source_root@,
                target_files@,
                target_root@,
                checksum,
            )
            &&& plan.total_size == queue_size(queue_view(plan.queue@))
        },
{
    if !all_under_root(source_files, source_root) {
        return None;
    }
    plan_within(source_files, source_root, target_files, target_root, checksum)
}

/// The number of files (directories aside) among `records`.
pub open spec fn file_count(records: Seq<FileInfo>) -> nat
    decreases records.len(),
{
    if records.len() == 0 {
        0
    } else {
        file_count(records.drop_last()) + if records.last().is_dir { 0nat } else { 1nat }
    }
}

/// How many of the scanned records are files: the number a report gives
/// as the source's file count.
pub fn count_files(records: &Vec<FileInfo>) -> (n: usize)
    ensures
        n == file_count(records@),
{
    let mut n: usize = 0;
    let mut i: usize = 0;
    while i < records.len()
        invariant
            i <= records@.len(),
            n == file_count(records@.take(i as int)),
            n <= i,
        decreases records.len() - i,
    {
        assert(records@.take(i + 1).drop_last() =~= records@.take(i as int));
        if !records[i].is_dir {
            n = n + 1;
        }
        i = i + 1;
    }
    assert(records@.take(records.len() as int) =~= records@);
    n
}

/// Whether the run has nothing to do and ends early: nothing to copy, and
/// either deletion is off or it deleted nothing, found nothing to delete
/// and met no deletion error.
pub open spec fn spec_nothing_to_sync(queue_len: nat, delete_extra: bool, report: SyncReport) -> bool {
    &&& queue_len == 0
    &&& (!delete_extra || (report.would_delete@.len() == 0 && report.deleted@.len() == 0
        && report.delete_errors@.len() == 0))
}

/// Whether the run has nothing to do and ends early.
pub fn nothing_to_sync(plan: &SyncPlan, delete_extra: bool, report: &SyncReport) -> (b: bool)
    ensures
        b == spec_nothing_to_sync(plan.queue@.len(), delete_extra, *report),
{
    plan.queue.len() == 0 && (!delete_extra || (report.would_delete.len() == 0 && report.deleted.len() == 0
        && report.delete_errors.len() == 0))
}

/// The source paths of a queue.
pub open spec fn queue_sources(q: Seq<SyncItem>) -> Seq<Seq<char>> {
    q.map_values(|it: SyncItem| it.source.path@)
}

/// `after` is `before` with every queued file listed as copied, in queue
/// order, and nothing else changed.
pub open spec fn dry_run_copies_recorded(before: SyncReport, plan: SyncPlan, after: SyncReport) -> bool {
    &&& texts(after.copied@) == texts(before.copied@) + queue_sources(plan.queue@)
    &&& after.errors@ == before.errors@
    &&& after.deleted@ == before.deleted@
    &&& after.would_delete@ == before.would_delete@
    &&& after.delete_errors@ == before.delete_errors@
}

/// Dry run: every queued file is listed as copied, in queue order.
pub fn record_dry_run_copies(report: &mut SyncReport, plan: &SyncPlan)
    ensures
        dry_run_copies_recorded(*old(report), *plan, *final(report)),
{
    let ghost start = texts(report.copied@);
    let mut i: usize = 0;
    while i < plan.queue.len()
        invariant
            i <= plan.queue@.len(),
            texts(report.copied@) == start + queue_sources(plan.queue@.take(i as int)),
            report.errors@ == old(report).errors@,
            report.deleted@ == old(report).deleted@,
            report.would_delete@ == old(report).would_delete@,
            report.delete_errors@ == old(report).delete_errors@,
        decreases plan.queue.len() - i,
    {
        let ghost prev = texts(report.copied@);
        report.copied.push(plan.queue[i].source.path.clone());
        assert(texts(report.copied@) =~= prev.push(plan.queue@[i as int].source.path@));
        i = i + 1;
        assert(queue_sources(plan.queue@.take(i as int)) =~= queue_sources(plan.queue@.take(i - 1)).push(
            plan.queue@[i - 1].source.path@,
        ));
    }
    assert(plan.queue@.take(plan.queue.len() as int) =~= plan.queue@);
}

/// `after` is `before` with the outcome of copying `item` recorded: on
/// success its source path is listed as copied; on failure its target path
/// and the error are listed as an error. Nothing else changes.
pub open spec fn copy_recorded(before: SyncReport, item: SyncItem, outcome: Result<(), String>, after: SyncReport) -> bool {
    &&& after.deleted@ == before.deleted@
    &&& after.would_delete@ == before.would_delete@
    &&& after.delete_errors@ == before.delete_errors@
    &&& match outcome {
        Ok(()) => {
            &&& texts(after.copied@) == texts(before.copied@).push(item.source.path@)
            &&& after.errors@ == before.errors@
        },
        Err(e) => {
            &&& after.copied@ == before.copied@
            &&& pair_texts(after.errors@) == pair_texts(before.errors@).push((item.target_path@, e@))
        },
    }
}

/// Records the outcome of copying one queued file: on success its source
/// path counts as copied; on failure the target path and the error are kept.
pub fn record_copy(report: &mut SyncReport, item: &SyncItem, outcome: Result<(), String>)
    ensures
        copy_recorded(*old(report), *item, outcome, *final(report)),
{
    let ghost c = texts(report.copied@);
    let ghost er = pair_texts(report.errors@);
    match outcome {
        Ok(()) => {
            report.copied.push(item.source.path.clone());
            assert(texts(report.copied@) =~= c.push(item.source.path@));
        },
        Err(e) => {
            let ghost ev = e@;
            report.errors.push((item.target_path.clone(), e));
            assert(pair_texts(report.errors@) =~= er.push((item.target_path@, ev)));
        },
    }
}

/// The message of a run in which copies failed: their number, then one
/// line `  - target: cause` per failure.
pub open spec fn copy_failure_message(errors: Seq<(Seq<char>, Seq<char>)>) -> Seq<char> {
    "Failed to copy "@ + decimal(errors.len()) + " files:\n"@ + error_lines(errors)
}

/// How a run ends: an error, naming each failed copy and its cause, when
/// some copy failed; else success.
pub fn finish_sync(report: &SyncReport) -> (r: Result<(), String>)
    ensures
        match r {
            Ok(()) => report.errors@.len() == 0,
            Err(m) => report.errors@.len() > 0 && m@ == copy_failure_message(pair_texts(report.errors@)),
        },
{
    if report.errors.len() > 0 {
        let mut m = String::from_str("Failed to copy ");
        push_decimal(&mut m, report.errors.len() as u64);
        m.append(" files:\n");
        push_error_lines(&mut m, &report.errors);
        Err(m)
    } else {
        Ok(())
    }
}

/// Whether the target already holds an up-to-date copy of every source
/// file (directories aside): the target file at the same relative path
/// exists and would not be copied over.
pub open spec fn target_up_to_date(
    sources: Seq<FileInfo>,
    source_root: Seq<char>,
    targets: Seq<FileInfo>,
    target_root: Seq<char>,
    checksum: bool,
) -> bool {
    forall|i: int|
        0 <= i < sources.len() && !sources[i].is_dir ==> !spec_should_sync(
            #[trigger] sources[i],
            cache_lookup(targets, target_root, path_strip_prefix(sources[i].path@, source_root)->0),
            checksum,
        )
}

/// A sync run is idempotent: when the target already holds an up-to-date
/// copy of every source file, nothing is queued for copying.
pub proof fn lemma_up_to_date_target_needs_no_copies(
    sources: Seq<FileInfo>,
    source_root: Seq<char>,
    targets: Seq<FileInfo>,
    target_root: Seq<char>,
    checksum: bool,
)
    ensures
        target_up_to_date(sources, source_root, targets, target_root, checksum) ==> spec_sync_queue(
            sources,
            source_root,
            targets,
            target_root,
            checksum,
        ).len() == 0,
    decreases sources.len(),
{
    if sources.len() > 0 && target_up_to_date(sources, source_root, targets, target_root, checksum) {
        let prefix = sources.drop_last();
        assert(target_up_to_date(prefix, source_root, targets, target_root, checksum)) by {
            assert forall|i: int| 0 <= i < prefix.len() && !prefix[i].is_dir implies !spec_should_sync(
                #[trigger] prefix[i],
                cache_lookup(targets, target_root, path_strip_prefix(prefix[i].path@, source_root)->0),
                checksum,
            ) by {
                assert(prefix[i] == sources[i]);
            }
        }
        lemma_up_to_date_target_needs_no_copies(prefix, source_root, targets, target_root, checksum);
        assert(sources.last() == sources[sources.len() - 1]);
    }
}

/// Every queued copy comes from a source file (not a directory) that needs
/// syncing, and goes to that file's relative path under the target root.
pub proof fn lemma_queue_only_needed_files(
    sources: Seq<FileInfo>,
    source_root: Seq<char>,
    targets: Seq<FileInfo>,
    target_root: Seq<char>,
    checksum: bool,
)
    ensures
        forall|k: int|
            0 <= k < spec_sync_queue(sources, source_root, targets, target_root, checksum).len() ==> {
                let item = #[trigger] spec_sync_queue(sources, source_root, targets, target_root, checksum)[k];
                let rel = path_strip_prefix(item.0.path@, source_root)->0;
                &&& sources.contains(item.0)
                &&& !item.0.is_dir
                &&& spec_should_sync(item.0, cache_lookup(targets, target_root, rel), checksum)
                &&& item.1 == path_join(target_root, rel)
            },
    decreases sources.len(),
{
    if sources.len() > 0 {
        let prefix = sources.drop_last();
        lemma_queue_only_needed_files(prefix, source_root, targets, target_root, checksum);
        let prev = spec_sync_queue(prefix, source_root, targets, target_root, checksum);
        let all = spec_sync_queue(sources, source_root, targets, target_root, checksum);
        assert forall|k: int| 0 <= k < all.len() implies {
            let item = #[trigger] all[k];
            let rel = path_strip_prefix(item.0.path@, source_root)->0;
            &&& sources.contains(item.0)
            &&& !item.0.is_dir
            &&& spec_should_sync(item.0, cache_lookup(targets, target_root, rel), checksum)
            &&& item.1 == path_join(target_root, rel)
        } by {
            if k < prev.len() {
                assert(all[k] == prev[k]);
                let j = choose|j: int| 0 <= j < prefix.len() && prefix[j] == prev[k].0;
                assert(sources[j] == prefix[j]);
            } else {
                assert(sources[sources.len() - 1] == sources.last());
            }
        }
    }
}

/// Every new or changed file is copied: each source file (not a
/// directory) that needs syncing against the target file at its relative
/// path is queued, bound for that relative path under the target root.
pub proof fn lemma_needed_files_queued(
    sources: Seq<FileInfo>,
    source_root: Seq<char>,
    targets: Seq<FileInfo>,
    target_root: Seq<char>,
    checksum: bool,
)
    ensures
        forall|i: int|
            0 <= i < sources.len() && !sources[i].is_dir && spec_should_sync(
                #[trigger] sources[i],
                cache_lookup(targets, target_root, path_strip_prefix(sources[i].path@, source_root)->0),
                checksum,
            ) ==> spec_sync_queue(sources, source_root, targets, target_root, checksum).contains(
                (sources[i], path_join(target_root, path_strip_prefix(sources[i].path@, source_root)->0)),
            ),
    decreases sources.len(),
{
    if sources.len() > 0 {
        let prefix = sources.drop_last();
        lemma_needed_files_queued(prefix, source_root, targets, target_root, checksum);
        let prev = spec_sync_queue(prefix, source_root, targets, target_root, checksum);
        let all = spec_sync_queue(sources, source_root, targets, target_root, checksum);
        assert forall|i: int|
            0 <= i < sources.len() && !sources[i].is_dir && spec_should_sync(
                #[trigger] sources[i],
                cache_lookup(targets, target_root, path_strip_prefix(sources[i].path@, source_root)->0),
                checksum,
            ) implies all.contains(
            (sources[i], path_join(target_root, path_strip_prefix(sources[i].path@, source_root)->0)),
        ) by {
            let item = (sources[i], path_join(target_root, path_strip_prefix(sources[i].path@, source_root)->0));
            if i < sources.len() - 1 {
                assert(prefix[i] == sources[i]);
                assert(prev.contains(item));
                let j = choose|j: int| 0 <= j < prev.len() && prev[j] == item;
                assert(all[j] == prev[j]);
            } else {
                assert(sources[i] == sources.last());
                assert(all[all.len() - 1] == item);
            }
        }
    }
}

/// The target file a source file is compared with lies at the same path
/// relative to the target root, is a file, and is one of the target's
/// records; and when a target file lies at that path, one is found.
pub proof fn lemma_lookup_same_relative_path(targets: Seq<FileInfo>, target_root: Seq<char>, rel: Seq<char>)
    ensures
        cache_lookup(targets, target_root, rel) matches Some(t) ==> {
            &&& path_strip_prefix(t.path@, target_root) == Some(rel)
            &&& !t.is_dir
            &&& targets.contains(t)
        },
        cache_lookup(targets, target_root, rel) is None <==> forall|j: int|
            0 <= j < targets.len() ==> (#[trigger] targets[j]).is_dir || path_strip_prefix(
                targets[j].path@,
                target_root,
            ) != Some(rel),
    decreases targets.len(),
{
    if targets.len() > 0 {
        let init = targets.drop_last();
        lemma_lookup_same_relative_path(init, target_root, rel);
        let last = targets.last();
        assert(targets[targets.len() - 1] == last);
        if !last.is_dir && path_strip_prefix(last.path@, target_root) == Some(rel) {
        } else {
            if let Some(t) = cache_lookup(init, target_root, rel) {
                let j = choose|j: int| 0 <= j < init.len() && init[j] == t;
                assert(targets[j] == init[j]);
            }
            assert forall|j: int| 0 <= j < init.len() implies targets[j] == init[j] by {}
        }
    }
}

/// A new file is always copied: a source file (not a directory) for which
/// the target has no file at the same relative path is queued, bound for
/// that relative path under the target root.
pub proof fn lemma_new_files_queued(
    sources: Seq<FileInfo>,
    source_root: Seq<char>,
    targets: Seq<FileInfo>,
    target_root: Seq<char>,
    checksum: bool,
    i: int,
)
    requires
        0 <= i < sources.len(),
        !sources[i].is_dir,
        path_strip_prefix(sources[i].path@, source_root) is Some,
        forall|j: int|
            0 <= j < targets.len() ==> (#[trigger] targets[j]).is_dir || path_strip_prefix(targets[j].path@, target_root)
                != path_strip_prefix(sources[i].path@, source_root),
    ensures
        spec_sync_queue(sources, source_root, targets, target_root, checksum).contains(
            (sources[i], path_join(target_root, path_strip_prefix(sources[i].path@, source_root)->0)),
        ),
{
    let rel = path_strip_prefix(sources[i].path@, source_root)->0;
    lemma_lookup_same_relative_path(targets, target_root, rel);
    assert(cache_lookup(targets, target_root, rel) is None);
    assert(spec_should_sync(sources[i], None, checksum));
    lemma_needed_files_queued(sources, source_root, targets, target_root, checksum);
}

} // verus!
