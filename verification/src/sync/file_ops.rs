//! File contents digests and the choice of extra target files to delete.

use vstd::prelude::*;
use crate::paths::{path_strip_prefix, strip_prefix};
use crate::sync::filter::{should_exclude, spec_should_exclude};
use crate::sync::report::{pair_texts, texts, SyncReport};
use crate::sync::types::FileInfo;
use crate::text::{chars_eq, chars_of};

verus! {

/// What `blake3::hash` returns for `data`.
pub uninterp spec fn blake3_digest(data: Seq<u8>) -> Seq<u8>;

/// `blake3::hash`, as 32 bytes. The contract claims that the digest
/// depends on the data alone.
#[verifier::external_body]
fn blake3_hash(data: &[u8]) -> (h: [u8; 32])
    ensures
        h@ == blake3_digest(data@),
{
    blake3::hash(data).into()
}

/// The BLAKE3 digest of a file's contents.
pub fn compute_blake3_hash(contents: &[u8]) -> (h: [u8; 32])
    ensures
        h@ == blake3_digest(contents@),
{
    blake3_hash(contents)
}

/// The relative paths of the source files (directories aside), as seen
/// from `source_root`.
pub open spec fn source_rel_paths(sources: Seq<FileInfo>, source_root: Seq<char>) -> Set<Seq<char>> {
    Set::new(
        |rel: Seq<char>|
            exists|i: int|
                0 <= i < sources.len() && !sources[i].is_dir && path_strip_prefix(#[trigger] sources[i].path@, source_root)
                    == Some(rel),
    )
}

/// Whether a target record is an extra file that may be deleted: it is a
/// file under the target root, no source file has its relative path, and
/// neither the sync rules nor the deletion rules (both applied from the
/// target root) exclude it.
pub open spec fn is_extra_file(
    f: FileInfo,
    target_root: Seq<char>,
    source_rels: Set<Seq<char>>,
    exclude: Seq<String>,
    delete_exclude: Seq<String>,
) -> bool {
    &&& !f.is_dir
    &&& match path_strip_prefix(f.path@, target_root) {
        Some(rel) => {
            &&& !source_rels.contains(rel)
            &&& !spec_should_exclude(f.path@, target_root, exclude)
            &&& !spec_should_exclude(f.path@, target_root, delete_exclude)
        },
        None => false,
    }
}

/// The paths of the extra files among the target's records, in order.
pub open spec fn spec_files_to_delete(
    targets: Seq<FileInfo>,
    target_root: Seq<char>,
    source_rels: Set<Seq<char>>,
    exclude: Seq<String>,
    delete_exclude: Seq<String>,
) -> Seq<Seq<char>>
    decreases targets.len(),
{
    if targets.len() == 0 {
        Seq::empty()
    } else {
        let prev = spec_files_to_delete(targets.drop_last(), target_root, source_rels, exclude, delete_exclude);
        if is_extra_file(targets.last(), target_root, source_rels, exclude, delete_exclude) {
            prev.push(targets.last().path@)
        } else {
            prev
        }
    }
}

/// `path` is the path of an extra file among `targets`.
pub open spec fn is_extra_path(
    path: Seq<char>,
    targets: Seq<FileInfo>,
    target_root: Seq<char>,
    source_rels: Set<Seq<char>>,
    exclude: Seq<String>,
    delete_exclude: Seq<String>,
) -> bool {
    exists|j: int|
        0 <= j < targets.len() && (#[trigger] targets[j]).path@ == path && is_extra_file(
            targets[j],
            target_root,
            source_rels,
            exclude,
            delete_exclude,
        )
}

/// Every file chosen for deletion is extra: in particular no file whose
/// relative path the source has is chosen, no file the sync rules exclude,
/// and no file that a deletion rule protects.
pub proof fn lemma_only_extra_files_deleted(
    targets: Seq<FileInfo>,
    target_root: Seq<char>,
    source_rels: Set<Seq<char>>,
    exclude: Seq<String>,
    delete_exclude: Seq<String>,
)
    ensures
        forall|k: int|
            0 <= k < spec_files_to_delete(targets, target_root, source_rels, exclude, delete_exclude).len()
                ==> is_extra_path(
                #[trigger] spec_files_to_delete(targets, target_root, source_rels, exclude, delete_exclude)[k],
                targets,
                target_root,
                source_rels,
                exclude,
                delete_exclude,
            ),
    decreases targets.len(),
{
    if targets.len() > 0 {
        let prefix = targets.drop_last();
        lemma_only_extra_files_deleted(prefix, target_root, source_rels, exclude, delete_exclude);
        let prev = spec_files_to_delete(prefix, target_root, source_rels, exclude, delete_exclude);
        let all = spec_files_to_delete(targets, target_root, source_rels, exclude, delete_exclude);
        assert forall|k: int| 0 <= k < all.len() implies is_extra_path(
            #[trigger] all[k],
            targets,
            target_root,
            source_rels,
            exclude,
            delete_exclude,
        ) by {
            if k < prev.len() {
                assert(all[k] == prev[k]);
                assert(is_extra_path(prev[k], prefix, target_root, source_rels, exclude, delete_exclude));
                let j = choose|j: int|
                    0 <= j < prefix.len() && (#[trigger] prefix[j]).path@ == prev[k] && is_extra_file(
                        prefix[j],
                        target_root,
                        source_rels,
                        exclude,
                        delete_exclude,
                    );
                assert(targets[j] == prefix[j]);
            } else {
                assert(all[k] == targets.last().path@);
                assert(targets[targets.len() - 1] == targets.last());
            }
        }
    }
}

/// Every extra file is chosen for deletion: a target file that no source
/// file matches, that the sync rules do not exclude and that no deletion
/// rule protects is among the files to delete.
pub proof fn lemma_extra_files_chosen(
    targets: Seq<FileInfo>,
    target_root: Seq<char>,
    source_rels: Set<Seq<char>>,
    exclude: Seq<String>,
    delete_exclude: Seq<String>,
)
    ensures
        forall|k: int|
            0 <= k < targets.len() && is_extra_file(#[trigger] targets[k], target_root, source_rels, exclude, delete_exclude)
                ==> spec_files_to_delete(targets, target_root, source_rels, exclude, delete_exclude).contains(
                targets[k].path@,
            ),
    decreases targets.len(),
{
    if targets.len() > 0 {
        let prefix = targets.drop_last();
        lemma_extra_files_chosen(prefix, target_root, source_rels, exclude, delete_exclude);
        let prev = spec_files_to_delete(prefix, target_root, source_rels, exclude, delete_exclude);
        let all = spec_files_to_delete(targets, target_root, source_rels, exclude, delete_exclude);
        assert forall|k: int|
            0 <= k < targets.len() && is_extra_file(
                #[trigger] targets[k],
                target_root,
                source_rels,
                exclude,
                delete_exclude,
            ) implies all.contains(targets[k].path@) by {
            if k < targets.len() - 1 {
                assert(prefix[k] == targets[k]);
                assert(prev.contains(targets[k].path@));
                let j = choose|j: int| 0 <= j < prev.len() && prev[j] == targets[k].path@;
                assert(all[j] == prev[j]);
            } else {
                assert(all[all.len() - 1] == targets.last().path@);
            }
        }
    }
}

/// A file the source still has is never deleted: when a source file lies
/// at the same path relative to the source root as a target record does
/// relative to the target root, that target path is not chosen for
/// deletion, whatever the rules.
pub proof fn lemma_synced_files_kept(
    sources: Seq<FileInfo>,
    source_root: Seq<char>,
    targets: Seq<FileInfo>,
    target_root: Seq<char>,
    exclude: Seq<String>,
    delete_exclude: Seq<String>,
    i: int,
    t: int,
)
    requires
        0 <= i < sources.len(),
        0 <= t < targets.len(),
        !sources[i].is_dir,
        path_strip_prefix(sources[i].path@, source_root) is Some,
        path_strip_prefix(sources[i].path@, source_root) == path_strip_prefix(targets[t].path@, target_root),
    ensures
        !spec_files_to_delete(
            targets,
            target_root,
            source_rel_paths(sources, source_root),
            exclude,
            delete_exclude,
        ).contains(targets[t].path@),
{
    let rels = source_rel_paths(sources, source_root);
    let rel = path_strip_prefix(sources[i].path@, source_root)->0;
    assert(rels.contains(rel));
    let del = spec_files_to_delete(targets, target_root, rels, exclude, delete_exclude);
    lemma_only_extra_files_deleted(targets, target_root, rels, exclude, delete_exclude);
    if del.contains(targets[t].path@) {
        let k = choose|k: int| 0 <= k < del.len() && del[k] == targets[t].path@;
        assert(is_extra_path(del[k], targets, target_root, rels, exclude, delete_exclude));
        let j = choose|j: int|
            0 <= j < targets.len() && (#[trigger] targets[j]).path@ == del[k] && is_extra_file(
                targets[j],
                target_root,
                rels,
                exclude,
                delete_exclude,
            );
        assert(path_strip_prefix(targets[j].path@, target_root) == Some(rel));
    }
}

/// Directories, and files the sync rules or the deletion rules exclude
/// (applied from the target root), are never deleted.
pub proof fn lemma_protected_files_kept(
    targets: Seq<FileInfo>,
    target_root: Seq<char>,
    source_rels: Set<Seq<char>>,
    exclude: Seq<String>,
    delete_exclude: Seq<String>,
    t: int,
)
    requires
        0 <= t < targets.len(),
        forall|j: int|
            0 <= j < targets.len() && (#[trigger] targets[j]).path@ == targets[t].path@ ==> targets[j].is_dir
                || spec_should_exclude(targets[j].path@, target_root, exclude) || spec_should_exclude(
                targets[j].path@,
                target_root,
                delete_exclude,
            ),
    ensures
        !spec_files_to_delete(targets, target_root, source_rels, exclude, delete_exclude).contains(targets[t].path@),
{
    let del = spec_files_to_delete(targets, target_root, source_rels, exclude, delete_exclude);
    lemma_only_extra_files_deleted(targets, target_root, source_rels, exclude, delete_exclude);
    if del.contains(targets[t].path@) {
        let k = choose|k: int| 0 <= k < del.len() && del[k] == targets[t].path@;
        assert(is_extra_path(del[k], targets, target_root, source_rels, exclude, delete_exclude));
    }
}

/// Some key of `keys` is `r`.
pub open spec fn in_keys(keys: Seq<Vec<char>>, r: Seq<char>) -> bool {
    exists|k: int| 0 <= k < keys.len() && (#[trigger] keys[k])@ == r
}

/// One of the first `n` source records, a file, has relative path `r`.
pub open spec fn rel_among(sources: Seq<FileInfo>, n: int, root: Seq<char>, r: Seq<char>) -> bool {
    exists|j: int| 0 <= j < n && !sources[j].is_dir && path_strip_prefix(#[trigger] sources[j].path@, root) == Some(r)
}

fn source_keys(sources: &Vec<FileInfo>, source_root: &str) -> (keys: Vec<Vec<char>>)
    ensures
        forall|r: Seq<char>| #[trigger] in_keys(keys@, r) <==> source_rel_paths(sources@, source_root@).contains(r),
{
    let mut keys: Vec<Vec<char>> = Vec::new();
    let mut i: usize = 0;
    while i < sources.len()
        invariant
            i <= sources@.len(),
            forall|r: Seq<char>| #[trigger] in_keys(keys@, r) <==> rel_among(sources@, i as int, source_root@, r),
        decreases sources.len() - i,
    {
        let ghost before = keys@;
        let found = if sources[i].is_dir {
            None
        } else {
            strip_prefix(sources[i].path.as_str(), source_root)
        };
        match found {
            Some(rel) => {
                keys.push(chars_of(rel.as_str()));
                assert forall|r: Seq<char>| #[trigger] in_keys(keys@, r) <==> rel_among(sources@, i + 1, source_root@, r) by {
                    if rel_among(sources@, i + 1, source_root@, r) {
                        let j = choose|j: int|
                            0 <= j < i + 1 && !sources@[j].is_dir && path_strip_prefix(#[trigger] sources@[j].path@, source_root@) == Some(r);
                        if j == i {
                            assert(keys@[before.len() as int]@ == r);
                        } else {
                            assert(rel_among(sources@, i as int, source_root@, r));
                            assert(in_keys(before, r));
                            let k = choose|k: int| 0 <= k < before.len() && (#[trigger] before[k])@ == r;
                            assert(keys@[k]@ == r);
                        }
                    }
                    if in_keys(keys@, r) {
                        let k = choose|k: int| 0 <= k < keys@.len() && (#[trigger] keys@[k])@ == r;
                        if k < before.len() {
                            assert(before[k]@ == r);
                            assert(in_keys(before, r));
                        } else {
                            assert(path_strip_prefix(sources@[i as int].path@, source_root@) == Some(r));
                        }
                    }
                }
            },
            None => {
                assert forall|r: Seq<char>| #[trigger] in_keys(keys@, r) <==> rel_among(sources@, i + 1, source_root@, r) by {
                    if rel_among(sources@, i + 1, source_root@, r) {
                        let j = choose|j: int|
                            0 <= j < i + 1 && !sources@[j].is_dir && path_strip_prefix(#[trigger] sources@[j].path@, source_root@) == Some(r);
                        assert(j != i);
                        assert(rel_among(sources@, i as int, source_root@, r));
                    }
                }
            },
        }
        i = i + 1;
    }
    assert forall|r: Seq<char>| #[trigger] in_keys(keys@, r) <==> source_rel_paths(sources@, source_root@).contains(r) by {
        assert(rel_among(sources@, sources@.len() as int, source_root@, r) == source_rel_paths(sources@, source_root@).contains(r));
    }
    keys
}

fn contains_key(keys: &Vec<Vec<char>>, rel: &[char]) -> (b: bool)
    ensures
        b == in_keys(keys@, rel@),
{
    let mut k: usize = 0;
    while k < keys.len()
        invariant
            k <= keys@.len(),
            forall|j: int| 0 <= j < k ==> (#[trigger] keys@[j])@ != rel@,
        decreases keys.len() - k,
    {
        if chars_eq(keys[k].as_slice(), rel) {
            return true;
        }
        k = k + 1;
    }
    false
}

/// The files of the target to delete: among `target_files` (the target's
/// records, as its scan with the sync rules gives them, so that what those
/// rules leave out of the scan is not among them), the files that no
/// source file matches by relative path, that the sync rules do not
/// exclude and that the deletion rules do not protect, both applied from
/// the target root. `source_files` is the scan of the source with the sync
/// rules.
pub fn files_to_delete(
    source_files: &Vec<FileInfo>,
    source_root: &str,
    target_files: &Vec<FileInfo>,
    target_root: &str,
    exclude: &[String],
    delete_exclude: &[String],
) -> (r: Vec<String>)
    ensures
        texts(r@) == spec_files_to_delete(
            target_files@,
            target_root@,
            source_rel_paths(source_files@, source_root@),
            exclude@,
            delete_exclude@,
        ),
{
    let keys = source_keys(source_files, source_root);
    let ghost rels = source_rel_paths(source_files@, source_root@);
    let mut out: Vec<String> = Vec::new();
    let mut i: usize = 0;
    while i < target_files.len()
        invariant
            i <= target_files@.len(),
            rels == source_rel_paths(source_files@, source_root@),
            forall|r: Seq<char>| #[trigger] in_keys(keys@, r) <==> rels.contains(r),
            texts(out@) == spec_files_to_delete(
                target_files@.take(i as int),
                target_root@,
                rels,
                exclude@,
                delete_exclude@,
            ),
        decreases target_files.len() - i,
    {
        let ghost pre = target_files@.take(i + 1);
        assert(pre.drop_last() =~= target_files@.take(i as int));
        let f = &target_files[i];
        assert(pre.last() == *f);
        let extra = !f.is_dir && match strip_prefix(f.path.as_str(), target_root) {
            Some(rel) => {
                let relv = chars_of(rel.as_str());
                !contains_key(&keys, relv.as_slice()) && !should_exclude(f.path.as_str(), target_root, exclude)
                    && !should_exclude(f.path.as_str(), target_root, delete_exclude)
            },
            None => false,
        };
        let ghost prev = texts(out@);
        if extra {
            out.push(f.path.clone());
            assert(texts(out@) =~= prev.push(f.path@));
        }
        i = i + 1;
    }
    assert(target_files@.take(target_files.len() as int) =~= target_files@);
    out
}

/// Records a deletion in a dry run: the file would be deleted.
pub fn record_would_delete(report: &mut SyncReport, path: &String)
    ensures
        texts(final(report).would_delete@) == texts(old(report).would_delete@).push(path@),
        final(report).copied@ == old(report).copied@,
        final(report).errors@ == old(report).errors@,
        final(report).deleted@ == old(report).deleted@,
        final(report).delete_errors@ == old(report).delete_errors@,
{
    let ghost before = texts(report.would_delete@);
    report.would_delete.push(path.clone());
    assert(texts(report.would_delete@) =~= before.push(path@));
}

/// `after` is `before` with the outcome of deleting `path` recorded: on
/// success it is listed as deleted (and as would-delete); on failure it is
/// listed with its error. Nothing else changes.
pub open spec fn deletion_recorded(before: SyncReport, path: String, outcome: Result<(), String>, after: SyncReport) -> bool {
    &&& after.copied@ == before.copied@
    &&& after.errors@ == before.errors@
    &&& match outcome {
        Ok(()) => {
            &&& texts(after.deleted@) == texts(before.deleted@).push(path@)
            &&& texts(after.would_delete@) == texts(before.would_delete@).push(path@)
            &&& after.delete_errors@ == before.delete_errors@
        },
        Err(e) => {
            &&& after.deleted@ == before.deleted@
            &&& after.would_delete@ == before.would_delete@
            &&& pair_texts(after.delete_errors@) == pair_texts(before.delete_errors@).push((path@, e@))
        },
    }
}

/// Records the outcome of deleting one file: on success it counts as
/// deleted (and as would-delete); on failure its error is kept.
pub fn record_deletion(report: &mut SyncReport, path: &String, outcome: Result<(), String>)
    ensures
        deletion_recorded(*old(report), *path, outcome, *final(report)),
{
    let ghost d = texts(report.deleted@);
    let ghost w = texts(report.would_delete@);
    let ghost de = pair_texts(report.delete_errors@);
    match outcome {
        Ok(()) => {
            report.deleted.push(path.clone());
            report.would_delete.push(path.clone());
            assert(texts(report.deleted@) =~= d.push(path@));
            assert(texts(report.would_delete@) =~= w.push(path@));
        },
        Err(e) => {
            let ghost ev = e@;
            report.delete_errors.push((path.clone(), e));
            assert(pair_texts(report.delete_errors@) =~= de.push((path@, ev)));
        },
    }
}

} // verus!
