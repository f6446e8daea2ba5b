//! Scanning a source or target directory into a list of file records.

use vstd::prelude::*;
use crate::infra::error::SyncError;
use crate::paths::{path_strip_prefix, strip_prefix};
use crate::sync::filter::{pattern_matches, pattern_matches_exec, should_exclude, spec_should_exclude};
use crate::text::chars_of;
use crate::sync::types::{clone_file_info, FileInfo};

verus! {

/// What reading one directory gave.
pub enum ScanNode {
    /// The directory does not exist; the I/O error that says so.
    Missing(String),
    /// The directory could not be read; the I/O error.
    Unreadable(String),
    /// The directory's entries, in the order read.
    Listed(Vec<ScanEntry>),
}

/// One entry of a directory listing.
pub enum ScanEntry {
    /// The entry could not be read.
    Unreadable,
    /// A subdirectory: its record (`None` when its metadata could not be
    /// read) and what reading it gave.
    Dir { path: String, info: Option<FileInfo>, node: Box<ScanNode> },
    /// A file and its record, or `None` when its metadata could not be read.
    File { path: String, info: Option<FileInfo> },
}

/// The errors a scan reports.
pub enum ScanFailure {
    /// The scanned directory does not exist: its path with the I/O error.
    NotFound(Seq<char>),
    /// Reading the scanned directory failed with this message.
    Io(Seq<char>),
}

/// A `/`-anchored pattern, which applies from the scan root only.
pub open spec fn is_anchored(pattern: Seq<char>) -> bool {
    pattern.len() > 0 && pattern[0] == '/'
}

/// Whether a pattern that is not anchored at the root matches the entry's
/// path relative to the directory that lists it.
pub open spec fn locally_excluded(path: Seq<char>, dir: Seq<char>, excludes: Seq<String>) -> bool {
    match path_strip_prefix(path, dir) {
        Some(rel) => exists|i: int|
            0 <= i < excludes.len() && !is_anchored(excludes[i]@) && pattern_matches(#[trigger] excludes[i]@, rel),
        None => false,
    }
}

/// Whether the rules exclude an entry found while scanning `dir` under the
/// scan root `top`: judged on its path relative to the scan root (so
/// `secret/` matches `secret/f` and `sub/secret/f`, and `/temp/` matches
/// only under the root's `temp`), and, for patterns not anchored with `/`,
/// on its path relative to the directory that lists it (so a plain
/// pattern such as `secret` or `*.log` matches an entry of that name at
/// any depth).
pub open spec fn entry_excluded(path: Seq<char>, dir: Seq<char>, top: Seq<char>, excludes: Seq<String>) -> bool {
    spec_should_exclude(path, top, excludes) || locally_excluded(path, dir, excludes)
}

/// The record of a directory, if its metadata was read: marked as a
/// directory, without a digest.
pub open spec fn dir_record(info: Option<FileInfo>) -> Seq<FileInfo> {
    match info {
        Some(f) => seq![FileInfo { is_dir: true, blake3_hash: None, ..f }],
        None => Seq::empty(),
    }
}

/// The record of a file, marked as a file: with its digest in checksum
/// mode (a file whose digest could not be computed is skipped), without
/// one otherwise.
pub open spec fn file_record(info: Option<FileInfo>, digests: bool) -> Seq<FileInfo> {
    match info {
        Some(f) => if digests {
            if f.blake3_hash is Some {
                seq![FileInfo { is_dir: false, ..f }]
            } else {
                Seq::empty()
            }
        } else {
            seq![FileInfo { is_dir: false, blake3_hash: None, ..f }]
        },
        None => Seq::empty(),
    }
}

/// The text of a missing directory's error: its path, then the I/O error
/// in parentheses.
pub open spec fn not_found_text(dir: Seq<char>, cause: Seq<char>) -> Seq<char> {
    dir + " ("@ + cause + ")"@
}

/// What a scan of the root `top`, as read into `node`, gives: the records
/// of every file and directory reachable from the root, depth first in
/// listing order, each directory's record before its contents; files carry
/// their digest exactly in checksum mode (`digests`), directories never. Entries the
/// rules exclude (`entry_excluded`) are left out with everything below
/// them; unreadable entries, entries whose metadata could not be read and
/// the contents of subdirectories that could not be read are skipped. Only
/// a missing or unreadable root makes the scan fail.
pub open spec fn spec_scan(top: Seq<char>, node: ScanNode, excludes: Seq<String>, digests: bool) -> Result<
    Seq<FileInfo>,
    ScanFailure,
> {
    match node {
        ScanNode::Missing(m) => Err(ScanFailure::NotFound(not_found_text(top, m@))),
        ScanNode::Unreadable(m) => Err(ScanFailure::Io(m@)),
        ScanNode::Listed(entries) => Ok(spec_scan_entries(top, top, entries@, excludes, digests)),
    }
}

/// The records found below the directory `dir`, as read into `node`;
/// nothing when it could not be read.
pub open spec fn spec_scan_sub(top: Seq<char>, dir: Seq<char>, node: ScanNode, excludes: Seq<String>, digests: bool) -> Seq<
    FileInfo,
>
    decreases node,
{
    match node {
        ScanNode::Listed(entries) => spec_scan_entries(top, dir, entries@, excludes, digests),
        _ => Seq::empty(),
    }
}

/// The records found through a list of entries of `dir`, in order.
pub open spec fn spec_scan_entries(
    top: Seq<char>,
    dir: Seq<char>,
    entries: Seq<ScanEntry>,
    excludes: Seq<String>,
    digests: bool,
) -> Seq<FileInfo>
    decreases entries,
{
    if entries.len() == 0 {
        Seq::empty()
    } else {
        let prev = spec_scan_entries(top, dir, entries.subrange(0, entries.len() - 1), excludes, digests);
        match entries[entries.len() - 1] {
            ScanEntry::Unreadable => prev,
            ScanEntry::Dir { path, info, node } => if entry_excluded(path@, dir, top, excludes) {
                prev
            } else {
                prev + dir_record(info) + spec_scan_sub(top, path@, *node, excludes, digests)
            },
            ScanEntry::File { path, info } => if entry_excluded(path@, dir, top, excludes) {
                prev
            } else {
                prev + file_record(info, digests)
            },
        }
    }
}

/// Whether every record of a tree as read carries the path of its entry.
pub open spec fn node_paths_agree(node: ScanNode) -> bool
    decreases node,
{
    match node {
        ScanNode::Listed(entries) => entries_paths_agree(entries@),
        _ => true,
    }
}

/// Whether every record of a list of entries carries its entry's path.
pub open spec fn entries_paths_agree(entries: Seq<ScanEntry>) -> bool
    decreases entries,
{
    if entries.len() == 0 {
        true
    } else {
        &&& entries_paths_agree(entries.subrange(0, entries.len() - 1))
        &&& match entries[entries.len() - 1] {
            ScanEntry::Unreadable => true,
            ScanEntry::Dir { path, info, node } => {
                &&& (info matches Some(f) ==> f.path@ == path@)
                &&& node_paths_agree(*node)
            },
            ScanEntry::File { path, info } => info matches Some(f) ==> f.path@ == path@,
        }
    }
}

proof fn lemma_sub_leaves_out_excluded(top: Seq<char>, dir: Seq<char>, node: ScanNode, excludes: Seq<String>, digests: bool)
    requires
        node_paths_agree(node),
    ensures
        forall|k: int|
            0 <= k < spec_scan_sub(top, dir, node, excludes, digests).len() ==> !spec_should_exclude(
                (#[trigger] spec_scan_sub(top, dir, node, excludes, digests)[k]).path@,
                top,
                excludes,
            ),
    decreases node,
{
    if let ScanNode::Listed(entries) = node {
        assert(decreases_to!(node => node->Listed_0));
        lemma_entries_leave_out_excluded(top, dir, entries@, excludes, digests);
    }
}

proof fn lemma_entries_leave_out_excluded(
    top: Seq<char>,
    dir: Seq<char>,
    entries: Seq<ScanEntry>,
    excludes: Seq<String>,
    digests: bool,
)
    requires
        entries_paths_agree(entries),
    ensures
        forall|k: int|
            0 <= k < spec_scan_entries(top, dir, entries, excludes, digests).len() ==> !spec_should_exclude(
                (#[trigger] spec_scan_entries(top, dir, entries, excludes, digests)[k]).path@,
                top,
                excludes,
            ),
    decreases entries,
{
    if entries.len() > 0 {
        let init = entries.subrange(0, entries.len() - 1);
        lemma_entries_leave_out_excluded(top, dir, init, excludes, digests);
        let prev = spec_scan_entries(top, dir, init, excludes, digests);
        let all = spec_scan_entries(top, dir, entries, excludes, digests);
        match entries[entries.len() - 1] {
            ScanEntry::Unreadable => {},
            ScanEntry::Dir { path, info, node } => {
                if !entry_excluded(path@, dir, top, excludes) {
                    lemma_sub_leaves_out_excluded(top, path@, *node, excludes, digests);
                    let sub = spec_scan_sub(top, path@, *node, excludes, digests);
                    let rec = dir_record(info);
                    assert forall|k: int| 0 <= k < all.len() implies !spec_should_exclude(
                        (#[trigger] all[k]).path@,
                        top,
                        excludes,
                    ) by {
                        if k < prev.len() {
                            assert(all[k] == prev[k]);
                        } else if k < prev.len() + rec.len() {
                            assert(all[k] == rec[k - prev.len()]);
                        } else {
                            assert(all[k] == sub[k - prev.len() - rec.len()]);
                        }
                    }
                }
            },
            ScanEntry::File { path, info } => {
                if !entry_excluded(path@, dir, top, excludes) {
                    let rec = file_record(info, digests);
                    assert forall|k: int| 0 <= k < all.len() implies !spec_should_exclude(
                        (#[trigger] all[k]).path@,
                        top,
                        excludes,
                    ) by {
                        if k < prev.len() {
                            assert(all[k] == prev[k]);
                        } else {
                            assert(all[k] == rec[k - prev.len()]);
                        }
                    }
                }
            },
        }
    }
}

/// The rules are obeyed: when every record carries its entry's path, no
/// record of a successful scan is one the rules exclude, judged from the
/// scan root.
pub proof fn lemma_scan_leaves_out_excluded(top: Seq<char>, node: ScanNode, excludes: Seq<String>, digests: bool)
    requires
        node_paths_agree(node),
    ensures
        spec_scan(top, node, excludes, digests) matches Ok(v) ==> forall|k: int|
            0 <= k < v.len() ==> !spec_should_exclude((#[trigger] v[k]).path@, top, excludes),
{
    lemma_sub_leaves_out_excluded(top, top, node, excludes, digests);
}

/// Whether a record's digest is as checksum mode asks: present exactly
/// for files, and only in checksum mode.
pub open spec fn digest_as_asked(r: FileInfo, digests: bool) -> bool {
    r.blake3_hash is Some <==> (digests && !r.is_dir)
}

proof fn lemma_sub_digests(top: Seq<char>, dir: Seq<char>, node: ScanNode, excludes: Seq<String>, digests: bool)
    ensures
        forall|k: int|
            0 <= k < spec_scan_sub(top, dir, node, excludes, digests).len() ==> digest_as_asked(
                #[trigger] spec_scan_sub(top, dir, node, excludes, digests)[k],
                digests,
            ),
    decreases node,
{
    if let ScanNode::Listed(entries) = node {
        assert(decreases_to!(node => node->Listed_0));
        lemma_entries_digests(top, dir, entries@, excludes, digests);
        let all = spec_scan_sub(top, dir, node, excludes, digests);
        assert(all == spec_scan_entries(top, dir, entries@, excludes, digests));
        assert forall|k: int| 0 <= k < all.len() implies digest_as_asked(#[trigger] all[k], digests) by {
            assert(digest_as_asked(spec_scan_entries(top, dir, entries@, excludes, digests)[k], digests));
        }
    }
}

proof fn lemma_entries_digests(top: Seq<char>, dir: Seq<char>, entries: Seq<ScanEntry>, excludes: Seq<String>, digests: bool)
    ensures
        forall|k: int|
            0 <= k < spec_scan_entries(top, dir, entries, excludes, digests).len() ==> digest_as_asked(
                #[trigger] spec_scan_entries(top, dir, entries, excludes, digests)[k],
                digests,
            ),
    decreases entries,
{
    if entries.len() > 0 {
        let init = entries.subrange(0, entries.len() - 1);
        lemma_entries_digests(top, dir, init, excludes, digests);
        let prev = spec_scan_entries(top, dir, init, excludes, digests);
        let all = spec_scan_entries(top, dir, entries, excludes, digests);
        match entries[entries.len() - 1] {
            ScanEntry::Unreadable => {},
            ScanEntry::Dir { path, info, node } => {
                if !entry_excluded(path@, dir, top, excludes) {
                    lemma_sub_digests(top, path@, *node, excludes, digests);
                    let sub = spec_scan_sub(top, path@, *node, excludes, digests);
                    let rec = dir_record(info);
                    assert forall|k: int| 0 <= k < all.len() implies digest_as_asked(#[trigger] all[k], digests) by {
                        if k < prev.len() {
                            assert(all[k] == prev[k]);
                        } else if k < prev.len() + rec.len() {
                            assert(all[k] == rec[k - prev.len()]);
                        } else {
                            assert(all[k] == sub[k - prev.len() - rec.len()]);
                        }
                    }
                }
            },
            ScanEntry::File { path, info } => {
                if !entry_excluded(path@, dir, top, excludes) {
                    let rec = file_record(info, digests);
                    assert forall|k: int| 0 <= k < all.len() implies digest_as_asked(#[trigger] all[k], digests) by {
                        if k < prev.len() {
                            assert(all[k] == prev[k]);
                        } else {
                            assert(all[k] == rec[k - prev.len()]);
                        }
                    }
                }
            },
        }
    }
}

/// Checksum mode decides the digests: in the records of a successful scan,
/// a digest is present exactly for files, and only in checksum mode.
pub proof fn lemma_scan_digests(top: Seq<char>, node: ScanNode, excludes: Seq<String>, digests: bool)
    ensures
        spec_scan(top, node, excludes, digests) matches Ok(v) ==> forall|k: int|
            0 <= k < v.len() ==> digest_as_asked(#[trigger] v[k], digests),
{
    lemma_sub_digests(top, top, node, excludes, digests);
    if let ScanNode::Listed(entries) = node {
        assert(spec_scan_sub(top, top, node, excludes, digests) == spec_scan_entries(top, top, entries@, excludes, digests));
    }
}

/// The scan failure an error reports.
pub open spec fn failure_of(e: SyncError) -> ScanFailure {
    match e {
        SyncError::SourceNotFound(p) => ScanFailure::NotFound(p@),
        SyncError::IoError(m) => ScanFailure::Io(m@),
        _ => ScanFailure::Io(Seq::empty()),
    }
}

/// Whether a scan's result agrees with the specified outcome.
pub open spec fn scan_agrees(r: Result<Vec<FileInfo>, SyncError>, spec: Result<Seq<FileInfo>, ScanFailure>) -> bool {
    match r {
        Ok(v) => spec == Ok::<Seq<FileInfo>, ScanFailure>(v@),
        Err(e) => (e is SourceNotFound || e is IoError) && spec == Err::<Seq<FileInfo>, ScanFailure>(failure_of(e)),
    }
}

/// Scans the directory `root`, as read into `node`, for files and
/// directories: see `spec_scan`; `compute_hash` is checksum mode. The root
/// missing gives `SourceNotFound` with its path and the I/O error; a root
/// that cannot be read gives `IoError`.
pub fn scan_directory(root: &str, node: &ScanNode, exclude_patterns: &[String], compute_hash: bool) -> (r: Result<
    Vec<FileInfo>,
    SyncError,
>)
    ensures
        scan_agrees(r, spec_scan(root@, *node, exclude_patterns@, compute_hash)),
{
    match node {
        ScanNode::Missing(m) => {
            let mut t = String::from_str(root);
            t.append(" (");
            t.append(m.as_str());
            t.append(")");
            Err(SyncError::SourceNotFound(t))
        },
        ScanNode::Unreadable(m) => Err(SyncError::IoError(m.clone())),
        ScanNode::Listed(_) => Ok(scan_under(root, root, node, exclude_patterns, compute_hash)),
    }
}

fn locally_excluded_exec(path: &str, dir: &str, exclude_patterns: &[String]) -> (b: bool)
    ensures
        b == locally_excluded(path@, dir@, exclude_patterns@),
{
    let relative = match strip_prefix(path, dir) {
        Some(rel) => rel,
        None => return false,
    };
    let mut i: usize = 0;
    while i < exclude_patterns.len()
        invariant
            i <= exclude_patterns@.len(),
            path_strip_prefix(path@, dir@) == Some(relative@),
            forall|j: int|
                0 <= j < i ==> !(!is_anchored(exclude_patterns@[j]@) && pattern_matches(
                    #[trigger] exclude_patterns@[j]@,
                    relative@,
                )),
        decreases exclude_patterns.len() - i,
    {
        let p = chars_of(exclude_patterns[i].as_str());
        let anchored = p.len() > 0 && p[0] == '/';
        if !anchored && pattern_matches_exec(exclude_patterns[i].as_str(), relative.as_str()) {
            assert(!is_anchored(exclude_patterns@[i as int]@) && pattern_matches(
                exclude_patterns@[i as int]@,
                relative@,
            ));
            return true;
        }
        i = i + 1;
    }
    false
}

/// Whether an entry of `dir`, scanned under `top`, is excluded.
pub fn is_entry_excluded(path: &str, dir: &str, top: &str, exclude_patterns: &[String]) -> (b: bool)
    ensures
        b == entry_excluded(path@, dir@, top@, exclude_patterns@),
{
    should_exclude(path, top, exclude_patterns) || locally_excluded_exec(path, dir, exclude_patterns)
}

fn push_dir_record(files: &mut Vec<FileInfo>, info: &Option<FileInfo>)
    ensures
        final(files)@ == old(files)@ + dir_record(*info),
{
    let ghost before = files@;
    match info {
        Some(f) => {
            files.push(FileInfo { path: f.path.clone(), mtime: f.mtime, size: f.size, blake3_hash: None, is_dir: true });
            assert(files@ =~= before + dir_record(*info));
        },
        None => {
            assert(files@ =~= before + dir_record(*info));
        },
    }
}

fn push_file_record(files: &mut Vec<FileInfo>, info: &Option<FileInfo>, digests: bool)
    ensures
        final(files)@ == old(files)@ + file_record(*info, digests),
{
    let ghost before = files@;
    match info {
        Some(f) => {
            if digests {
                if f.blake3_hash.is_some() {
                    files.push(
                        FileInfo {
                            path: f.path.clone(),
                            mtime: f.mtime,
                            size: f.size,
                            blake3_hash: f.blake3_hash,
                            is_dir: false,
                        },
                    );
                }
            } else {
                files.push(FileInfo { path: f.path.clone(), mtime: f.mtime, size: f.size, blake3_hash: None, is_dir: false });
            }
            assert(files@ =~= before + file_record(*info, digests));
        },
        None => {
            assert(files@ =~= before + file_record(*info, digests));
        },
    }
}

fn scan_under(top: &str, root: &str, node: &ScanNode, exclude_patterns: &[String], digests: bool) -> (r: Vec<FileInfo>)
    ensures
        r@ == spec_scan_sub(top@, root@, *node, exclude_patterns@, digests),
    decreases node,
{
    match node {
        ScanNode::Listed(entries) => {
            let mut files: Vec<FileInfo> = Vec::new();
            let mut i: usize = 0;
            assert(entries@.subrange(0, 0) =~= Seq::<ScanEntry>::empty());
            while i < entries.len()
                invariant
                    i <= entries@.len(),
                    *node == ScanNode::Listed(*entries),
                    spec_scan_entries(top@, root@, entries@.subrange(0, i as int), exclude_patterns@, digests) == files@,
                decreases entries.len() - i,
            {
                let ghost sub = entries@.subrange(0, i + 1);
                assert(sub.subrange(0, sub.len() - 1) =~= entries@.subrange(0, i as int));
                assert(sub[sub.len() - 1] == entries@[i as int]);
                match &entries[i] {
                    ScanEntry::Unreadable => {
                    },
                    ScanEntry::Dir { path, info, node: child } => {
                        if !is_entry_excluded(path.as_str(), root, top, exclude_patterns) {
                            push_dir_record(&mut files, info);
                            assert(decreases_to!(*node => (*node)->Listed_0));
                            let sub_files = scan_under(top, path.as_str(), child, exclude_patterns, digests);
                            let ghost before = files@;
                            let mut k: usize = 0;
                            while k < sub_files.len()
                                invariant
                                    k <= sub_files@.len(),
                                    files@ == before + sub_files@.subrange(0, k as int),
                                decreases sub_files.len() - k,
                            {
                                files.push(clone_file_info(&sub_files[k]));
                                k = k + 1;
                                assert(files@ =~= before + sub_files@.subrange(0, k as int));
                            }
                            assert(sub_files@.subrange(0, sub_files.len() as int) =~= sub_files@);
                        }
                    },
                    ScanEntry::File { path, info } => {
                        if !is_entry_excluded(path.as_str(), root, top, exclude_patterns) {
                            push_file_record(&mut files, info, digests);
                        }
                    },
                }
                i = i + 1;
            }
            assert(entries@.subrange(0, entries.len() as int) =~= entries@);
            files
        },
        _ => Vec::new(),
    }
}

/// Only the root decides failure: a scan of a root that could be listed
/// succeeds, whatever lies below it; a missing root fails naming its path
/// and the I/O error, an unreadable one with the I/O error.
pub proof fn lemma_only_the_root_fails(top: Seq<char>, node: ScanNode, excludes: Seq<String>, digests: bool)
    ensures
        node is Listed ==> spec_scan(top, node, excludes, digests) is Ok,
        node matches ScanNode::Missing(m) ==> spec_scan(top, node, excludes, digests) == Err::<Seq<FileInfo>, ScanFailure>(
            ScanFailure::NotFound(top + " ("@ + m@ + ")"@),
        ),
        node matches ScanNode::Unreadable(m) ==> spec_scan(top, node, excludes, digests) == Err::<
            Seq<FileInfo>,
            ScanFailure,
        >(ScanFailure::Io(m@)),
{
}

} // verus!
