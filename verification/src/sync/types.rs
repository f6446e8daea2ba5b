//! File records and the parameters of one sync run.

use vstd::prelude::*;
use crate::cli::Command;
use crate::config::SyncTask;

verus! {

/// What the sync looks at for one file or directory.
pub struct FileInfo {
    /// The file's path.
    pub path: String,
    /// Modification time, in nanoseconds after the Unix epoch (negative
    /// before it).
    pub mtime: i128,
    /// Size in bytes.
    pub size: u64,
    /// BLAKE3 digest of the contents, when it was computed.
    pub blake3_hash: Option<[u8; 32]>,
    /// Whether the record is of a directory rather than a file.
    pub is_dir: bool,
}

impl FileInfo {
    /// Default strategy: `self` is newer than `target`, or their sizes
    /// differ.
    pub open spec fn spec_is_newer_than(&self, target: &Self) -> bool {
        self.mtime > target.mtime || self.size != target.size
    }

    /// Checksum strategy: same size and same digest.
    pub open spec fn spec_content_eq(&self, other: &Self) -> bool {
        self.size == other.size && self.blake3_hash == other.blake3_hash
    }

    /// Default strategy: compares modification time and size.
    pub fn is_newer_than(&self, target: &Self) -> (b: bool)
        ensures
            b == self.spec_is_newer_than(target),
    {
        self.mtime > target.mtime || self.size != target.size
    }

    /// Checksum strategy: whether two files have the same size and digest.
    pub fn content_eq(&self, other: &Self) -> (b: bool)
        ensures
            b == self.spec_content_eq(other),
    {
        self.size == other.size && digests_eq(&self.blake3_hash, &other.blake3_hash)
    }
}

/// A copy of `f` with the same fields.
pub fn clone_file_info(f: &FileInfo) -> (g: FileInfo)
    ensures
        g == *f,
{
    FileInfo { path: f.path.clone(), mtime: f.mtime, size: f.size, blake3_hash: f.blake3_hash, is_dir: f.is_dir }
}

fn digests_eq(a: &Option<[u8; 32]>, b: &Option<[u8; 32]>) -> (r: bool)
    ensures
        r == (*a == *b),
{
    let pair = (*a, *b);
    match pair {
        (Some(x), Some(y)) => {
            let mut i: usize = 0;
            while i < 32
                invariant
                    i <= 32,
                    *a == Some(x),
                    *b == Some(y),
                    forall|j: int| 0 <= j < i ==> x[j] == y[j],
                decreases 32 - i,
            {
                if x[i] != y[i] {
                    assert(x[i as int] != y[i as int]);
                    assert(x != y);
                    return false;
                }
                i = i + 1;
            }
            assert(x =~= y);
            true
        },
        (None, None) => true,
        _ => false,
    }
}

/// The parameters of one sync run.
pub struct SyncParameters {
    /// Source directory.
    pub source: String,
    /// Target directory.
    pub target: String,
    /// Dry run: report what would happen, change nothing.
    pub dry_run: bool,
    /// Compare files by digest rather than by time and size.
    pub checksum: bool,
    /// Patterns left out of the sync.
    pub excludes: Vec<String>,
    /// Delete files of the target that the source lacks.
    pub delete_extra: bool,
    /// Patterns of target files never deleted.
    pub delete_excludes: Vec<String>,
    /// List every file acted on.
    pub detail: bool,
}

/// The view of a list of strings.
pub open spec fn strings_view(v: Seq<String>) -> Seq<Seq<char>> {
    v.map_values(|s: String| s@)
}

fn clone_strings(v: &Vec<String>) -> (r: Vec<String>)
    ensures
        strings_view(r@) == strings_view(v@),
{
    let mut r: Vec<String> = Vec::new();
    let mut i: usize = 0;
    while i < v.len()
        invariant
            i <= v.len(),
            r@ == v@.take(i as int),
        decreases v.len() - i,
    {
        let c = v[i].clone();
        r.push(c);
        i = i + 1;
        assert(r@ =~= v@.take(i as int));
    }
    assert(v@.take(v.len() as int) =~= v@);
    r
}

impl SyncParameters {
    /// The parameters of a configured task; dry run, checksum and detail
    /// start off and are set from the command line.
    pub fn from_task(task: &SyncTask) -> (p: Self)
        ensures
            p.source@ == task.source@,
            p.target@ == task.target@,
            !p.dry_run,
            !p.checksum,
            strings_view(p.excludes@) == strings_view(task.exclude@),
            p.delete_extra == task.delete_extra,
            strings_view(p.delete_excludes@) == strings_view(task.delete_extra_exclude@),
            !p.detail,
    {
        SyncParameters {
            source: task.source.clone(),
            target: task.target.clone(),
            dry_run: false,
            checksum: false,
            excludes: clone_strings(&task.exclude),
            delete_extra: task.delete_extra,
            delete_excludes: clone_strings(&task.delete_extra_exclude),
            detail: false,
        }
    }

    /// The parameters a command line gives. `sync` gives all of them; for
    /// `run` and `watch` only the flags are taken, and source, target and
    /// the rules stay empty until the task is loaded.
    pub fn from_command(cmd: &Command) -> (p: Self)
        ensures
            match *cmd {
                Command::Sync { source, target, dry_run, checksum, delete, exclude, delete_exclude, detail } => {
                    &&& p.source@ == source@
                    &&& p.target@ == target@
                    &&& p.dry_run == dry_run
                    &&& p.checksum == checksum
                    &&& strings_view(p.excludes@) == strings_view(exclude@)
                    &&& p.delete_extra == delete
                    &&& strings_view(p.delete_excludes@) == strings_view(delete_exclude@)
                    &&& p.detail == detail
                },
                Command::Run { dry_run, checksum, detail, .. }
                | Command::Watch { dry_run, checksum, detail, .. } => {
                    &&& p.source@.len() == 0
                    &&& p.target@.len() == 0
                    &&& p.dry_run == dry_run
                    &&& p.checksum == checksum
                    &&& p.excludes@.len() == 0
                    &&& !p.delete_extra
                    &&& p.delete_excludes@.len() == 0
                    &&& p.detail == detail
                },
            },
    {
        match cmd {
            Command::Sync { source, target, dry_run, checksum, delete, exclude, delete_exclude, detail } => {
                SyncParameters {
                    source: source.clone(),
                    target: target.clone(),
                    dry_run: *dry_run,
                    checksum: *checksum,
                    excludes: clone_strings(exclude),
                    delete_extra: *delete,
                    delete_excludes: clone_strings(delete_exclude),
                    detail: *detail,
                }
            },
            Command::Run { dry_run, checksum, detail, .. } => SyncParameters {
                source: String::new(),
                target: String::new(),
                dry_run: *dry_run,
                checksum: *checksum,
                excludes: Vec::new(),
                delete_extra: false,
                delete_excludes: Vec::new(),
                detail: *detail,
            },
            Command::Watch { dry_run, checksum, detail, .. } => SyncParameters {
                source: String::new(),
                target: String::new(),
                dry_run: *dry_run,
                checksum: *checksum,
                excludes: Vec::new(),
                delete_extra: false,
                delete_excludes: Vec::new(),
                detail: *detail,
            },
        }
    }
}

} // verus!
