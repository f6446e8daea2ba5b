//! Sync tasks as read from the configuration file.

use vstd::prelude::*;
use crate::text::str_eq;

verus! {

/// The whole configuration file: a list of sync tasks.
pub struct Config {
    pub sync: Vec<SyncTask>,
}

/// One named sync task.
pub struct SyncTask {
    /// Task name, its identifier.
    pub name: String,
    /// Source directory.
    pub source: String,
    /// Target directory (a local path or a remote target).
    pub target: String,
    /// Patterns of files and directories left out of the sync.
    pub exclude: Vec<String>,
    /// Whether files of the target that the source lacks are deleted.
    pub delete_extra: bool,
    /// Patterns of target files that are never deleted.
    pub delete_extra_exclude: Vec<String>,
}

/// The value of `delete_extra` when the file does not give one.
pub open spec fn spec_default_delete_extra() -> bool {
    false
}

/// The value of `delete_extra` when the file does not give one: extra files
/// are kept.
pub fn default_delete_extra() -> (b: bool)
    ensures
        b == spec_default_delete_extra(),
{
    false
}

/// The index of the first task of `tasks` named `name`.
pub open spec fn first_task_named(tasks: Seq<SyncTask>, name: Seq<char>) -> Option<int> {
    if exists|i: int| 0 <= i < tasks.len() && tasks[i].name@ == name && forall|j: int|
        0 <= j < i ==> tasks[j].name@ != name {
        Some(
            choose|i: int|
                0 <= i < tasks.len() && tasks[i].name@ == name && forall|j: int|
                    0 <= j < i ==> tasks[j].name@ != name,
        )
    } else {
        None
    }
}

impl Config {
    /// The first task called `name`, if any.
    pub fn find_task(&self, name: &str) -> (r: Option<&SyncTask>)
        ensures
            match first_task_named(self.sync@, name@) {
                Some(i) => r == Some(&self.sync@[i]),
                None => r is None,
            },
            r is None <==> forall|i: int| 0 <= i < self.sync@.len() ==> self.sync@[i].name@ != name@,
    {
        let mut i: usize = 0;
        while i < self.sync.len()
            invariant
                i <= self.sync@.len(),
                forall|j: int| 0 <= j < i ==> self.sync@[j].name@ != name@,
            decreases self.sync.len() - i,
        {
            if str_eq(self.sync[i].name.as_str(), name) {
                let ghost k = i as int;
                assert forall|m: int|
                    0 <= m < self.sync@.len() && self.sync@[m].name@ == name@ && (forall|j: int|
                        0 <= j < m ==> self.sync@[j].name@ != name@) implies m == k by {
                    if m < k {
                    } else if m > k {
                        assert(self.sync@[k].name@ == name@);
                    }
                }
                return Some(&self.sync[i]);
            }
            i = i + 1;
        }
        None
    }
}

} // verus!
