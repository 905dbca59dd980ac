//! Per-session cgroup v2: create a leaf, cap memory, kill the whole subtree.
//!
//! The cgroup v2 files are written directly. All operations require a
//! delegated, writable cgroup v2 subtree.

use crate::paths;
use crate::session_dirs;
use crate::session_dirs::Retry;
use crate::text;
use vstd::prelude::*;

verus! {

/// How often the removal of a cgroup is tried.
pub const REMOVE_ATTEMPTS: u32 = 4;

/// Errors from cgroup operations.
#[derive(Debug, PartialEq, Eq)]
pub enum CgroupError {
    /// A cgroup file could not be written or read.
    Io {
        /// The offending path.
        path: String,
        /// Underlying error.
        source: String,
    },
}

impl CgroupError {
    /// What the error says.
    pub open spec fn says(self) -> Seq<char> {
        match self {
            CgroupError::Io { path, source } => "cgroup io on "@ + path@ + ": "@ + source@,
        }
    }

    /// The error as text.
    pub fn message(&self) -> (r: String)
        ensures
            r@ == self.says(),
    {
        match self {
            CgroupError::Io { path, source } => {
                let mut s = "cgroup io on ".to_owned();
                s.append(path.as_str());
                s.append(": ");
                s.append(source.as_str());
                s
            },
        }
    }
}

/// One file to be written.
#[derive(Debug, PartialEq, Eq)]
pub struct FileWrite {
    /// The file.
    pub path: String,
    /// What is written.
    pub value: String,
}

/// The rest of the first line that begins with `prefix`.
pub open spec fn first_stripped(lines: Seq<Seq<char>>, prefix: Seq<char>) -> Option<Seq<char>>
    decreases lines.len(),
{
    if lines.len() == 0 {
        None
    } else if text::has_prefix(lines[0], prefix) {
        text::after_prefix(lines[0], prefix)
    } else {
        first_stripped(lines.skip(1), prefix)
    }
}

/// The base cgroup directory that the text of `/proc/self/cgroup` names: the
/// trimmed path of its `0::` line, below the cgroup root.
pub open spec fn own_dir_of(content: Seq<char>) -> Option<Seq<char>> {
    match first_stripped(text::lines_of(content), "0::"@) {
        None => None,
        Some(rel) => {
            let t = text::trimmed(rel);
            Some(
                paths::join_of(
                    "/sys/fs/cgroup"@,
                    match text::after_prefix(t, "/"@) {
                        Some(rest) => rest,
                        None => t,
                    },
                ),
            )
        },
    }
}

/// The base cgroup directory this process belongs to, from the text of
/// `/proc/self/cgroup`, if that is readable.
pub fn own_cgroup_dir(content: Option<&str>) -> (r: Option<String>)
    ensures
        text::opt_view(r) == (match content {
            None => None,
            Some(c) => own_dir_of(c@),
        }),
{
    let own = match content {
        Some(c) => c,
        None => {
            return None;
        },
    };
    let lines = text::lines(own);
    let ghost all = text::views(lines@);
    let mut i: usize = 0;
    assert(all.skip(0) =~= all);
    while i < lines.len()
        invariant
            i <= lines@.len(),
            all == text::views(lines@),
            content == Some(own),
            all == text::lines_of(own@),
            first_stripped(all.skip(i as int), "0::"@) == first_stripped(all, "0::"@),
        decreases lines.len() - i,
    {
        assert(all.skip(i as int)[0] == lines@[i as int]@);
        assert(all.skip(i as int).skip(1) =~= all.skip(i + 1));
        if let Some(rel) = text::strip_prefix(lines[i].as_str(), "0::") {
            let t = text::trim(rel.as_str());
            let rest = match text::strip_prefix(t.as_str(), "/") {
                Some(rest) => rest,
                None => t,
            };
            return Some(paths::join("/sys/fs/cgroup", rest.as_str()));
        }
        i += 1;
    }
    None
}

/// Controllers the parent has delegated, from the text of a directory's
/// `cgroup.controllers`, if that is readable.
pub fn available_controllers(content: Option<&str>) -> (r: Vec<String>)
    ensures
        text::views(r@) == (match content {
            Some(c) => text::words_of(c@),
            None => Seq::empty(),
        }),
{
    match content {
        Some(c) => text::words(c),
        None => {
            let r: Vec<String> = Vec::new();
            assert(text::views(r@) =~= Seq::empty());
            r
        },
    }
}

/// The file that lists a directory's controllers.
pub fn controllers_file(dir: &str) -> (r: String)
    ensures
        r@ == paths::join_of(dir@, "cgroup.controllers"@),
{
    paths::join(dir, "cgroup.controllers")
}

/// The write that enables `+memory` in a directory's `subtree_control` so child
/// leaves can cap memory.
pub fn enable_memory_controller(dir: &str) -> (r: FileWrite)
    ensures
        r.path@ == paths::join_of(dir@, "cgroup.subtree_control"@),
        r.value@ == "+memory"@,
{
    FileWrite { path: paths::join(dir, "cgroup.subtree_control"), value: "+memory".to_owned() }
}

/// A per-session cgroup leaf. Dropping it does NOT remove the cgroup.
#[derive(Debug, PartialEq, Eq)]
pub struct Cgroup {
    /// Its directory.
    pub dir: String,
}

impl Cgroup {
    /// The leaf cgroup `name` under `parent`, whose directory is to be created.
    pub fn create(parent: &str, name: &str) -> (r: Cgroup)
        ensures
            r.dir@ == paths::join_of(parent@, name@),
    {
        Cgroup { dir: paths::join(parent, name) }
    }

    /// The write that moves a process into this cgroup.
    pub fn attach(&self, pid: i32) -> (r: FileWrite)
        ensures
            r.path@ == paths::join_of(self.dir@, "cgroup.procs"@),
            r.value@ == text::signed_decimal_of(pid as int),
    {
        FileWrite {
            path: paths::join(self.dir.as_str(), "cgroup.procs"),
            value: text::signed_decimal(pid as i64),
        }
    }

    /// The write that sets the hard memory ceiling in bytes. Zero means
    /// unlimited (`"max"`).
    pub fn set_memory_max(&self, bytes: u64) -> (r: FileWrite)
        ensures
            r.path@ == paths::join_of(self.dir@, "memory.max"@),
            r.value@ == (if bytes == 0 {
                "max"@
            } else {
                text::decimal_of(bytes as nat)
            }),
    {
        let value = if bytes == 0 {
            "max".to_owned()
        } else {
            text::decimal(bytes as u128)
        };
        FileWrite { path: paths::join(self.dir.as_str(), "memory.max"), value }
    }

    /// The file that kills the whole subtree.
    pub fn kill_file(&self) -> (r: String)
        ensures
            r@ == paths::join_of(self.dir@, "cgroup.kill"@),
    {
        paths::join(self.dir.as_str(), "cgroup.kill")
    }

    /// Whether `cgroup.kill` (kernel >= 5.14) is available in this cgroup, where
    /// `existing` lists the files that exist.
    pub fn supports_kill(&self, existing: &Vec<String>) -> (r: bool)
        ensures
            r == text::views(existing@).contains(paths::join_of(self.dir@, "cgroup.kill"@)),
    {
        text::list_has(existing, self.kill_file().as_str())
    }

    /// The write that atomically SIGKILLs every process in the subtree, if the
    /// cgroup has a file for it.
    pub fn kill_write(&self, existing: &Vec<String>) -> (r: Option<FileWrite>)
        ensures
            r is Some <==> text::views(existing@).contains(
                paths::join_of(self.dir@, "cgroup.kill"@),
            ),
            r matches Some(w) ==> w.path@ == paths::join_of(self.dir@, "cgroup.kill"@) && w.value@
                == "1"@,
    {
        if self.supports_kill(existing) {
            Some(FileWrite { path: self.kill_file(), value: "1".to_owned() })
        } else {
            None
        }
    }

    /// What follows the `attempt`th try to remove the killed cgroup: rmdir races
    /// the kernel freeing it.
    pub fn remove_step(attempt: u32, removed: bool) -> (r: Retry)
        ensures
            r == session_dirs::retry_of(REMOVE_ATTEMPTS, attempt, removed),
    {
        session_dirs::retry(REMOVE_ATTEMPTS, attempt, removed)
    }

    /// This cgroup's directory.
    pub fn dir(&self) -> (r: &str)
        ensures
            r@ == self.dir@,
    {
        self.dir.as_str()
    }
}

} // verus!
