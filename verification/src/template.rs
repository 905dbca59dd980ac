//! Warmed, sealed profile template and the per-session clone ladder.
//!
//! A template is a user-data-dir that a browser has already initialized once
//! (first-run paid), stripped of per-instance singleton state, and sealed. Each
//! session clones it (reflink where possible, else copy) so no session pays the
//! first-run cost and none observes another's state.

use crate::linux::tiers::ProfileTier;
use crate::paths;
use crate::profile::TreeCopy;
use crate::text;
use vstd::prelude::*;

verus! {

/// The singleton markers of a running browser.
pub open spec fn singletons() -> Seq<Seq<char>> {
    seq!["SingletonLock"@, "SingletonSocket"@, "SingletonCookie"@]
}

/// The version marker and the caches of a browser build.
pub open spec fn build_state() -> Seq<Seq<char>> {
    seq!["RunningChromeVersion"@, "GPUCache"@, "ShaderCache"@, "GrShaderCache"@]
}

/// What is stripped of a profile, in order: the singletons, then each piece of
/// build state in the default profile and at the top.
pub open spec fn stripped(profile_dir: Seq<char>) -> Seq<Seq<char>> {
    let default = paths::join_of(profile_dir, "Default"@);
    seq![
        paths::join_of(profile_dir, singletons()[0]),
        paths::join_of(profile_dir, singletons()[1]),
        paths::join_of(profile_dir, singletons()[2]),
        paths::join_of(default, build_state()[0]),
        paths::join_of(profile_dir, build_state()[0]),
        paths::join_of(default, build_state()[1]),
        paths::join_of(profile_dir, build_state()[1]),
        paths::join_of(default, build_state()[2]),
        paths::join_of(profile_dir, build_state()[2]),
        paths::join_of(default, build_state()[3]),
        paths::join_of(profile_dir, build_state()[3]),
    ]
}

/// The paths whose removal strips per-instance state, so that a copied template
/// launches as a fresh profile: Chrome's `Singleton*` symlinks and lock/version
/// markers and the GPU/shader caches (safe: the image pins one browser build).
pub fn strip_for_seal(profile_dir: &str) -> (r: Vec<String>)
    ensures
        text::views(r@) == stripped(profile_dir@),
{
    let default = paths::join(profile_dir, "Default");
    let mut r: Vec<String> = Vec::new();
    r.push(paths::join(profile_dir, "SingletonLock"));
    r.push(paths::join(profile_dir, "SingletonSocket"));
    r.push(paths::join(profile_dir, "SingletonCookie"));
    r.push(paths::join(default.as_str(), "RunningChromeVersion"));
    r.push(paths::join(profile_dir, "RunningChromeVersion"));
    r.push(paths::join(default.as_str(), "GPUCache"));
    r.push(paths::join(profile_dir, "GPUCache"));
    r.push(paths::join(default.as_str(), "ShaderCache"));
    r.push(paths::join(profile_dir, "ShaderCache"));
    r.push(paths::join(default.as_str(), "GrShaderCache"));
    r.push(paths::join(profile_dir, "GrShaderCache"));
    assert(text::views(r@) =~= stripped(profile_dir@));
    r
}

/// What stands at a path.
#[derive(Debug, Clone, Copy, PartialEq, Eq, Structural)]
pub enum PathKind {
    /// A directory.
    Dir,
    /// A regular file.
    File,
    /// A symlink or another node type.
    Other,
    /// Nothing.
    Missing,
}

/// How something is removed.
#[derive(Debug, Clone, Copy, PartialEq, Eq, Structural)]
pub enum Remove {
    /// With everything in it.
    Tree,
    /// As a single entry.
    Entry,
    /// It is not there.
    Nothing,
}

/// How what stands at a path is removed, if it is there. A symlink is removed
/// itself, not what it points to.
pub open spec fn removal_of(kind: PathKind) -> Remove {
    match kind {
        PathKind::Dir => Remove::Tree,
        PathKind::Missing => Remove::Nothing,
        _ => Remove::Entry,
    }
}

/// How what stands at a path is removed, if it is there.
pub fn remove_if_present(kind: PathKind) -> (r: Remove)
    ensures
        r == removal_of(kind),
{
    match kind {
        PathKind::Dir => Remove::Tree,
        PathKind::Missing => Remove::Nothing,
        _ => Remove::Entry,
    }
}

/// What is done with one entry of a directory that is copied.
#[derive(Debug)]
pub enum CopyStep {
    /// Copy this directory in the same way.
    Descend {
        /// The directory.
        from: String,
        /// Its copy.
        to: String,
    },
    /// Copy this file.
    Copy {
        /// The file.
        from: String,
        /// Its copy.
        to: String,
    },
    /// Leave it out.
    Skip,
}

/// Whether what is found in a directory goes into its copy.
pub open spec fn is_copied(kind: PathKind) -> bool {
    kind is Dir || kind is File
}

/// What is done with the entry `name` when `src` is copied to `dest`. Symlinks
/// are intentionally dropped (sealed templates and Chrome storage stores are
/// plain files).
pub fn copy_tree(src: &str, dest: &str, name: &str, kind: PathKind) -> (r: CopyStep)
    ensures
        match kind {
            PathKind::Dir => r matches CopyStep::Descend { from, to } && from@ == paths::join_of(
                src@,
                name@,
            ) && to@ == paths::join_of(dest@, name@),
            PathKind::File => r matches CopyStep::Copy { from, to } && from@ == paths::join_of(
                src@,
                name@,
            ) && to@ == paths::join_of(dest@, name@),
            _ => r is Skip,
        },
        r is Skip <==> !is_copied(kind),
{
    match kind {
        PathKind::Dir => CopyStep::Descend {
            from: paths::join(src, name),
            to: paths::join(dest, name),
        },
        PathKind::File => CopyStep::Copy {
            from: paths::join(src, name),
            to: paths::join(dest, name),
        },
        _ => CopyStep::Skip,
    }
}

/// What is done next to copy one file.
#[derive(Debug, Clone, Copy, PartialEq, Eq, Structural)]
pub enum FileCopy {
    /// Clone it copy-on-write.
    Clone,
    /// Copy its bytes.
    Copy,
    /// It is copied.
    Done,
}

/// What is done next to copy one file: it is cloned where the tier says that
/// this works, and its bytes are copied where it does not or where the clone
/// failed. `cloned` says how the clone ended, once it was tried.
pub fn copy_file(reflink: bool, cloned: Option<bool>) -> (r: FileCopy)
    ensures
        r == (match cloned {
            None => if reflink {
                FileCopy::Clone
            } else {
                FileCopy::Copy
            },
            Some(true) => FileCopy::Done,
            Some(false) => FileCopy::Copy,
        }),
{
    match cloned {
        None => if reflink {
            FileCopy::Clone
        } else {
            FileCopy::Copy
        },
        Some(ok) => if ok {
            FileCopy::Done
        } else {
            FileCopy::Copy
        },
    }
}

/// The copy that clones a sealed template into `dest`, using copy-on-write
/// clones where the tier says that they work.
pub fn clone_template(template: &str, dest: &str, tier: ProfileTier) -> (r: TreeCopy)
    ensures
        r.from@ == template@,
        r.to@ == dest@,
        r.reflink == (tier is Reflink),
{
    let reflink = match tier {
        ProfileTier::Reflink => true,
        _ => false,
    };
    TreeCopy { from: template.to_owned(), to: dest.to_owned(), reflink }
}

/// The directory of the sealed templates.
pub open spec fn templates_in(data_dir: Seq<char>) -> Seq<char> {
    paths::join_of(data_dir, "templates"@)
}

/// The on-disk location of a sealed template for one browser build.
pub fn template_path(data_dir: &str, browser_key: &str) -> (r: String)
    ensures
        r@ == paths::join_of(templates_in(data_dir@), browser_key@),
{
    paths::join(paths::join(data_dir, "templates").as_str(), browser_key)
}

} // verus!
