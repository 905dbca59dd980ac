//! Profile native layer: snapshot and seed the on-disk stores that CDP cannot
//! carry.
//!
//! A profile's cookies and localStorage are the portable core and travel via
//! CDP. `IndexedDB` and service workers cannot be moved over the protocol, so
//! they move as whole store directories: seeded into a fresh session dir before
//! launch, snapshot back after the browser process tree is dead (`LevelDB` is
//! copy-safe only once the writer is gone).

use crate::linux::tiers::ProfileTier;
use crate::paths;
use crate::text;
use vstd::prelude::*;

pub mod cdp;
pub mod cookie;
pub mod localstorage;
pub mod manifest;
pub mod payload;
pub mod repack;

verus! {

/// The user-data-dir-relative store directories that make up the native layer.
///
/// Cookies (`Default/Network/Cookies`) and localStorage
/// (`Default/Local Storage`) are deliberately absent: they are the portable
/// core and move via CDP so external providers can consume the same profile.
pub open spec fn native_list() -> Seq<Seq<char>> {
    seq!["Default/IndexedDB"@, "Default/Service Worker"@]
}

/// The store directories that make up the native layer.
pub fn native_stores() -> (r: Vec<String>)
    ensures
        text::views(r@) == native_list(),
{
    let mut r: Vec<String> = Vec::new();
    r.push("Default/IndexedDB".to_owned());
    r.push("Default/Service Worker".to_owned());
    assert(text::views(r@) =~= native_list());
    r
}

/// The parts of the native stores' paths.
pub proof fn native_store_parts()
    ensures
        native_list().len() == 2,
        paths::parts_of(native_list()[0]) == seq!["Default"@, "IndexedDB"@],
        paths::parts_of(native_list()[1]) == seq!["Default"@, "Service Worker"@],
        "IndexedDB"@ != "Service Worker"@,
        !paths::is_absolute(native_list()[0]),
        !paths::is_absolute(native_list()[1]),
{
    reveal_strlit("Default/IndexedDB");
    reveal_strlit("Default/Service Worker");
    reveal_strlit("Default");
    reveal_strlit("IndexedDB");
    reveal_strlit("Service Worker");
    let d = "Default"@;
    let idb = "IndexedDB"@;
    let sw = "Service Worker"@;
    paths::name_is_its_part(d);
    paths::name_is_its_part(idb);
    paths::name_is_its_part(sw);
    paths::separator_parts(d, idb);
    paths::separator_parts(d, sw);
    assert("Default/IndexedDB"@ =~= d.push('/') + idb);
    assert("Default/Service Worker"@ =~= d.push('/') + sw);
    assert(seq![d] + seq![idb] =~= seq![d, idb]);
    assert(seq![d] + seq![sw] =~= seq![d, sw]);
    assert(idb.len() != sw.len());
}

/// One directory tree to be copied.
#[derive(Debug)]
pub struct TreeCopy {
    /// The directory to copy.
    pub from: String,
    /// Where the copy goes.
    pub to: String,
    /// Whether files are cloned copy-on-write where that works.
    pub reflink: bool,
}

/// A tree copy as it is stated.
pub struct TreeCopyView {
    /// The directory to copy.
    pub from: Seq<char>,
    /// Where the copy goes.
    pub to: Seq<char>,
    /// Whether files are cloned copy-on-write where that works.
    pub reflink: bool,
}

impl View for TreeCopy {
    type V = TreeCopyView;

    open spec fn view(&self) -> TreeCopyView {
        TreeCopyView { from: self.from@, to: self.to@, reflink: self.reflink }
    }
}

/// The copies of a list, as they are stated.
pub open spec fn copies_view(copies: Seq<TreeCopy>) -> Seq<TreeCopyView> {
    Seq::new(copies.len(), |i: int| copies[i]@)
}

/// The copies of the first `n` native stores that are directories.
pub open spec fn copies_of(
    from_root: Seq<char>,
    to_root: Seq<char>,
    reflink: bool,
    dirs: Seq<Seq<char>>,
    n: nat,
) -> Seq<TreeCopyView>
    decreases n,
{
    if n == 0 {
        Seq::empty()
    } else {
        let before = copies_of(from_root, to_root, reflink, dirs, (n - 1) as nat);
        let rel = native_list()[n - 1];
        let from = paths::join_of(from_root, rel);
        if dirs.contains(from) {
            before.push(TreeCopyView { from, to: paths::join_of(to_root, rel), reflink })
        } else {
            before
        }
    }
}

fn copy_present_stores(
    from_root: &str,
    to_root: &str,
    tier: ProfileTier,
    dirs: &Vec<String>,
) -> (r: Vec<TreeCopy>)
    ensures
        copies_view(r@) == copies_of(
            from_root@,
            to_root@,
            tier is Reflink,
            text::views(dirs@),
            native_list().len(),
        ),
{
    let reflink = match tier {
        ProfileTier::Reflink => true,
        _ => false,
    };
    let stores = native_stores();
    let mut out: Vec<TreeCopy> = Vec::new();
    let mut i: usize = 0;
    assert(copies_view(out@) =~= Seq::empty());
    while i < stores.len()
        invariant
            i <= stores@.len(),
            text::views(stores@) == native_list(),
            reflink == (tier is Reflink),
            copies_view(out@) == copies_of(
                from_root@,
                to_root@,
                reflink,
                text::views(dirs@),
                i as nat,
            ),
        decreases stores.len() - i,
    {
        let ghost before = out@;
        let from = paths::join(from_root, stores[i].as_str());
        assert(native_list()[i as int] == stores@[i as int]@) by {
            assert(text::views(stores@)[i as int] == stores@[i as int]@);
        }
        if text::list_has(dirs, from.as_str()) {
            let to = paths::join(to_root, stores[i].as_str());
            out.push(TreeCopy { from, to, reflink });
            assert(copies_view(out@) =~= copies_view(before).push(out@.last()@));
        }
        i += 1;
    }
    assert(stores@.len() == text::views(stores@).len());
    out
}

/// The copies that take the native-layer stores out of a session's
/// `user_data_dir` into `dest`, preserving the relative store paths. A store
/// that is not among the existing directories `dirs` is skipped (a profile may
/// legitimately have no `IndexedDB` or service worker).
///
/// The browser process tree must be reaped before the copies are made:
/// `LevelDB` stores are only crash-consistent to copy once the writer is gone.
pub fn snapshot_native(
    user_data_dir: &str,
    dest: &str,
    tier: ProfileTier,
    dirs: &Vec<String>,
) -> (r: Vec<TreeCopy>)
    ensures
        copies_view(r@) == copies_of(
            user_data_dir@,
            dest@,
            tier is Reflink,
            text::views(dirs@),
            native_list().len(),
        ),
{
    copy_present_stores(user_data_dir, dest, tier, dirs)
}

/// The copies that put previously-snapshotted native stores from `src` into a
/// fresh session `user_data_dir` before launch, so Chrome loads them natively.
/// A store that is not among the existing directories `dirs` is skipped.
pub fn seed_native(
    src: &str,
    user_data_dir: &str,
    tier: ProfileTier,
    dirs: &Vec<String>,
) -> (r: Vec<TreeCopy>)
    ensures
        copies_view(r@) == copies_of(
            src@,
            user_data_dir@,
            tier is Reflink,
            text::views(dirs@),
            native_list().len(),
        ),
{
    copy_present_stores(src, user_data_dir, tier, dirs)
}

/// What a snapshot takes out of a profile, a seed puts back where it was: the
/// seed of a snapshot copies the same stores in the other direction.
pub proof fn seed_reverses_snapshot(
    udd: Seq<char>,
    snap: Seq<char>,
    reflink: bool,
    present: Seq<Seq<char>>,
    copied: Seq<Seq<char>>,
    n: nat,
)
    requires
        n <= native_list().len(),
        forall|k: int|
            0 <= k < native_list().len() ==> (present.contains(
                paths::join_of(udd, #[trigger] native_list()[k]),
            ) <==> copied.contains(paths::join_of(snap, native_list()[k]))),
    ensures
        ({
            let out = copies_of(udd, snap, reflink, present, n);
            let back = copies_of(snap, udd, reflink, copied, n);
            &&& out.len() == back.len()
            &&& forall|i: int|
                0 <= i < out.len() ==> (#[trigger] out[i]).from == back[i].to && out[i].to
                    == back[i].from
        }),
    decreases n,
{
    if n > 0 {
        seed_reverses_snapshot(udd, snap, reflink, present, copied, (n - 1) as nat);
        let rel = native_list()[n - 1];
        assert(present.contains(paths::join_of(udd, rel)) <==> copied.contains(
            paths::join_of(snap, rel),
        ));
    }
}

} // verus!
