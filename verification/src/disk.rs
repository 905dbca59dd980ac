//! What copies and removals do to the trees on a disk.
//!
//! A place on disk is the list of names that lead to it from the root.

use crate::paths;
use crate::profile::{copies_of, native_list, native_store_parts, TreeCopyView};
use crate::template::{is_copied, removal_of, stripped, PathKind, Remove};
use vstd::prelude::*;

verus! {

/// What stands at a place.
pub enum Item {
    /// A directory.
    Dir,
    /// A regular file with these contents.
    File(Seq<u8>),
    /// A symlink or another node type.
    Other,
}

/// What stands at each place of a disk.
pub type Disk = Map<Seq<Seq<char>>, Item>;

/// What kind of thing stands at a place.
pub open spec fn kind_at(d: Disk, p: Seq<Seq<char>>) -> PathKind {
    if d.contains_key(p) {
        match d[p] {
            Item::Dir => PathKind::Dir,
            Item::File(_) => PathKind::File,
            Item::Other => PathKind::Other,
        }
    } else {
        PathKind::Missing
    }
}

/// The contents of the regular file at a place, if there is one.
pub open spec fn file_at(d: Disk, p: Seq<Seq<char>>) -> Option<Seq<u8>> {
    if d.contains_key(p) {
        match d[p] {
            Item::File(bytes) => Some(bytes),
            _ => None,
        }
    } else {
        None
    }
}

/// Whether a place is `base` or below it.
pub open spec fn is_below(p: Seq<Seq<char>>, base: Seq<Seq<char>>) -> bool {
    base.len() <= p.len() && p.take(base.len() as int) == base
}

/// Whether two places are in trees of their own.
pub open spec fn apart(a: Seq<Seq<char>>, b: Seq<Seq<char>>) -> bool {
    !is_below(a, b) && !is_below(b, a)
}

/// Whether nothing stands at a place or below it.
pub open spec fn vacant(d: Disk, base: Seq<Seq<char>>) -> bool {
    forall|p: Seq<Seq<char>>| #[trigger] d.contains_key(p) ==> !is_below(p, base)
}

/// Whether everything stands in directories.
pub open spec fn disk_ok(d: Disk) -> bool {
    forall|p: Seq<Seq<char>>, n: int| #[trigger]
        d.contains_key(p) && 0 <= n < p.len() ==> #[trigger] kind_at(d, p.take(n)) is Dir
}

/// The disk after the tree at `from` was copied to `to`: the directories above
/// the copy are there, and each directory and regular file of the tree has a
/// copy at the same names. What else is in the tree is left out.
pub open spec fn copied(d: Disk, from: Seq<Seq<char>>, to: Seq<Seq<char>>) -> Disk {
    Map::new(
        |p: Seq<Seq<char>>|
            d.contains_key(p) || is_below(to, p) || (is_below(p, to) && is_copied(
                kind_at(d, from + p.skip(to.len() as int)),
            )),
        |p: Seq<Seq<char>>|
            if is_below(p, to) && is_copied(kind_at(d, from + p.skip(to.len() as int))) {
                d[from + p.skip(to.len() as int)]
            } else if d.contains_key(p) {
                d[p]
            } else {
                Item::Dir
            },
    )
}

/// The disk after these copies, one after another.
pub open spec fn after_copies(d: Disk, copies: Seq<TreeCopyView>) -> Disk
    decreases copies.len(),
{
    if copies.len() == 0 {
        d
    } else {
        let c = copies.last();
        copied(after_copies(d, copies.drop_last()), paths::parts_of(c.from), paths::parts_of(c.to))
    }
}

/// The disk after what stands at a place was removed in this way.
pub open spec fn removed(d: Disk, p: Seq<Seq<char>>, how: Remove) -> Disk {
    match how {
        Remove::Tree => d.restrict(Set::new(|q: Seq<Seq<char>>| !is_below(q, p))),
        Remove::Entry => d.remove(p),
        Remove::Nothing => d,
    }
}

/// The disk after these paths were removed, as far as they were there.
pub open spec fn after_removals(d: Disk, gone: Seq<Seq<char>>) -> Disk
    decreases gone.len(),
{
    if gone.len() == 0 {
        d
    } else {
        let before = after_removals(d, gone.drop_last());
        let p = paths::parts_of(gone.last());
        removed(before, p, removal_of(kind_at(before, p)))
    }
}

/// Whether a place is one of these paths or below one.
pub open spec fn is_among(p: Seq<Seq<char>>, gone: Seq<Seq<char>>) -> bool {
    exists|i: int| 0 <= i < gone.len() && is_below(p, paths::parts_of(#[trigger] gone[i]))
}

proof fn removal_removes(d: Disk, p: Seq<Seq<char>>)
    requires
        disk_ok(d),
    ensures
        ({
            let e = removed(d, p, removal_of(kind_at(d, p)));
            &&& disk_ok(e)
            &&& forall|q: Seq<Seq<char>>| #[trigger]
                e.contains_key(q) <==> d.contains_key(q) && !is_below(q, p)
            &&& forall|q: Seq<Seq<char>>| #[trigger] e.contains_key(q) ==> e[q] == d[q]
        }),
{
    let e = removed(d, p, removal_of(kind_at(d, p)));
    assert(p.take(p.len() as int) =~= p);
    assert forall|q: Seq<Seq<char>>| #[trigger]
        e.contains_key(q) <==> d.contains_key(q) && !is_below(q, p) by {
        if d.contains_key(q) && is_below(q, p) && q != p {
            if q.len() == p.len() {
                assert(q.take(p.len() as int) =~= q);
            }
            assert(kind_at(d, q.take(p.len() as int)) is Dir);
        }
    }
    assert forall|q: Seq<Seq<char>>, n: int| #[trigger]
        e.contains_key(q) && 0 <= n < q.len() implies #[trigger] kind_at(e, q.take(n)) is Dir by {
        let r = q.take(n);
        assert(kind_at(d, r) is Dir);
        if is_below(r, p) {
            assert(r.take(p.len() as int) =~= q.take(p.len() as int));
        }
        assert(e.contains_key(r));
    }
}

proof fn removals_remove(d: Disk, gone: Seq<Seq<char>>)
    requires
        disk_ok(d),
    ensures
        ({
            let e = after_removals(d, gone);
            &&& disk_ok(e)
            &&& forall|q: Seq<Seq<char>>| #[trigger]
                e.contains_key(q) <==> d.contains_key(q) && !is_among(q, gone)
            &&& forall|q: Seq<Seq<char>>| #[trigger] e.contains_key(q) ==> e[q] == d[q]
        }),
    decreases gone.len(),
{
    if gone.len() > 0 {
        let front = gone.drop_last();
        let last = paths::parts_of(gone.last());
        removals_remove(d, front);
        let before = after_removals(d, front);
        removal_removes(before, last);
        assert forall|q: Seq<Seq<char>>| #[trigger] is_among(q, gone) <==> is_among(q, front)
            || is_below(q, last) by {
            if is_among(q, gone) {
                let i = choose|i: int|
                    0 <= i < gone.len() && is_below(q, paths::parts_of(#[trigger] gone[i]));
                if i < front.len() {
                    assert(front[i] == gone[i]);
                }
            }
            if is_among(q, front) {
                let i = choose|i: int|
                    0 <= i < front.len() && is_below(q, paths::parts_of(#[trigger] front[i]));
                assert(gone[i] == front[i]);
            }
            if is_below(q, last) {
                assert(gone[gone.len() - 1] == gone.last());
            }
        }
    }
}

/// Stripping a profile removes the singleton markers and the build state, with
/// everything below, and leaves every other place as it is. Stripping it again
/// changes nothing.
pub proof fn strip_is_exact_and_idempotent(d: Disk, profile_dir: Seq<char>)
    requires
        disk_ok(d),
    ensures
        ({
            let gone = stripped(profile_dir);
            let e = after_removals(d, gone);
            &&& disk_ok(e)
            &&& forall|p: Seq<Seq<char>>| #[trigger] is_among(p, gone) ==> !e.contains_key(p)
            &&& forall|p: Seq<Seq<char>>|
                !is_among(p, gone) ==> (#[trigger] e.contains_key(p) <==> d.contains_key(p)) && (
                d.contains_key(p) ==> e[p] == d[p])
            &&& after_removals(e, gone) == e
        }),
{
    let gone = stripped(profile_dir);
    let e = after_removals(d, gone);
    removals_remove(d, gone);
    removals_remove(e, gone);
    assert(after_removals(e, gone) =~= e);
}

/// The names of the `k`th native store.
pub open spec fn store(k: int) -> Seq<Seq<char>> {
    paths::parts_of(native_list()[k])
}

/// The place of the `k`th native store of a profile.
pub open spec fn store_in(root: Seq<char>, k: int) -> Seq<Seq<char>> {
    paths::parts_of(root) + store(k)
}

/// Whether `dirs` has the native stores below `root` that are directories.
pub open spec fn lists_stores(d: Disk, root: Seq<char>, dirs: Seq<Seq<char>>) -> bool {
    forall|k: int|
        0 <= k < native_list().len() ==> (dirs.contains(
            paths::join_of(root, #[trigger] native_list()[k]),
        ) <==> kind_at(d, store_in(root, k)) is Dir)
}

/// Whether a place belongs to one of the first `n` native stores of a profile.
pub open spec fn in_stores(p: Seq<Seq<char>>, root: Seq<char>, n: nat) -> bool {
    exists|k: int| 0 <= k < n && is_below(p, #[trigger] store_in(root, k))
}

/// Whether a place is one of the first `n` native stores of a profile, or above
/// one.
pub open spec fn above_stores(p: Seq<Seq<char>>, root: Seq<char>, n: nat) -> bool {
    exists|k: int| 0 <= k < n && is_below(#[trigger] store_in(root, k), p)
}

/// What copying the native stores of one profile to another did: each store
/// that is a directory is there with its regular files, and nothing else
/// changed but for the directories above.
pub open spec fn stores_came(d: Disk, e: Disk, from: Seq<char>, to: Seq<char>, n: nat) -> bool {
    &&& forall|k: int, names: Seq<Seq<char>>|
        0 <= k < n ==> #[trigger] file_at(e, store_in(to, k) + names) == (if kind_at(
            d,
            store_in(from, k),
        ) is Dir {
            file_at(d, store_in(from, k) + names)
        } else {
            None
        })
    &&& forall|p: Seq<Seq<char>>|
        !in_stores(p, to, n) && d.contains_key(p) ==> #[trigger] e.contains_key(p) && e[p] == d[p]
    &&& forall|p: Seq<Seq<char>>| #[trigger]
        e.contains_key(p) && !d.contains_key(p) ==> in_stores(p, to, n) || (above_stores(p, to, n)
            && e[p] is Dir)
}

proof fn below_both(p: Seq<Seq<char>>, a: Seq<Seq<char>>, b: Seq<Seq<char>>)
    requires
        is_below(p, a),
        is_below(p, b),
    ensures
        is_below(a, b) || is_below(b, a),
{
    if a.len() <= b.len() {
        assert(b.take(a.len() as int) =~= p.take(a.len() as int));
    } else {
        assert(a.take(b.len() as int) =~= p.take(b.len() as int));
    }
}

proof fn below_more(p: Seq<Seq<char>>, a: Seq<Seq<char>>, b: Seq<Seq<char>>)
    requires
        is_below(p, a),
        is_below(a, b),
    ensures
        is_below(p, b),
{
    assert(p.take(b.len() as int) =~= p.take(a.len() as int).take(b.len() as int));
}

proof fn added_is_below(a: Seq<Seq<char>>, names: Seq<Seq<char>>)
    ensures
        is_below(a + names, a),
        (a + names).skip(a.len() as int) == names,
{
    assert((a + names).take(a.len() as int) =~= a);
    assert((a + names).skip(a.len() as int) =~= names);
}

/// Stores of two profiles in trees of their own are apart, and so are two
/// stores of one profile.
proof fn stores_are_apart(a: Seq<char>, b: Seq<char>, i: int, j: int)
    requires
        0 <= i < 2,
        0 <= j < 2,
        apart(paths::parts_of(a), paths::parts_of(b)) || (a == b && i != j),
    ensures
        apart(store_in(a, i), store_in(b, j)),
{
    native_store_parts();
    let x = store_in(a, i);
    let y = store_in(b, j);
    added_is_below(paths::parts_of(a), store(i));
    added_is_below(paths::parts_of(b), store(j));
    if apart(paths::parts_of(a), paths::parts_of(b)) {
        if is_below(x, y) {
            below_more(x, y, paths::parts_of(b));
            below_both(x, paths::parts_of(a), paths::parts_of(b));
        }
        if is_below(y, x) {
            below_more(y, x, paths::parts_of(a));
            below_both(y, paths::parts_of(a), paths::parts_of(b));
        }
    } else {
        let n = paths::parts_of(a).len() as int;
        assert(x.take(y.len() as int) =~= x);
        assert(y.take(x.len() as int) =~= y);
        assert(x[n + 1] == store(i)[1]);
        assert(y[n + 1] == store(j)[1]);
    }
}

proof fn copy_arrives(d: Disk, f: Seq<Seq<char>>, t: Seq<Seq<char>>)
    requires
        vacant(d, t),
    ensures
        ({
            let e = copied(d, f, t);
            &&& forall|names: Seq<Seq<char>>| #[trigger]
                file_at(e, t + names) == file_at(d, f + names)
            &&& forall|p: Seq<Seq<char>>|
                !is_below(p, t) && d.contains_key(p) ==> #[trigger] e.contains_key(p) && e[p]
                    == d[p]
            &&& forall|p: Seq<Seq<char>>| #[trigger]
                e.contains_key(p) && !d.contains_key(p) ==> is_below(p, t) || (is_below(t, p)
                    && e[p] is Dir)
            &&& kind_at(d, f) is Dir ==> kind_at(e, t) is Dir
        }),
{
    let e = copied(d, f, t);
    assert forall|names: Seq<Seq<char>>| #[trigger] file_at(e, t + names) == file_at(
        d,
        f + names,
    ) by {
        added_is_below(t, names);
        assert(!d.contains_key(t + names));
    }
    added_is_below(t, Seq::empty());
    assert(t + Seq::<Seq<char>>::empty() =~= t);
    assert(f + Seq::<Seq<char>>::empty() =~= f);
}

/// Whether the copies of the first `m` stores left the `m`th ones alone.
spec fn untouched(d: Disk, mid: Disk, f: Seq<Seq<char>>, t: Seq<Seq<char>>) -> bool {
    &&& vacant(mid, t)
    &&& forall|p: Seq<Seq<char>>|
        is_below(p, f) ==> #[trigger] kind_at(mid, p) == kind_at(d, p) && (d.contains_key(p)
            ==> mid[p] == d[p])
}

proof fn next_stores_are_untouched(
    d: Disk,
    mid: Disk,
    from: Seq<char>,
    to: Seq<char>,
    m: nat,
)
    requires
        m < 2,
        apart(paths::parts_of(from), paths::parts_of(to)),
        vacant(d, store_in(to, m as int)),
        stores_came(d, mid, from, to, m),
    ensures
        untouched(d, mid, store_in(from, m as int), store_in(to, m as int)),
{
    let f = store_in(from, m as int);
    let t = store_in(to, m as int);
    assert forall|p: Seq<Seq<char>>| #[trigger] mid.contains_key(p) implies !is_below(p, t) by {
        if is_below(p, t) {
            assert(!d.contains_key(p));
            if in_stores(p, to, m) {
                let k = choose|k: int| 0 <= k < m && is_below(p, #[trigger] store_in(to, k));
                stores_are_apart(to, to, k, m as int);
                below_both(p, store_in(to, k), t);
            } else {
                let k = choose|k: int| 0 <= k < m && is_below(#[trigger] store_in(to, k), p);
                stores_are_apart(to, to, k, m as int);
                below_more(store_in(to, k), p, t);
            }
        }
    }
    assert forall|p: Seq<Seq<char>>| is_below(p, f) implies #[trigger] kind_at(mid, p) == kind_at(
        d,
        p,
    ) && (d.contains_key(p) ==> mid[p] == d[p]) by {
        if in_stores(p, to, m) {
            let k = choose|k: int| 0 <= k < m && is_below(p, #[trigger] store_in(to, k));
            stores_are_apart(from, to, m as int, k);
            below_both(p, f, store_in(to, k));
        }
        if above_stores(p, to, m) {
            let k = choose|k: int| 0 <= k < m && is_below(#[trigger] store_in(to, k), p);
            stores_are_apart(from, to, m as int, k);
            below_more(store_in(to, k), p, f);
        }
        assert(d.contains_key(p) ==> mid.contains_key(p));
    }
}

proof fn more_stores(p: Seq<Seq<char>>, to: Seq<char>, m: nat)
    ensures
        in_stores(p, to, m + 1) <==> in_stores(p, to, m) || is_below(p, store_in(to, m as int)),
        above_stores(p, to, m + 1) <==> above_stores(p, to, m) || is_below(
            store_in(to, m as int),
            p,
        ),
{
    if in_stores(p, to, m) {
        let k = choose|k: int| 0 <= k < m && is_below(p, #[trigger] store_in(to, k));
        assert(0 <= k < m + 1 && is_below(p, store_in(to, k)));
    }
    if above_stores(p, to, m) {
        let k = choose|k: int| 0 <= k < m && is_below(#[trigger] store_in(to, k), p);
        assert(0 <= k < m + 1 && is_below(store_in(to, k), p));
    }
}

proof fn next_store_comes(d: Disk, mid: Disk, from: Seq<char>, to: Seq<char>, m: nat)
    requires
        m < 2,
        apart(paths::parts_of(from), paths::parts_of(to)),
        vacant(d, store_in(to, m as int)),
        stores_came(d, mid, from, to, m),
        kind_at(d, store_in(from, m as int)) is Dir,
    ensures
        stores_came(
            d,
            copied(mid, store_in(from, m as int), store_in(to, m as int)),
            from,
            to,
            m + 1,
        ),
{
    let f = store_in(from, m as int);
    let t = store_in(to, m as int);
    let e = copied(mid, f, t);
    next_stores_are_untouched(d, mid, from, to, m);
    copy_arrives(mid, f, t);
    assert forall|k: int, names: Seq<Seq<char>>| 0 <= k < m + 1 implies #[trigger] file_at(
        e,
        store_in(to, k) + names,
    ) == (if kind_at(d, store_in(from, k)) is Dir {
        file_at(d, store_in(from, k) + names)
    } else {
        None
    }) by {
        let p = store_in(to, k) + names;
        if k == m {
            added_is_below(f, names);
            assert(kind_at(mid, f + names) == kind_at(d, f + names));
            assert(file_at(e, t + names) == file_at(mid, f + names));
        } else {
            added_is_below(store_in(to, k), names);
            stores_are_apart(to, to, k, m as int);
            if is_below(p, t) {
                below_both(p, store_in(to, k), t);
            }
            assert(file_at(e, p) == file_at(mid, p));
            assert(file_at(mid, store_in(to, k) + names) == file_at(mid, p));
        }
    }
    assert forall|p: Seq<Seq<char>>| !in_stores(p, to, m + 1) && d.contains_key(p) implies
        #[trigger] e.contains_key(p) && e[p] == d[p] by {
        more_stores(p, to, m);
        assert(mid.contains_key(p));
    }
    assert forall|p: Seq<Seq<char>>| #[trigger] e.contains_key(p) && !d.contains_key(p) implies
        in_stores(p, to, m + 1) || (above_stores(p, to, m + 1) && e[p] is Dir) by {
        more_stores(p, to, m);
        if mid.contains_key(p) && !is_below(p, t) {
            assert(e[p] == mid[p]);
        }
    }
}

proof fn missing_store_is_skipped(d: Disk, mid: Disk, from: Seq<char>, to: Seq<char>, m: nat)
    requires
        m < 2,
        apart(paths::parts_of(from), paths::parts_of(to)),
        vacant(d, store_in(to, m as int)),
        stores_came(d, mid, from, to, m),
        !(kind_at(d, store_in(from, m as int)) is Dir),
    ensures
        stores_came(d, mid, from, to, m + 1),
{
    let t = store_in(to, m as int);
    next_stores_are_untouched(d, mid, from, to, m);
    assert forall|k: int, names: Seq<Seq<char>>| 0 <= k < m + 1 implies #[trigger] file_at(
        mid,
        store_in(to, k) + names,
    ) == (if kind_at(d, store_in(from, k)) is Dir {
        file_at(d, store_in(from, k) + names)
    } else {
        None
    }) by {
        if k == m {
            added_is_below(t, names);
            assert(!mid.contains_key(t + names));
        }
    }
    assert forall|p: Seq<Seq<char>>| !in_stores(p, to, m + 1) && d.contains_key(p) implies
        #[trigger] mid.contains_key(p) && mid[p] == d[p] by {
        more_stores(p, to, m);
    }
    assert forall|p: Seq<Seq<char>>| #[trigger] mid.contains_key(p) && !d.contains_key(p) implies
        in_stores(p, to, m + 1) || (above_stores(p, to, m + 1) && mid[p] is Dir) by {
        more_stores(p, to, m);
    }
}

/// Whether the same of the first `n` native stores are directories.
#[verifier::opaque]
spec fn dirs_alike(d: Disk, e: Disk, from: Seq<char>, to: Seq<char>, n: nat) -> bool {
    forall|k: int|
        0 <= k < n ==> (kind_at(e, #[trigger] store_in(to, k)) is Dir <==> kind_at(
            d,
            store_in(from, k),
        ) is Dir)
}

proof fn next_dirs_alike(d: Disk, mid: Disk, e: Disk, from: Seq<char>, to: Seq<char>, m: nat)
    requires
        m < 2,
        untouched(d, mid, store_in(from, m as int), store_in(to, m as int)),
        dirs_alike(d, mid, from, to, m),
        e == (if kind_at(d, store_in(from, m as int)) is Dir {
            copied(mid, store_in(from, m as int), store_in(to, m as int))
        } else {
            mid
        }),
    ensures
        dirs_alike(d, e, from, to, m + 1),
{
    reveal(dirs_alike);
    let f = store_in(from, m as int);
    let t = store_in(to, m as int);
    copy_arrives(mid, f, t);
    assert(f.take(f.len() as int) =~= f);
    assert(t.take(t.len() as int) =~= t);
    assert(is_below(f, f) && is_below(t, t));
    assert(kind_at(mid, f) == kind_at(d, f));
    assert(!mid.contains_key(t));
    assert forall|k: int| 0 <= k < m + 1 implies (kind_at(e, #[trigger] store_in(to, k)) is Dir
        <==> kind_at(d, store_in(from, k)) is Dir) by {
        if k < m {
            let p = store_in(to, k);
            stores_are_apart(to, to, k, m as int);
            assert(e.contains_key(p) <==> mid.contains_key(p));
        }
    }
}

proof fn copying_stores(
    d: Disk,
    from: Seq<char>,
    to: Seq<char>,
    reflink: bool,
    dirs: Seq<Seq<char>>,
    n: nat,
)
    requires
        n <= 2,
        apart(paths::parts_of(from), paths::parts_of(to)),
        lists_stores(d, from, dirs),
        forall|k: int| 0 <= k < 2 ==> vacant(d, #[trigger] store_in(to, k)),
    ensures
        stores_came(d, after_copies(d, copies_of(from, to, reflink, dirs, n)), from, to, n),
        dirs_alike(d, after_copies(d, copies_of(from, to, reflink, dirs, n)), from, to, n),
    decreases n,
{
    let copies = copies_of(from, to, reflink, dirs, n);
    let e = after_copies(d, copies);
    if n > 0 {
        let m = (n - 1) as nat;
        copying_stores(d, from, to, reflink, dirs, m);
        native_store_parts();
        let front = copies_of(from, to, reflink, dirs, m);
        let mid = after_copies(d, front);
        let rel = native_list()[m as int];
        paths::joined_parts(from, rel);
        paths::joined_parts(to, rel);
        assert(dirs.contains(paths::join_of(from, native_list()[m as int])) <==> kind_at(
            d,
            store_in(from, m as int),
        ) is Dir);
        assert(vacant(d, store_in(to, m as int)));
        next_stores_are_untouched(d, mid, from, to, m);
        if kind_at(d, store_in(from, m as int)) is Dir {
            assert(copies.drop_last() =~= front);
            assert(e == copied(mid, store_in(from, m as int), store_in(to, m as int)));
            next_store_comes(d, mid, from, to, m);
        } else {
            assert(e == mid);
            missing_store_is_skipped(d, mid, from, to, m);
        }
        next_dirs_alike(d, mid, e, from, to, m);
    } else {
        reveal(dirs_alike);
        assert(e == d);
    }
}

/// What a snapshot takes out of a profile and a seed puts into another one
/// arrives whole, whatever the tiers: the regular files of the native stores
/// there are those of the first profile, with the same names and contents, and
/// a store that the first profile does not have is not there either. Nothing
/// else in the second profile changes but that the directories above its stores
/// are there, and the first profile stays as it is.
pub proof fn seed_restores_what_snapshot_took(
    d: Disk,
    from: Seq<char>,
    snap: Seq<char>,
    to: Seq<char>,
    clone_out: bool,
    clone_in: bool,
    present: Seq<Seq<char>>,
    saved: Seq<Seq<char>>,
)
    requires
        apart(paths::parts_of(from), paths::parts_of(snap)),
        apart(paths::parts_of(snap), paths::parts_of(to)),
        apart(paths::parts_of(from), paths::parts_of(to)),
        vacant(d, paths::parts_of(snap)),
        forall|k: int| 0 <= k < native_list().len() ==> vacant(d, #[trigger] store_in(to, k)),
        lists_stores(d, from, present),
        lists_stores(
            after_copies(d, copies_of(from, snap, clone_out, present, native_list().len())),
            snap,
            saved,
        ),
    ensures
        ({
            let n = native_list().len();
            let taken = after_copies(d, copies_of(from, snap, clone_out, present, n));
            let e = after_copies(taken, copies_of(snap, to, clone_in, saved, n));
            &&& stores_came(d, taken, from, snap, n)
            &&& forall|k: int, names: Seq<Seq<char>>|
                0 <= k < n ==> #[trigger] file_at(e, store_in(to, k) + names) == (if kind_at(
                    d,
                    store_in(from, k),
                ) is Dir {
                    file_at(d, store_in(from, k) + names)
                } else {
                    None
                })
            &&& forall|p: Seq<Seq<char>>|
                (is_below(p, paths::parts_of(to)) || is_below(p, paths::parts_of(from)))
                    && !in_stores(p, to, n) && d.contains_key(p) ==> #[trigger] e.contains_key(p)
                    && e[p] == d[p]
            &&& forall|p: Seq<Seq<char>>|
                (is_below(p, paths::parts_of(to)) || is_below(p, paths::parts_of(from)))
                    && #[trigger] e.contains_key(p) && !d.contains_key(p) ==> in_stores(p, to, n)
                    || (above_stores(p, to, n) && e[p] is Dir)
        }),
{
    native_store_parts();
    let n = native_list().len();
    let taken = after_copies(d, copies_of(from, snap, clone_out, present, n));
    let e = after_copies(taken, copies_of(snap, to, clone_in, saved, n));
    let s = paths::parts_of(snap);
    assert forall|k: int| 0 <= k < 2 implies vacant(d, #[trigger] store_in(snap, k)) by {
        added_is_below(s, store(k));
        assert forall|p: Seq<Seq<char>>| #[trigger] d.contains_key(p) implies !is_below(
            p,
            store_in(snap, k),
        ) by {
            if is_below(p, store_in(snap, k)) {
                below_more(p, store_in(snap, k), s);
            }
        }
    }
    copying_stores(d, from, snap, clone_out, present, n);
    assert forall|p: Seq<Seq<char>>|
        (is_below(p, paths::parts_of(to)) || is_below(p, paths::parts_of(from))) implies !in_stores(
        p,
        snap,
        n,
    ) && !#[trigger] above_stores(p, snap, n) by {
        outside_snapshot(p, snap, to);
        outside_snapshot(p, snap, from);
    }
    assert forall|k: int| 0 <= k < 2 implies vacant(taken, #[trigger] store_in(to, k)) by {
        added_is_below(paths::parts_of(to), store(k));
        assert(vacant(d, store_in(to, k)));
        assert forall|p: Seq<Seq<char>>| #[trigger] taken.contains_key(p) implies !is_below(
            p,
            store_in(to, k),
        ) by {
            if is_below(p, store_in(to, k)) {
                below_more(p, store_in(to, k), paths::parts_of(to));
                assert(!above_stores(p, snap, n));
                assert(!d.contains_key(p));
            }
        }
    }
    copying_stores(taken, snap, to, clone_in, saved, n);
    assert forall|k: int, names: Seq<Seq<char>>| 0 <= k < n implies #[trigger] file_at(
        e,
        store_in(to, k) + names,
    ) == (if kind_at(d, store_in(from, k)) is Dir {
        file_at(d, store_in(from, k) + names)
    } else {
        None
    }) by {
        let a = file_at(taken, store_in(snap, k) + names);
        assert(kind_at(taken, store_in(snap, k)) is Dir <==> kind_at(d, store_in(from, k)) is Dir)
            by {
            reveal(dirs_alike);
        }
    }
    assert forall|p: Seq<Seq<char>>|
        (is_below(p, paths::parts_of(to)) || is_below(p, paths::parts_of(from))) && !in_stores(
            p,
            to,
            n,
        ) && d.contains_key(p) implies #[trigger] e.contains_key(p) && e[p] == d[p] by {
        assert(!above_stores(p, snap, n));
        assert(taken.contains_key(p));
    }
    assert forall|p: Seq<Seq<char>>|
        (is_below(p, paths::parts_of(to)) || is_below(p, paths::parts_of(from))) && #[trigger]
            e.contains_key(p) && !d.contains_key(p) implies in_stores(p, to, n) || (above_stores(
        p,
        to,
        n,
    ) && e[p] is Dir) by {
        assert(!above_stores(p, snap, n));
        assert(!taken.contains_key(p));
    }
}

proof fn outside_snapshot(p: Seq<Seq<char>>, snap: Seq<char>, other: Seq<char>)
    requires
        apart(paths::parts_of(snap), paths::parts_of(other)) || apart(
            paths::parts_of(other),
            paths::parts_of(snap),
        ),
    ensures
        is_below(p, paths::parts_of(other)) ==> !in_stores(p, snap, native_list().len())
            && !above_stores(p, snap, native_list().len()),
{
    let s = paths::parts_of(snap);
    let o = paths::parts_of(other);
    if is_below(p, o) {
        if in_stores(p, snap, native_list().len()) {
            let k = choose|k: int|
                0 <= k < native_list().len() && is_below(p, #[trigger] store_in(snap, k));
            added_is_below(s, store(k));
            below_more(p, store_in(snap, k), s);
            below_both(p, s, o);
        }
        if above_stores(p, snap, native_list().len()) {
            let k = choose|k: int|
                0 <= k < native_list().len() && is_below(#[trigger] store_in(snap, k), p);
            added_is_below(s, store(k));
            below_more(store_in(snap, k), p, o);
            below_both(store_in(snap, k), s, o);
        }
    }
}

} // verus!
