//! What comes of a manifest that is extracted and packed again.

use crate::paths;
use crate::profile;
use crate::profile::manifest::{
    entry_of, files_at, files_in, is_name, list_ok, manifest_view, names_ok, node_of, packed,
    packed_manifest_extracts, safe_count, safe_names, DirEntry, ManifestEntry, Node,
};
use vstd::prelude::*;

verus! {

/// The contents of the regular file at these names below a node, if there is
/// one.
pub open spec fn file_in(node: Node, names: Seq<Seq<char>>) -> Option<Seq<u8>> {
    match node_of(node, names) {
        Some(Node::File(bytes)) => Some(bytes@),
        _ => None,
    }
}

/// Whether no directory of a tree has two entries of the same name.
pub open spec fn unique_at(node: Node) -> bool
    decreases node, 0nat,
{
    match node {
        Node::Dir(entries) => unique_in(entries, entries@.len()),
        _ => true,
    }
}

/// Whether the first `k` names of a directory are distinct, and those in each
/// directory below.
pub open spec fn unique_in(entries: Vec<DirEntry>, k: nat) -> bool
    decreases entries, k,
{
    if k == 0 || k > entries@.len() {
        true
    } else {
        &&& unique_in(entries, (k - 1) as nat)
        &&& forall|j: int|
            0 <= j < k - 1 ==> (#[trigger] entries@[j]).name@ != entries@[k - 1].name@
        &&& unique_at(entries@[k - 1].node)
    }
}

/// Whether a tree is like one on disk: its names are ordinary ones, and no
/// directory has the same one twice.
pub open spec fn tree_ok(node: Node) -> bool {
    names_ok(node) && unique_at(node)
}

/// What an extraction puts at these names: the contents of the entry whose
/// path has them.
pub open spec fn extracted(
    entries: Seq<ManifestEntry>,
    names: Seq<Seq<char>>,
    bytes: Seq<u8>,
) -> bool {
    exists|i: int|
        0 <= i < entries.len() && safe_names((#[trigger] entries[i]).path@) == Some(names)
            && entries[i].bytes@ == bytes
}

/// Whether the regular files below `dest` are those of an extracted manifest,
/// each with its contents, and no others.
pub open spec fn holds_extraction(dest: Node, entries: Seq<ManifestEntry>) -> bool {
    forall|names: Seq<Seq<char>>, bytes: Seq<u8>|
        file_in(dest, names) == Some(bytes) <==> #[trigger] extracted(entries, names, bytes)
}

proof fn listed(entries: Vec<DirEntry>, k: nat, j: int)
    requires
        0 <= j < k <= entries@.len(),
        list_ok(entries, k),
        unique_in(entries, k),
    ensures
        is_name(entries@[j].name@),
        tree_ok(entries@[j].node),
        forall|i: int|
            0 <= i < k && i != j ==> (#[trigger] entries@[i]).name@ != entries@[j].name@,
    decreases k,
{
    if j < k - 1 {
        listed(entries, (k - 1) as nat, j);
        assert(entries@[j].name@ != entries@[k - 1].name@);
    }
}

proof fn entry_at(entries: Vec<DirEntry>, j: int, from: int)
    requires
        0 <= from <= j < entries@.len(),
        list_ok(entries, entries@.len()),
        unique_in(entries, entries@.len()),
    ensures
        entry_of(entries@.skip(from), entries@[j].name@) == Some(entries@[j].node),
    decreases j - from,
{
    let rest = entries@.skip(from);
    assert(rest[0] == entries@[from]);
    if from < j {
        listed(entries, entries@.len(), j);
        assert(entries@[from].name@ != entries@[j].name@);
        assert(rest.skip(1) =~= entries@.skip(from + 1));
        entry_at(entries, j, from + 1);
    }
}

proof fn entry_is_listed(entries: Seq<DirEntry>, name: Seq<char>)
    ensures
        entry_of(entries, name) matches Some(node) ==> exists|j: int|
            0 <= j < entries.len() && (#[trigger] entries[j]).name@ == name && entries[j].node
                == node,
    decreases entries.len(),
{
    if entries.len() > 0 {
        if entries[0].name@ != name {
            let rest = entries.skip(1);
            entry_is_listed(rest, name);
            if let Some(node) = entry_of(rest, name) {
                let j = choose|j: int|
                    0 <= j < rest.len() && (#[trigger] rest[j]).name@ == name && rest[j].node
                        == node;
                assert(entries[j + 1].name@ == name && entries[j + 1].node == node);
            }
        }
    }
}

proof fn names_on_the_way(node: Node, names: Seq<Seq<char>>)
    requires
        tree_ok(node),
        node_of(node, names) is Some,
    ensures
        forall|k: int| 0 <= k < names.len() ==> is_name(#[trigger] names[k]),
        tree_ok(node_of(node, names)->0),
    decreases names.len(),
{
    if names.len() > 0 {
        if let Node::Dir(entries) = node {
            let inner = entry_of(entries@, names[0])->0;
            entry_is_listed(entries@, names[0]);
            let j = choose|j: int|
                0 <= j < entries@.len() && (#[trigger] entries@[j]).name@ == names[0]
                    && entries@[j].node == inner;
            listed(entries, entries@.len(), j);
            names_on_the_way(inner, names.skip(1));
            assert forall|k: int| 0 <= k < names.len() implies is_name(#[trigger] names[k]) by {
                if k > 0 {
                    assert(names.skip(1)[k - 1] == names[k]);
                }
            }
        }
    }
}

proof fn node_below(node: Node, a: Seq<Seq<char>>, b: Seq<Seq<char>>)
    ensures
        node_of(node, a + b) == (match node_of(node, a) {
            Some(inner) => node_of(inner, b),
            None => None,
        }),
    decreases a.len(),
{
    let both = a + b;
    if a.len() == 0 {
        assert(both =~= b);
    } else {
        assert(both[0] == a[0]);
        assert(both.skip(1) =~= a.skip(1) + b);
        if let Node::Dir(entries) = node {
            if let Some(inner) = entry_of(entries@, a[0]) {
                node_below(inner, a.skip(1), b);
            }
        }
    }
}

/// Whether a packed file is one of the tree: its path leads to it.
spec fn placed(at: Seq<char>, node: Node, f: (Seq<char>, Seq<u8>), names: Seq<Seq<char>>) -> bool {
    f.0 == paths::under(at, names) && file_in(node, names) == Some(f.1)
}

/// Whether a packed file is below the `j`th entry of a directory.
spec fn placed_below(
    at: Seq<char>,
    entries: Vec<DirEntry>,
    j: int,
    f: (Seq<char>, Seq<u8>),
    names: Seq<Seq<char>>,
) -> bool {
    placed(paths::join_of(at, entries@[j].name@), entries@[j].node, f, names)
}

proof fn files_at_are_placed(at: Seq<char>, node: Node, f: (Seq<char>, Seq<u8>))
    requires
        tree_ok(node),
        files_at(at, node).contains(f),
    ensures
        exists|names: Seq<Seq<char>>| placed(at, node, f, names),
    decreases node, 0nat,
{
    match node {
        Node::Dir(entries) => {
            files_in_are_placed(at, entries, entries@.len(), f);
            let (j, names) = choose|j: int, names: Seq<Seq<char>>|
                0 <= j < entries@.len() && placed_below(at, entries, j, f, names);
            let all = seq![entries@[j].name@] + names;
            entry_at(entries, j, 0);
            assert(entries@.skip(0) =~= entries@);
            assert(all.skip(1) =~= names);
            paths::under_first(at, all);
            assert(placed(at, node, f, all));
        },
        Node::File(bytes) => {
            let none = Seq::<Seq<char>>::empty();
            assert(f == (at, bytes@));
            assert(placed(at, node, f, none));
        },
        Node::Other => {},
    }
}

proof fn files_in_are_placed(
    at: Seq<char>,
    entries: Vec<DirEntry>,
    k: nat,
    f: (Seq<char>, Seq<u8>),
)
    requires
        k <= entries@.len(),
        list_ok(entries, k),
        unique_in(entries, k),
        files_in(at, entries, k).contains(f),
    ensures
        exists|j: int, names: Seq<Seq<char>>| 0 <= j < k && placed_below(at, entries, j, f, names),
    decreases entries, k,
{
    if k > 0 {
        let entry = entries@[k - 1];
        let before = files_in(at, entries, (k - 1) as nat);
        let here = files_at(paths::join_of(at, entry.name@), entry.node);
        let i = choose|i: int| 0 <= i < (before + here).len() && (before + here)[i] == f;
        if i < before.len() {
            assert(before[i] == f);
            files_in_are_placed(at, entries, (k - 1) as nat, f);
            let (j, names) = choose|j: int, names: Seq<Seq<char>>|
                0 <= j < k - 1 && placed_below(at, entries, j, f, names);
            assert(0 <= j < k && placed_below(at, entries, j, f, names));
        } else {
            assert(here[i - before.len()] == f);
            files_at_are_placed(paths::join_of(at, entry.name@), entry.node, f);
            let names = choose|names: Seq<Seq<char>>|
                placed(paths::join_of(at, entry.name@), entry.node, f, names);
            assert(placed_below(at, entries, k - 1, f, names));
        }
    }
}

proof fn placed_is_packed(
    at: Seq<char>,
    node: Node,
    f: (Seq<char>, Seq<u8>),
    names: Seq<Seq<char>>,
)
    requires
        placed(at, node, f, names),
    ensures
        files_at(at, node).contains(f),
    decreases names.len(),
{
    if names.len() == 0 {
        assert(files_at(at, node) =~= seq![f]);
        assert(files_at(at, node)[0] == f);
    } else if let Node::Dir(entries) = node {
        let inner = entry_of(entries@, names[0])->0;
        entry_is_listed(entries@, names[0]);
        let j = choose|j: int|
            0 <= j < entries@.len() && (#[trigger] entries@[j]).name@ == names[0]
                && entries@[j].node == inner;
        paths::under_first(at, names);
        placed_is_packed(paths::join_of(at, names[0]), inner, f, names.skip(1));
        listed_is_packed(at, entries, entries@.len(), j, f);
    }
}

proof fn listed_is_packed(
    at: Seq<char>,
    entries: Vec<DirEntry>,
    k: nat,
    j: int,
    f: (Seq<char>, Seq<u8>),
)
    requires
        0 <= j < k <= entries@.len(),
        files_at(paths::join_of(at, entries@[j].name@), entries@[j].node).contains(f),
    ensures
        files_in(at, entries, k).contains(f),
    decreases k,
{
    let entry = entries@[k - 1];
    let before = files_in(at, entries, (k - 1) as nat);
    let here = files_at(paths::join_of(at, entry.name@), entry.node);
    let all = files_in(at, entries, k);
    if j == k - 1 {
        let i = choose|i: int| 0 <= i < here.len() && here[i] == f;
        assert(all[before.len() + i] == f);
    } else {
        listed_is_packed(at, entries, (k - 1) as nat, j, f);
        let i = choose|i: int| 0 <= i < before.len() && before[i] == f;
        assert(all[i] == f);
    }
}

proof fn file_names_are_names(node: Node, names: Seq<Seq<char>>)
    requires
        tree_ok(node),
        file_in(node, names) is Some,
    ensures
        forall|k: int|
            0 <= k < names.len() ==> (#[trigger] names[k]).len() > 0 && !names[k].contains('/'),
{
    names_on_the_way(node, names);
    assert forall|k: int| 0 <= k < names.len() implies (#[trigger] names[k]).len() > 0
        && !names[k].contains('/') by {
        assert(is_name(names[k]));
    }
}

/// Whether no two packed files have the same path.
spec fn distinct_paths(files: Seq<(Seq<char>, Seq<u8>)>) -> bool {
    forall|i: int, j: int|
        0 <= i < j < files.len() ==> (#[trigger] files[i]).0 != (#[trigger] files[j]).0
}

proof fn distinct_together(a: Seq<(Seq<char>, Seq<u8>)>, b: Seq<(Seq<char>, Seq<u8>)>)
    requires
        distinct_paths(a),
        distinct_paths(b),
        forall|i: int, j: int|
            0 <= i < a.len() && 0 <= j < b.len() ==> (#[trigger] a[i]).0 != (#[trigger] b[j]).0,
    ensures
        distinct_paths(a + b),
{
    let c = a + b;
    assert forall|i: int, j: int| 0 <= i < j < c.len() implies (#[trigger] c[i]).0 != (
    #[trigger] c[j]).0 by {
        if j < a.len() {
            assert(c[i] == a[i] && c[j] == a[j]);
        } else if i >= a.len() {
            assert(c[i] == b[i - a.len()] && c[j] == b[j - a.len()]);
        } else {
            assert(c[i] == a[i] && c[j] == b[j - a.len()]);
        }
    }
}

proof fn files_at_are_distinct(at: Seq<char>, node: Node)
    requires
        tree_ok(node),
    ensures
        distinct_paths(files_at(at, node)),
    decreases node, 0nat,
{
    if let Node::Dir(entries) = node {
        files_in_are_distinct(at, entries, entries@.len());
    }
}

proof fn files_in_are_distinct(at: Seq<char>, entries: Vec<DirEntry>, k: nat)
    requires
        k <= entries@.len(),
        list_ok(entries, k),
        unique_in(entries, k),
    ensures
        distinct_paths(files_in(at, entries, k)),
    decreases entries, k,
{
    if k > 0 {
        let entry = entries@[k - 1];
        let below = paths::join_of(at, entry.name@);
        let before = files_in(at, entries, (k - 1) as nat);
        let here = files_at(below, entry.node);
        files_in_are_distinct(at, entries, (k - 1) as nat);
        files_at_are_distinct(below, entry.node);
        assert forall|i: int, j: int|
            0 <= i < before.len() && 0 <= j < here.len() implies (#[trigger] before[i]).0 != (
        #[trigger] here[j]).0 by {
            let f = before[i];
            let g = here[j];
            assert(before.contains(f) && here.contains(g));
            files_in_are_placed(at, entries, (k - 1) as nat, f);
            let (e, names) = choose|e: int, names: Seq<Seq<char>>|
                0 <= e < k - 1 && placed_below(at, entries, e, f, names);
            files_at_are_placed(below, entry.node, g);
            let others = choose|others: Seq<Seq<char>>| placed(below, entry.node, g, others);
            listed(entries, k, e);
            listed(entries, k, k - 1);
            path_starts(at, entries@[e].name@, entries@[e].node, f, names);
            path_starts(at, entry.name@, entry.node, g, others);
        }
        distinct_together(before, here);
    }
}

proof fn path_starts(
    at: Seq<char>,
    name: Seq<char>,
    node: Node,
    f: (Seq<char>, Seq<u8>),
    names: Seq<Seq<char>>,
)
    requires
        is_name(name),
        tree_ok(node),
        placed(paths::join_of(at, name), node, f, names),
    ensures
        paths::parts_of(f.0).len() > paths::parts_of(at).len(),
        paths::parts_of(f.0)[paths::parts_of(at).len() as int] == name,
{
    file_names_are_names(node, names);
    paths::under_parts(paths::join_of(at, name), names);
    paths::name_is_its_part(name);
    paths::joined_parts(at, name);
}

/// Whether a packed file comes from the `k`th store: its path leads to it.
spec fn stored(root: Node, k: int, f: (Seq<char>, Seq<u8>), names: Seq<Seq<char>>) -> bool {
    let rel = profile::native_list()[k];
    &&& names.len() > 0
    &&& f.0 == paths::under(rel, names)
    &&& file_in(root, paths::parts_of(rel) + names) == Some(f.1)
}

proof fn stored_parts(root: Node, k: int, f: (Seq<char>, Seq<u8>), names: Seq<Seq<char>>)
    requires
        tree_ok(root),
        0 <= k < 2,
        stored(root, k, f, names),
    ensures
        paths::parts_of(f.0) == paths::parts_of(profile::native_list()[k]) + names,
        forall|i: int| 0 <= i < paths::parts_of(f.0).len() ==> is_name(
            #[trigger] paths::parts_of(f.0)[i],
        ),
{
    let rel = profile::native_list()[k];
    let all = paths::parts_of(rel) + names;
    names_on_the_way(root, all);
    assert forall|i: int| 0 <= i < names.len() implies (#[trigger] names[i]).len() > 0
        && !names[i].contains('/') by {
        assert(all[paths::parts_of(rel).len() + i] == names[i]);
        assert(is_name(all[paths::parts_of(rel).len() + i]));
    }
    paths::under_parts(rel, names);
}

proof fn packed_is_stored(root: Node, n: nat, f: (Seq<char>, Seq<u8>))
    requires
        tree_ok(root),
        n <= 2,
        packed(root, n).contains(f),
    ensures
        exists|k: int, names: Seq<Seq<char>>| 0 <= k < n && stored(root, k, f, names),
    decreases n,
{
    if n > 0 {
        let rel = profile::native_list()[n - 1];
        let before = packed(root, (n - 1) as nat);
        let all = packed(root, n);
        let i = choose|i: int| 0 <= i < all.len() && all[i] == f;
        if i < before.len() {
            assert(before[i] == f);
            packed_is_stored(root, (n - 1) as nat, f);
            let (k, names) = choose|k: int, names: Seq<Seq<char>>|
                0 <= k < n - 1 && stored(root, k, f, names);
            assert(0 <= k < n && stored(root, k, f, names));
        } else {
            let dir = node_of(root, paths::parts_of(rel))->0;
            names_on_the_way(root, paths::parts_of(rel));
            let here = files_at(rel, dir);
            assert(here[i - before.len()] == f);
            assert(here.contains(f));
            files_at_are_placed(rel, dir, f);
            let names = choose|names: Seq<Seq<char>>| placed(rel, dir, f, names);
            node_below(root, paths::parts_of(rel), names);
            assert(stored(root, n - 1, f, names));
        }
    }
}

proof fn stored_is_packed(
    root: Node,
    n: nat,
    k: int,
    f: (Seq<char>, Seq<u8>),
    names: Seq<Seq<char>>,
)
    requires
        0 <= k < n <= 2,
        stored(root, k, f, names),
    ensures
        packed(root, n).contains(f),
    decreases n,
{
    let rel = profile::native_list()[n - 1];
    let before = packed(root, (n - 1) as nat);
    let all = packed(root, n);
    if k == n - 1 {
        node_below(root, paths::parts_of(rel), names);
        let dir = node_of(root, paths::parts_of(rel))->0;
        placed_is_packed(rel, dir, f, names);
        let here = files_at(rel, dir);
        let i = choose|i: int| 0 <= i < here.len() && here[i] == f;
        assert(all[before.len() + i] == f);
    } else {
        stored_is_packed(root, (n - 1) as nat, k, f, names);
        let i = choose|i: int| 0 <= i < before.len() && before[i] == f;
        assert(all[i] == f);
    }
}

proof fn packed_is_distinct(root: Node, n: nat)
    requires
        tree_ok(root),
        n <= 2,
    ensures
        distinct_paths(packed(root, n)),
    decreases n,
{
    if n > 0 {
        let rel = profile::native_list()[n - 1];
        let before = packed(root, (n - 1) as nat);
        packed_is_distinct(root, (n - 1) as nat);
        if let Some(Node::Dir(entries)) = node_of(root, paths::parts_of(rel)) {
            let dir = Node::Dir(entries);
            names_on_the_way(root, paths::parts_of(rel));
            let here = files_at(rel, dir);
            files_at_are_distinct(rel, dir);
            assert forall|i: int, j: int|
                0 <= i < before.len() && 0 <= j < here.len() implies (#[trigger] before[i]).0 != (
            #[trigger] here[j]).0 by {
                let f = before[i];
                let g = here[j];
                assert(before.contains(f) && here.contains(g));
                packed_is_stored(root, (n - 1) as nat, f);
                let (k, names) = choose|k: int, names: Seq<Seq<char>>|
                    0 <= k < n - 1 && stored(root, k, f, names);
                files_at_are_placed(rel, dir, g);
                let others = choose|others: Seq<Seq<char>>| placed(rel, dir, g, others);
                node_below(root, paths::parts_of(rel), others);
                assert(stored(root, n - 1, g, others));
                stored_parts(root, k, f, names);
                stored_parts(root, n - 1, g, others);
                profile::native_store_parts();
                assert(paths::parts_of(f.0)[1] != paths::parts_of(g.0)[1]);
            }
            distinct_together(before, here);
        }
    }
}

/// Packing what was extracted from a packed manifest gives the manifest again,
/// up to the order of its entries. Nothing in it is refused, no two entries go
/// to the same file, and no entry's file is a directory of another's.
pub proof fn extracted_manifest_packs_again(
    root: Node,
    entries: Seq<ManifestEntry>,
    dest: Node,
)
    requires
        tree_ok(root),
        manifest_view(entries) == packed(root, profile::native_list().len()),
        tree_ok(dest),
        holds_extraction(dest, entries),
    ensures
        safe_count(entries) == entries.len(),
        forall|i: int, j: int|
            0 <= i < entries.len() && 0 <= j < entries.len() && i != j ==> !leads_into(
                #[trigger] entries[i],
                #[trigger] entries[j],
            ),
        packed(dest, profile::native_list().len()).to_multiset() == manifest_view(
            entries,
        ).to_multiset(),
{
    let p = packed(root, 2);
    let q = packed(dest, 2);
    profile::native_store_parts();
    packed_manifest_extracts(root, entries);
    packed_is_distinct(root, 2);
    packed_is_distinct(dest, 2);
    assert forall|i: int| 0 <= i < entries.len() implies safe_names((#[trigger] entries[i]).path@)
        == Some(paths::parts_of(entries[i].path@)) && file_in(
        root,
        paths::parts_of(entries[i].path@),
    ) == Some(entries[i].bytes@) by {
        let f = p[i];
        assert(manifest_view(entries)[i] == entries[i]@);
        assert(p.contains(f));
        packed_is_stored(root, 2, f);
        let (k, names) = choose|k: int, names: Seq<Seq<char>>|
            0 <= k < 2 && stored(root, k, f, names);
        stored_parts(root, k, f, names);
        packed_is_safe(entries, i);
    }
    assert forall|i: int, j: int|
        0 <= i < entries.len() && 0 <= j < entries.len() && i != j implies !leads_into(
        #[trigger] entries[i],
        #[trigger] entries[j],
    ) by {
        if leads_into(entries[i], entries[j]) {
            let a = paths::parts_of(entries[i].path@);
            let b = paths::parts_of(entries[j].path@);
            assert(b =~= a + b.skip(a.len() as int));
            node_below(root, a, b.skip(a.len() as int));
            assert(b.skip(a.len() as int).len() == 0);
            assert(a =~= b);
            assert(manifest_view(entries)[i] == entries[i]@);
            assert(manifest_view(entries)[j] == entries[j]@);
            same_parts_same_path(root, p[i], p[j]);
            if i < j {
                assert(p[i].0 != p[j].0);
            } else {
                assert(p[j].0 != p[i].0);
            }
        }
    }
    assert forall|f: (Seq<char>, Seq<u8>)| #[trigger] p.contains(f) implies q.contains(f) by {
        let i = choose|i: int| 0 <= i < p.len() && p[i] == f;
        packed_is_stored(root, 2, f);
        let (k, names) = choose|k: int, names: Seq<Seq<char>>|
            0 <= k < 2 && stored(root, k, f, names);
        stored_parts(root, k, f, names);
        assert(manifest_view(entries)[i] == entries[i]@);
        assert(safe_names(entries[i].path@) == Some(paths::parts_of(f.0)));
        assert(extracted(entries, paths::parts_of(f.0), f.1));
        assert(stored(dest, k, f, names));
        stored_is_packed(dest, 2, k, f, names);
    }
    assert forall|f: (Seq<char>, Seq<u8>)| #[trigger] q.contains(f) implies p.contains(f) by {
        packed_is_stored(dest, 2, f);
        let (k, names) = choose|k: int, names: Seq<Seq<char>>|
            0 <= k < 2 && stored(dest, k, f, names);
        let all = paths::parts_of(profile::native_list()[k]) + names;
        assert(extracted(entries, all, f.1));
        let i = choose|i: int|
            0 <= i < entries.len() && safe_names((#[trigger] entries[i]).path@) == Some(all)
                && entries[i].bytes@ == f.1;
        assert(manifest_view(entries)[i] == entries[i]@);
        let g = p[i];
        assert(p.contains(g));
        packed_is_stored(root, 2, g);
        let (e, others) = choose|e: int, others: Seq<Seq<char>>|
            0 <= e < 2 && stored(root, e, g, others);
        stored_parts(root, e, g, others);
        let theirs = paths::parts_of(profile::native_list()[e]) + others;
        assert(theirs == all);
        assert(theirs[1] == all[1]);
        assert(e == k);
        assert(others =~= theirs.skip(2));
        assert(names =~= all.skip(2));
        assert(g == f);
    }
    same_files(p, q);
}

/// Whether the file of `a` is at the place of `b` or of a directory of it.
pub open spec fn leads_into(a: ManifestEntry, b: ManifestEntry) -> bool {
    let x = paths::parts_of(a.path@);
    let y = paths::parts_of(b.path@);
    x.len() <= y.len() && y.take(x.len() as int) == x
}

proof fn packed_is_safe(entries: Seq<ManifestEntry>, i: int)
    requires
        safe_count(entries) == entries.len(),
        0 <= i < entries.len(),
    ensures
        safe_names(entries[i].path@) is Some,
    decreases entries.len(),
{
    if i > 0 {
        assert(entries.skip(1)[i - 1] == entries[i]);
        packed_is_safe(entries.skip(1), i - 1);
    }
}

proof fn same_parts_same_path(root: Node, f: (Seq<char>, Seq<u8>), g: (Seq<char>, Seq<u8>))
    requires
        tree_ok(root),
        packed(root, 2).contains(f),
        packed(root, 2).contains(g),
        paths::parts_of(f.0) == paths::parts_of(g.0),
    ensures
        f.0 == g.0,
{
    profile::native_store_parts();
    packed_is_stored(root, 2, f);
    packed_is_stored(root, 2, g);
    let (k, names) = choose|k: int, names: Seq<Seq<char>>| 0 <= k < 2 && stored(root, k, f, names);
    let (e, others) = choose|e: int, others: Seq<Seq<char>>|
        0 <= e < 2 && stored(root, e, g, others);
    stored_parts(root, k, f, names);
    stored_parts(root, e, g, others);
    assert(paths::parts_of(f.0)[1] == paths::parts_of(g.0)[1]);
    assert(names =~= paths::parts_of(f.0).skip(2));
    assert(others =~= paths::parts_of(g.0).skip(2));
}

proof fn same_files(p: Seq<(Seq<char>, Seq<u8>)>, q: Seq<(Seq<char>, Seq<u8>)>)
    requires
        distinct_paths(p),
        distinct_paths(q),
        forall|f: (Seq<char>, Seq<u8>)| #[trigger] p.contains(f) ==> q.contains(f),
        forall|f: (Seq<char>, Seq<u8>)| #[trigger] q.contains(f) ==> p.contains(f),
    ensures
        p.to_multiset() == q.to_multiset(),
{
    broadcast use vstd::seq_lib::group_to_multiset_ensures;

    assert(p.no_duplicates()) by {
        assert forall|i: int, j: int| 0 <= i < p.len() && 0 <= j < p.len() && i != j implies p[i]
            != p[j] by {
            if i < j {
                assert(p[i].0 != p[j].0);
            } else {
                assert(p[j].0 != p[i].0);
            }
        }
    }
    assert(q.no_duplicates()) by {
        assert forall|i: int, j: int| 0 <= i < q.len() && 0 <= j < q.len() && i != j implies q[i]
            != q[j] by {
            if i < j {
                assert(q[i].0 != q[j].0);
            } else {
                assert(q[j].0 != q[i].0);
            }
        }
    }
    p.lemma_multiset_has_no_duplicates();
    q.lemma_multiset_has_no_duplicates();
    assert forall|f: (Seq<char>, Seq<u8>)| #[trigger]
        p.to_multiset().count(f) == q.to_multiset().count(f) by {
        assert(p.contains(f) <==> q.contains(f));
        assert(p.to_multiset().contains(f) <==> p.contains(f));
        assert(q.to_multiset().contains(f) <==> q.contains(f));
    }
    assert(p.to_multiset() =~= q.to_multiset());
}

} // verus!
