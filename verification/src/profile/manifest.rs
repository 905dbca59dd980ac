//! Flat file manifest for the profile native layer, and its hardened extractor.
//!
//! The IndexedDB/service-worker stores move between the gateway and browserserve
//! as a list of `{ relative path, bytes }` regular-file entries, never a tar. A
//! manifest of regular files cannot even express a symlink or traversal entry,
//! and [`extract_into`] re-validates every path against the destination root.

use crate::paths;
use crate::profile;
use crate::text;
use vstd::prelude::*;

verus! {

/// One regular file in a native-layer manifest. `path` is destination-relative
/// and forward-slash separated; it is validated on extraction.
#[derive(Debug, Clone, PartialEq, Eq)]
pub struct ManifestEntry {
    /// Destination-relative path (no leading `/`, no `..`).
    pub path: String,
    /// File contents.
    pub bytes: Vec<u8>,
}

impl View for ManifestEntry {
    type V = (Seq<char>, Seq<u8>);

    open spec fn view(&self) -> (Seq<char>, Seq<u8>) {
        (self.path@, self.bytes@)
    }
}

/// The entries of a manifest, as they are stated.
pub open spec fn manifest_view(entries: Seq<ManifestEntry>) -> Seq<(Seq<char>, Seq<u8>)> {
    Seq::new(entries.len(), |i: int| entries[i]@)
}

/// Error from extracting a manifest.
#[derive(Debug, PartialEq, Eq)]
pub enum ExtractError {
    /// A manifest path was absolute, escaped the root, or was otherwise unsafe.
    UnsafePath(String),
    /// An I/O error while writing the manifest.
    Io(String),
}

impl ExtractError {
    /// What the error says; a rejected path is quoted.
    pub open spec fn says(self) -> Seq<char> {
        match self {
            ExtractError::UnsafePath(path) => "unsafe manifest path rejected: "@ + text::debug_text(
                path@,
            ),
            ExtractError::Io(e) => e@,
        }
    }

    /// The error as text.
    pub fn message(&self) -> (r: String)
        ensures
            r@ == self.says(),
    {
        match self {
            ExtractError::UnsafePath(path) => {
                let mut s = "unsafe manifest path rejected: ".to_owned();
                s.append(text::debug(path.as_str()).as_str());
                s
            },
            ExtractError::Io(e) => e.clone(),
        }
    }
}

/// What is found at a place in a directory tree.
#[derive(Debug)]
pub enum Node {
    /// A directory and what is in it.
    Dir(Vec<DirEntry>),
    /// A regular file and its contents.
    File(Vec<u8>),
    /// A symlink or another node type, which is not followed.
    Other,
}

/// One name in a directory.
#[derive(Debug)]
pub struct DirEntry {
    /// The name.
    pub name: String,
    /// What it names.
    pub node: Node,
}

/// The regular files at and below a node, with their paths below `at`.
pub open spec fn files_at(at: Seq<char>, node: Node) -> Seq<(Seq<char>, Seq<u8>)>
    decreases node, 0nat,
{
    match node {
        Node::Dir(entries) => files_in(at, entries, entries@.len()),
        Node::File(bytes) => seq![(at, bytes@)],
        Node::Other => Seq::empty(),
    }
}

/// The regular files below the first `k` entries of a directory at `at`.
pub open spec fn files_in(at: Seq<char>, entries: Vec<DirEntry>, k: nat) -> Seq<
    (Seq<char>, Seq<u8>),
>
    decreases entries, k,
{
    if k == 0 || k > entries@.len() {
        Seq::empty()
    } else {
        let entry = entries@[k - 1];
        files_in(at, entries, (k - 1) as nat) + files_at(paths::join_of(at, entry.name@), entry.node)
    }
}

/// What the name stands for in a directory: its first entry of that name.
pub open spec fn entry_of(entries: Seq<DirEntry>, name: Seq<char>) -> Option<Node>
    decreases entries.len(),
{
    if entries.len() == 0 {
        None
    } else if entries[0].name@ == name {
        Some(entries[0].node)
    } else {
        entry_of(entries.skip(1), name)
    }
}

/// What stands at a path below a node.
pub open spec fn node_of(node: Node, names: Seq<Seq<char>>) -> Option<Node>
    decreases names.len(),
{
    if names.len() == 0 {
        Some(node)
    } else {
        match node {
            Node::Dir(entries) => match entry_of(entries@, names[0]) {
                Some(inner) => node_of(inner, names.skip(1)),
                None => None,
            },
            _ => None,
        }
    }
}

/// The files of the first `n` native stores that are directories.
pub open spec fn packed(root: Node, n: nat) -> Seq<(Seq<char>, Seq<u8>)>
    decreases n,
{
    if n == 0 {
        Seq::empty()
    } else {
        let rel = profile::native_list()[n - 1];
        let before = packed(root, (n - 1) as nat);
        match node_of(root, paths::parts_of(rel)) {
            Some(Node::Dir(entries)) => before + files_in(rel, entries, entries@.len()),
            _ => before,
        }
    }
}

fn lookup<'a>(root: &'a Node, names: &Vec<String>) -> (r: Option<&'a Node>)
    ensures
        r is Some <==> node_of(*root, text::views(names@)) is Some,
        r matches Some(n) ==> node_of(*root, text::views(names@)) == Some(*n),
{
    let ghost all = text::views(names@);
    let mut node: &'a Node = root;
    let mut i: usize = 0;
    assert(all.skip(0) =~= all);
    while i < names.len()
        invariant
            i <= names@.len(),
            all == text::views(names@),
            node_of(*node, all.skip(i as int)) == node_of(*root, all),
        decreases names.len() - i,
    {
        let ghost rest = all.skip(i as int);
        assert(rest[0] == names@[i as int]@);
        assert(rest.skip(1) =~= all.skip(i + 1));
        let entries: &'a Vec<DirEntry> = match node {
            Node::Dir(entries) => entries,
            _ => {
                return None;
            },
        };
        let mut k: usize = 0;
        assert(entries@.skip(0) =~= entries@);
        while k < entries.len() && !text::same(entries[k].name.as_str(), names[i].as_str())
            invariant
                k <= entries@.len(),
                i < names@.len(),
                entry_of(entries@.skip(k as int), names@[i as int]@) == entry_of(
                    entries@,
                    names@[i as int]@,
                ),
            decreases entries.len() - k,
        {
            assert(entries@.skip(k as int)[0] == entries@[k as int]);
            assert(entries@.skip(k as int).skip(1) =~= entries@.skip(k + 1));
            k += 1;
        }
        if k == entries.len() {
            return None;
        }
        assert(entries@.skip(k as int)[0] == entries@[k as int]);
        node = &entries[k].node;
        i += 1;
    }
    assert(all.skip(i as int) =~= Seq::empty());
    Some(node)
}

fn copy_bytes(bytes: &Vec<u8>) -> (r: Vec<u8>)
    ensures
        r@ == bytes@,
{
    let mut out: Vec<u8> = Vec::new();
    out.extend_from_slice(bytes.as_slice());
    assert(out@ =~= bytes@);
    out
}

/// Appends the regular files below a directory at `at`.
fn pack_walk(at: &str, entries: &Vec<DirEntry>, out: &mut Vec<ManifestEntry>)
    ensures
        manifest_view(final(out)@) == manifest_view(old(out)@) + files_in(
            at@,
            *entries,
            entries@.len(),
        ),
    decreases entries,
{
    let ghost before = manifest_view(out@);
    let mut i: usize = 0;
    assert(manifest_view(out@) =~= before + files_in(at@, *entries, 0));
    while i < entries.len()
        invariant
            i <= entries@.len(),
            before == manifest_view(old(out)@),
            manifest_view(out@) == before + files_in(at@, *entries, i as nat),
        decreases entries.len() - i,
    {
        let ghost so_far = manifest_view(out@);
        let path = paths::join(at, entries[i].name.as_str());
        let ghost rel = path@;
        assert(decreases_to!(*entries => entries@));
        assert(decreases_to!(entries@ => entries@[i as int]));
        match &entries[i].node {
            Node::Dir(inner) => {
                assert(decreases_to!(entries@[i as int] => entries@[i as int].node));
                assert(decreases_to!(entries@[i as int].node => *inner));
                pack_walk(path.as_str(), inner, out);
            },
            Node::File(bytes) => {
                let ghost list = out@;
                out.push(ManifestEntry { path, bytes: copy_bytes(bytes) });
                assert(manifest_view(out@) =~= manifest_view(list) + seq![(rel, bytes@)]);
            },
            Node::Other => {
                assert(manifest_view(out@) =~= so_far + Seq::empty());
            },
        }
        assert(manifest_view(out@) =~= so_far + files_at(rel, entries@[i as int].node));
        assert(manifest_view(out@) =~= before + files_in(at@, *entries, (i + 1) as nat));
        i += 1;
    }
}

/// Collects the native-layer stores under `root` (`Default/IndexedDB`,
/// `Default/Service Worker`) into a manifest, paths relative to `root`.
/// Symlinks are skipped. Must run only after the browser process tree is dead.
pub fn pack_native(root: &Node) -> (r: Vec<ManifestEntry>)
    ensures
        manifest_view(r@) == packed(*root, profile::native_list().len()),
{
    let stores = profile::native_stores();
    let mut out: Vec<ManifestEntry> = Vec::new();
    let mut i: usize = 0;
    assert(manifest_view(out@) =~= packed(*root, 0));
    while i < stores.len()
        invariant
            i <= stores@.len(),
            text::views(stores@) == profile::native_list(),
            manifest_view(out@) == packed(*root, i as nat),
        decreases stores.len() - i,
    {
        assert(profile::native_list()[i as int] == stores@[i as int]@) by {
            assert(text::views(stores@)[i as int] == stores@[i as int]@);
        }
        let names = paths::parts(stores[i].as_str());
        if let Some(Node::Dir(entries)) = lookup(root, &names) {
            pack_walk(stores[i].as_str(), entries, &mut out);
        }
        i += 1;
    }
    assert(stores@.len() == text::views(stores@).len());
    out
}

/// Whether a path part is an ordinary name.
pub open spec fn is_name(part: Seq<char>) -> bool {
    part.len() > 0 && !part.contains('/') && part != "."@ && part != ".."@
}

/// The names of a relative path that has only ordinary ones, and at least one.
pub open spec fn safe_names(rel: Seq<char>) -> Option<Seq<Seq<char>>> {
    let names = paths::parts_of(rel);
    if !paths::is_absolute(rel) && names.len() > 0 && (forall|k: int|
        0 <= k < names.len() ==> is_name(#[trigger] names[k])) {
        Some(names)
    } else {
        None
    }
}

/// Joins a relative manifest path under `root`, allowing ONLY normal path
/// components. Absolute paths, `..` and `.` are rejected, so the result can
/// never escape `root`. Returns the file's path and that of its directory.
pub fn safe_join(root: &str, rel: &str) -> (r: Option<(String, String)>)
    ensures
        r is Some <==> safe_names(rel@) is Some,
        r matches Some((path, dir)) ==> path@ == paths::under(root@, safe_names(rel@)->0) && dir@
            == paths::under(root@, safe_names(rel@)->0.drop_last()),
        r matches Some((path, dir)) ==> text::has_prefix(path@, root@) && text::has_prefix(
            dir@,
            root@,
        ),
{
    if text::starts_with_char(rel, '/') {
        return None;
    }
    let names = paths::parts(rel);
    let ghost all = text::views(names@);
    if names.len() == 0 {
        assert(all.len() == 0);
        return None;
    }
    let mut i: usize = 0;
    while i < names.len()
        invariant
            i <= names@.len(),
            all == text::views(names@),
            all == paths::parts_of(rel@),
            forall|k: int| 0 <= k < i ==> is_name(#[trigger] all[k]),
        decreases names.len() - i,
    {
        assert(all[i as int] == names@[i as int]@);
        if text::same(names[i].as_str(), ".") || text::same(names[i].as_str(), "..") {
            assert(!is_name(all[i as int]));
            return None;
        }
        proof {
            paths::parts_are_names(rel@, i as int);
        }
        i += 1;
    }
    proof {
        assert(safe_names(rel@) == Some(all));
        assert(all.take(names@.len() as int) =~= all);
        assert(all.take(names@.len() - 1) =~= all.drop_last());
        assert forall|k: int| 0 <= k < all.len() implies (#[trigger] all[k]).len() > 0
            && !all[k].contains('/') by {
            assert(is_name(all[k]));
        }
        paths::under_stays_below(root@, all);
        let upper = all.drop_last();
        assert forall|k: int| 0 <= k < upper.len() implies (#[trigger] upper[k]).len() > 0
            && !upper[k].contains('/') by {
            assert(upper[k] == all[k]);
        }
        paths::under_stays_below(root@, upper);
    }
    let path = paths::join_all(root, &names, names.len());
    let dir = paths::join_all(root, &names, names.len() - 1);
    Some((path, dir))
}

/// One file to be written.
#[derive(Debug)]
pub struct FileTarget {
    /// The directory to be created for it.
    pub dir: String,
    /// Where it goes: created anew, never followed, never clobbered.
    pub path: String,
    /// Which manifest entry holds its contents.
    pub entry: usize,
}

impl FileTarget {
    /// Whether this is where the entry at `index` goes under `root`: below the
    /// root, at the names of its path.
    pub open spec fn holds(self, entry: ManifestEntry, index: int, root: Seq<char>) -> bool {
        &&& safe_names(entry.path@) matches Some(names) && self.path@ == paths::under(root, names)
            && self.dir@ == paths::under(root, names.drop_last())
        &&& self.entry == index
        &&& text::has_prefix(self.path@, root)
    }
}

/// The files to be written, in order, and what extraction returns once they
/// are.
#[derive(Debug)]
pub struct Extraction {
    /// The files to be written.
    pub writes: Vec<FileTarget>,
    /// How many they are, or the first unsafe path, behind which nothing
    /// further is written.
    pub outcome: Result<usize, ExtractError>,
}

/// How many entries stand in front of the first unsafe path, or in all.
pub open spec fn safe_count(entries: Seq<ManifestEntry>) -> int
    decreases entries.len(),
{
    if entries.len() == 0 || safe_names(entries[0].path@) is None {
        0
    } else {
        1 + safe_count(entries.skip(1))
    }
}

/// Plans the writing of each manifest entry under `dest_root`, rejecting any
/// path that is absolute, contains `..`/`.`, or would otherwise escape the
/// root.
pub fn extract_into(entries: &Vec<ManifestEntry>, dest_root: &str) -> (r: Extraction)
    ensures
        r.writes@.len() == safe_count(entries@),
        forall|i: int|
            0 <= i < r.writes@.len() ==> (#[trigger] r.writes@[i]).holds(
                entries@[i],
                i,
                dest_root@,
            ),
        safe_count(entries@) == entries@.len() ==> r.outcome == Ok::<usize, ExtractError>(
            entries.len(),
        ),
        safe_count(entries@) < entries@.len() ==> r.outcome == Err::<usize, ExtractError>(
            ExtractError::UnsafePath(entries@[safe_count(entries@)].path),
        ),
{
    let mut writes: Vec<FileTarget> = Vec::new();
    let mut i: usize = 0;
    assert(entries@.skip(0) =~= entries@);
    while i < entries.len()
        invariant
            i <= entries@.len(),
            writes@.len() == i,
            i + safe_count(entries@.skip(i as int)) == safe_count(entries@),
            forall|k: int|
                0 <= k < i ==> (#[trigger] writes@[k]).holds(entries@[k], k, dest_root@),
        decreases entries.len() - i,
    {
        assert(entries@.skip(i as int)[0] == entries@[i as int]);
        assert(entries@.skip(i as int).skip(1) =~= entries@.skip(i + 1));
        match safe_join(dest_root, entries[i].path.as_str()) {
            None => {
                return Extraction {
                    writes,
                    outcome: Err(ExtractError::UnsafePath(entries[i].path.clone())),
                };
            },
            Some((path, dir)) => {
                writes.push(FileTarget { dir, path, entry: i });
            },
        }
        i += 1;
    }
    let count: usize = writes.len();
    Extraction { writes, outcome: Ok(count) }
}

/// Whether a tree's names are ordinary ones.
pub open spec fn names_ok(node: Node) -> bool
    decreases node, 0nat,
{
    match node {
        Node::Dir(entries) => list_ok(entries, entries@.len()),
        _ => true,
    }
}

/// Whether the first `k` names of a directory, and all below, are ordinary.
pub open spec fn list_ok(entries: Vec<DirEntry>, k: nat) -> bool
    decreases entries, k,
{
    if k == 0 || k > entries@.len() {
        true
    } else {
        &&& list_ok(entries, (k - 1) as nat)
        &&& is_name(entries@[k - 1].name@)
        &&& names_ok(entries@[k - 1].node)
    }
}

/// Whether a path can be extracted and does not end in a separator.
pub open spec fn fits(path: Seq<char>) -> bool {
    safe_names(path) is Some && path.len() > 0 && path.last() != '/'
}

proof fn join_fits(at: Seq<char>, name: Seq<char>)
    requires
        fits(at),
        is_name(name),
    ensures
        fits(paths::join_of(at, name)),
{
    reveal_strlit("/");
    paths::name_is_its_part(name);
    paths::joined_parts(at, name);
    assert(paths::parts_of(at) + seq![name] =~= paths::parts_of(at).push(name));
    assert(name[0] != '/') by {
        if name[0] == '/' {
            assert(name.contains('/'));
        }
    }
    let whole = paths::join_of(at, name);
    assert(whole == at + "/"@ + name);
    assert(whole.last() == name.last());
    assert(name.last() != '/') by {
        if name.last() == '/' {
            assert(name[name.len() - 1] == '/');
            assert(name.contains('/'));
        }
    }
    assert(whole[0] == at[0]);
    let names = paths::parts_of(whole);
    assert forall|k: int| 0 <= k < names.len() implies is_name(#[trigger] names[k]) by {
        if k < names.len() - 1 {
            assert(names[k] == paths::parts_of(at)[k]);
        }
    }
}

/// Whether every path of a manifest can be extracted.
pub open spec fn all_fit(files: Seq<(Seq<char>, Seq<u8>)>) -> bool {
    forall|i: int| 0 <= i < files.len() ==> fits((#[trigger] files[i]).0)
}

proof fn both_fit(a: Seq<(Seq<char>, Seq<u8>)>, b: Seq<(Seq<char>, Seq<u8>)>)
    requires
        all_fit(a),
        all_fit(b),
    ensures
        all_fit(a + b),
{
    let c = a + b;
    assert forall|i: int| 0 <= i < c.len() implies fits((#[trigger] c[i]).0) by {
        if i < a.len() {
            assert(c[i] == a[i]);
        } else {
            assert(c[i] == b[i - a.len()]);
        }
    }
}

proof fn files_at_fit(at: Seq<char>, node: Node)
    requires
        fits(at),
        names_ok(node),
    ensures
        all_fit(files_at(at, node)),
    decreases node, 0nat,
{
    match node {
        Node::Dir(entries) => {
            files_in_fit(at, entries, entries@.len());
            assert(files_at(at, node) == files_in(at, entries, entries@.len()));
        },
        Node::File(bytes) => {
            assert(files_at(at, node) =~= seq![(at, bytes@)]);
        },
        Node::Other => {},
    }
}

proof fn files_in_fit(at: Seq<char>, entries: Vec<DirEntry>, k: nat)
    requires
        fits(at),
        list_ok(entries, k),
    ensures
        all_fit(files_in(at, entries, k)),
    decreases entries, k,
{
    if 0 < k <= entries@.len() {
        files_in_fit(at, entries, (k - 1) as nat);
        let entry = entries@[k - 1];
        join_fits(at, entry.name@);
        files_at_fit(paths::join_of(at, entry.name@), entry.node);
        both_fit(
            files_in(at, entries, (k - 1) as nat),
            files_at(paths::join_of(at, entry.name@), entry.node),
        );
    }
}

proof fn stores_fit()
    ensures
        fits("Default/IndexedDB"@),
        fits("Default/Service Worker"@),
{
    reveal_strlit("Default/IndexedDB");
    reveal_strlit("Default/Service Worker");
    reveal_strlit("Default");
    reveal_strlit("IndexedDB");
    reveal_strlit("Service Worker");
    reveal_strlit("/");
    reveal_strlit(".");
    reveal_strlit("..");
    let d = "Default"@;
    let p = text::notp('/');
    assert forall|i: int| 0 <= i < d.len() implies p(#[trigger] d[i]) by {}
    text::run_len_is(d, p, d.len() as int);
    assert(d.take(d.len() as int) =~= d);
    assert(paths::parts_of(d) =~= seq![d]);
    assert(is_name(d));
    assert(fits(d));
    assert(is_name("IndexedDB"@));
    assert(is_name("Service Worker"@));
    join_fits(d, "IndexedDB"@);
    join_fits(d, "Service Worker"@);
    assert("Default/IndexedDB"@ =~= d + "/"@ + "IndexedDB"@);
    assert("Default/Service Worker"@ =~= d + "/"@ + "Service Worker"@);
}

proof fn found_ok(root: Node, names: Seq<Seq<char>>)
    requires
        names_ok(root),
    ensures
        node_of(root, names) matches Some(n) ==> names_ok(n),
    decreases names.len(),
{
    if names.len() > 0 {
        if let Node::Dir(entries) = root {
            entry_ok(entries, 0, names[0]);
            assert(entries@.skip(0) =~= entries@);
            if let Some(inner) = entry_of(entries@, names[0]) {
                found_ok(inner, names.skip(1));
            }
        }
    }
}

proof fn entry_ok(entries: Vec<DirEntry>, from: nat, name: Seq<char>)
    requires
        from <= entries@.len(),
        list_ok(entries, entries@.len()),
    ensures
        entry_of(entries@.skip(from as int), name) matches Some(n) ==> names_ok(n),
    decreases entries@.len() - from,
{
    let rest = entries@.skip(from as int);
    if from < entries@.len() {
        assert(rest[0] == entries@[from as int]);
        assert(rest.skip(1) =~= entries@.skip(from as int + 1));
        list_prefix_ok(entries, from + 1);
        entry_ok(entries, from + 1, name);
    }
}

proof fn list_prefix_ok(entries: Vec<DirEntry>, k: nat)
    requires
        k <= entries@.len(),
        list_ok(entries, entries@.len()),
    ensures
        list_ok(entries, k),
    decreases entries@.len() - k,
{
    if k < entries@.len() {
        list_prefix_ok(entries, k + 1);
    }
}

proof fn packed_fits(root: Node, n: nat)
    requires
        names_ok(root),
        n <= profile::native_list().len(),
    ensures
        all_fit(packed(root, n)),
    decreases n,
{
    if n > 0 {
        packed_fits(root, (n - 1) as nat);
        stores_fit();
        let rel = profile::native_list()[n - 1];
        found_ok(root, paths::parts_of(rel));
        if let Some(Node::Dir(entries)) = node_of(root, paths::parts_of(rel)) {
            files_in_fit(rel, entries, entries@.len());
            both_fit(packed(root, (n - 1) as nat), files_in(rel, entries, entries@.len()));
        }
    }
}

proof fn all_safe_counts(entries: Seq<ManifestEntry>)
    requires
        forall|i: int|
            0 <= i < entries.len() ==> safe_names((#[trigger] entries[i]).path@) is Some,
    ensures
        safe_count(entries) == entries.len(),
    decreases entries.len(),
{
    if entries.len() > 0 {
        let t = entries.skip(1);
        assert forall|i: int| 0 <= i < t.len() implies safe_names((#[trigger] t[i]).path@) is Some by {
            assert(t[i] == entries[i + 1]);
        }
        all_safe_counts(t);
    }
}

/// What is packed can be extracted: the manifest of a directory tree has no
/// path that extraction rejects.
pub proof fn packed_manifest_extracts(root: Node, entries: Seq<ManifestEntry>)
    requires
        names_ok(root),
        manifest_view(entries) == packed(root, profile::native_list().len()),
    ensures
        safe_count(entries) == entries.len(),
{
    packed_fits(root, profile::native_list().len());
    assert forall|i: int| 0 <= i < entries.len() implies safe_names(
        (#[trigger] entries[i]).path@,
    ) is Some by {
        assert(manifest_view(entries)[i] == entries[i]@);
        assert(fits(packed(root, profile::native_list().len())[i].0));
    }
    all_safe_counts(entries);
}

/// A path with a `..` part, a `.` part or a leading separator is never
/// written, nor is one without any name.
pub proof fn unsafe_paths_are_rejected(rel: Seq<char>, k: int)
    requires
        paths::is_absolute(rel) || paths::parts_of(rel).len() == 0 || (0 <= k < paths::parts_of(
            rel,
        ).len() && (paths::parts_of(rel)[k] == ".."@ || paths::parts_of(rel)[k] == "."@)),
    ensures
        safe_names(rel) is None,
{
    if 0 <= k < paths::parts_of(rel).len() && (paths::parts_of(rel)[k] == ".."@ || paths::parts_of(
        rel,
    )[k] == "."@) {
        assert(!is_name(paths::parts_of(rel)[k]));
    }
}

} // verus!
