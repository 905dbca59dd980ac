//! What becomes of a profile's files and values on their way in and out.

use crate::encoding;
use crate::factory::{CgroupPlan, ChromeFactory};
use crate::json;
use crate::json::JsonView;
use crate::paths;
use crate::profile;
use crate::profile::cdp::OriginState;
use crate::profile::cookie::Cookie;
use crate::profile::manifest;
use crate::profile::manifest::{DirEntry, FileTarget, ManifestEntry, Node};
use crate::profile::payload;
use crate::session_dirs;
use crate::template;
use crate::template::{PathKind, Remove};
use crate::text;
use vstd::prelude::*;

verus! {

/// The origin of a cookie is its host behind `https://`, without the dots in
/// front of it; a domain of dots alone has none.
pub proof fn cookie_origin_is_its_host(dots: nat, host: Seq<char>)
    requires
        host.len() > 0 ==> host[0] != '.',
    ensures
        payload::cookie_origin(Seq::new(dots, |i: int| '.') + host) == (if host.len() > 0 {
            Some("https://"@ + host)
        } else {
            None
        }),
{
    let front = Seq::new(dots, |i: int| '.');
    let whole = front + host;
    let p = text::isp('.');
    assert forall|i: int| 0 <= i < dots implies p(#[trigger] whole[i]) by {
        assert(whole[i] == front[i]);
    }
    if host.len() > 0 {
        assert(whole[dots as int] == host[0]);
    }
    text::run_len_is(whole, p, dots as int);
    assert(text::drop_front(whole, p) =~= host);
}

/// The candidates are the injected origins, in their order, and behind them
/// origins of the cookies and nothing else.
pub proof fn candidates_come_from_the_payload(
    origins: Seq<Seq<char>>,
    cookies: Seq<Cookie>,
    i: int,
)
    requires
        0 <= i < payload::with_cookie_origins(origins, cookies).len(),
    ensures
        payload::with_cookie_origins(origins, cookies).len() >= origins.len(),
        i < origins.len() ==> payload::with_cookie_origins(origins, cookies)[i] == origins[i],
        i >= origins.len() ==> exists|k: int|
            0 <= k < cookies.len() && payload::cookie_origin((#[trigger] cookies[k]).domain@)
                == Some(payload::with_cookie_origins(origins, cookies)[i]),
    decreases cookies.len(),
{
    if cookies.len() > 0 {
        let front = cookies.drop_last();
        let before = payload::with_cookie_origins(origins, front);
        if before.len() > 0 {
            candidates_come_from_the_payload(
                origins,
                front,
                if i < before.len() {
                    i
                } else {
                    0
                },
            );
        } else {
            no_fewer_candidates(origins, front);
        }
        if i < before.len() {
            if i >= origins.len() {
                let k = choose|k: int|
                    0 <= k < front.len() && payload::cookie_origin((#[trigger] front[k]).domain@)
                        == Some(before[i]);
                assert(cookies[k] == front[k]);
            }
        } else {
            assert(cookies[cookies.len() - 1] == cookies.last());
        }
    }
}

proof fn no_fewer_candidates(origins: Seq<Seq<char>>, cookies: Seq<Cookie>)
    ensures
        payload::with_cookie_origins(origins, cookies).len() >= origins.len(),
    decreases cookies.len(),
{
    if cookies.len() > 0 {
        no_fewer_candidates(origins, cookies.drop_last());
    }
}

/// A file in a directory is packed with its contents, under its own name; a
/// directory in it gives what is below it.
pub proof fn every_file_is_packed(at: Seq<char>, entries: Vec<DirEntry>, n: nat, k: int)
    requires
        0 <= k < n <= entries@.len(),
    ensures
        entries@[k].node matches Node::File(bytes) ==> manifest::files_in(
            at,
            entries,
            n,
        ).contains((paths::join_of(at, entries@[k].name@), bytes@)),
        entries@[k].node matches Node::Dir(inner) ==> forall|f: (Seq<char>, Seq<u8>)| #[trigger]
            manifest::files_in(
                paths::join_of(at, entries@[k].name@),
                inner,
                inner@.len(),
            ).contains(f) ==> manifest::files_in(at, entries, n).contains(f),
    decreases n,
{
    let all = manifest::files_in(at, entries, n);
    let before = manifest::files_in(at, entries, (n - 1) as nat);
    let last = entries@[n - 1];
    let here = manifest::files_at(paths::join_of(at, last.name@), last.node);
    assert(all == before + here);
    assert forall|f: (Seq<char>, Seq<u8>)| before.contains(f) implies all.contains(f) by {
        let i = choose|i: int| 0 <= i < before.len() && before[i] == f;
        assert(all[i] == f);
    }
    assert forall|f: (Seq<char>, Seq<u8>)| here.contains(f) implies all.contains(f) by {
        let i = choose|i: int| 0 <= i < here.len() && here[i] == f;
        assert(all[before.len() + i] == f);
    }
    if k < n - 1 {
        every_file_is_packed(at, entries, (n - 1) as nat, k);
    } else if let Node::File(bytes) = last.node {
        assert(here[0] == (paths::join_of(at, last.name@), bytes@));
        assert(here.contains((paths::join_of(at, last.name@), bytes@)));
    }
}

/// Nothing is packed but regular files: what is packed of a directory is one of
/// its files, or stands below one of its directories.
pub proof fn only_files_are_packed(
    at: Seq<char>,
    entries: Vec<DirEntry>,
    n: nat,
    f: (Seq<char>, Seq<u8>),
)
    requires
        manifest::files_in(at, entries, n).contains(f),
    ensures
        exists|k: int|
            0 <= k < n <= entries@.len() && (match (#[trigger] entries@[k]).node {
                Node::File(bytes) => f == (paths::join_of(at, entries@[k].name@), bytes@),
                Node::Dir(inner) => manifest::files_in(
                    paths::join_of(at, entries@[k].name@),
                    inner,
                    inner@.len(),
                ).contains(f),
                Node::Other => false,
            }),
    decreases n,
{
    let all = manifest::files_in(at, entries, n);
    let i = choose|i: int| 0 <= i < all.len() && all[i] == f;
    let before = manifest::files_in(at, entries, (n - 1) as nat);
    let last = entries@[n - 1];
    let here = manifest::files_at(paths::join_of(at, last.name@), last.node);
    assert(all == before + here);
    if i < before.len() {
        assert(before[i] == f);
        only_files_are_packed(at, entries, (n - 1) as nat, f);
    } else {
        assert(here[i - before.len()] == f);
        assert(here.contains(f));
    }
}

/// The native layer is the files of the `IndexedDB` store and behind them those
/// of the service workers; a store that is no directory has none.
pub proof fn both_native_stores_are_packed(root: Node)
    ensures
        ({
            let all = manifest::packed(root, profile::native_list().len());
            let first = manifest::node_of(root, seq!["Default"@, "IndexedDB"@]);
            let second = manifest::node_of(root, seq!["Default"@, "Service Worker"@]);
            all == (match first {
                Some(Node::Dir(e)) => manifest::files_in("Default/IndexedDB"@, e, e@.len()),
                _ => Seq::empty(),
            }) + (match second {
                Some(Node::Dir(e)) => manifest::files_in("Default/Service Worker"@, e, e@.len()),
                _ => Seq::empty(),
            })
        }),
{
    profile::native_store_parts();
    let none = manifest::packed(root, 0);
    let one = manifest::packed(root, 1);
    let two = manifest::packed(root, 2);
    assert(none =~= Seq::empty());
    let first = match manifest::node_of(root, seq!["Default"@, "IndexedDB"@]) {
        Some(Node::Dir(e)) => manifest::files_in("Default/IndexedDB"@, e, e@.len()),
        _ => Seq::empty(),
    };
    let second = match manifest::node_of(root, seq!["Default"@, "Service Worker"@]) {
        Some(Node::Dir(e)) => manifest::files_in("Default/Service Worker"@, e, e@.len()),
        _ => Seq::empty(),
    };
    assert(one =~= first);
    assert(two =~= first + second);
}

/// A name leads to the first entry that has it.
pub proof fn name_leads_to_its_entry(entries: Seq<DirEntry>, k: int, name: Seq<char>)
    requires
        0 <= k <= entries.len(),
        forall|j: int| 0 <= j < k ==> (#[trigger] entries[j]).name@ != name,
        k < entries.len() ==> entries[k].name@ == name,
    ensures
        manifest::entry_of(entries, name) == (if k < entries.len() {
            Some(entries[k].node)
        } else {
            None
        }),
    decreases k,
{
    if k > 0 {
        let rest = entries.skip(1);
        assert(entries[0].name@ != name);
        assert forall|j: int| 0 <= j < k - 1 implies (#[trigger] rest[j]).name@ != name by {
            assert(rest[j] == entries[j + 1]);
        }
        if k < entries.len() {
            assert(rest[k - 1] == entries[k]);
        }
        name_leads_to_its_entry(rest, k - 1, name);
    }
}

/// A path made of ordinary names is accepted, and leads to those names.
pub proof fn ordinary_paths_are_accepted(names: Seq<Seq<char>>)
    requires
        names.len() > 0,
        forall|k: int|
            0 <= k < names.len() ==> (#[trigger] names[k]).len() > 0 && !names[k].contains('/')
                && names[k] != "."@ && names[k] != ".."@,
    ensures
        manifest::safe_names(paths::under(Seq::empty(), names)) == Some(names),
{
    let none = Seq::<char>::empty();
    paths::under_parts(none, names);
    assert(paths::parts_of(none) + names =~= names);
    relative_names_stay_relative(names);
    assert forall|k: int| 0 <= k < names.len() implies manifest::is_name(#[trigger] names[k]) by {}
}

proof fn relative_names_stay_relative(names: Seq<Seq<char>>)
    requires
        names.len() > 0,
        forall|k: int|
            0 <= k < names.len() ==> (#[trigger] names[k]).len() > 0 && !names[k].contains('/'),
    ensures
        !paths::is_absolute(paths::under(Seq::empty(), names)),
        paths::under(Seq::empty(), names).len() > 0,
    decreases names.len(),
{
    let none = Seq::<char>::empty();
    let front = names.drop_last();
    let last = names[names.len() - 1];
    paths::name_is_its_part(last);
    if front.len() > 0 {
        assert forall|k: int| 0 <= k < front.len() implies (#[trigger] front[k]).len() > 0
            && !front[k].contains('/') by {
            assert(front[k] == names[k]);
        }
        relative_names_stay_relative(front);
    } else {
        assert(paths::under(none, front) == none);
    }
}

/// What is accepted of a manifest ends at its first unsafe path, and nowhere
/// before.
pub proof fn extraction_stops_at_the_first_unsafe_path(entries: Seq<ManifestEntry>, k: int)
    requires
        0 <= k <= entries.len(),
        forall|j: int| 0 <= j < k ==> manifest::safe_names((#[trigger] entries[j]).path@) is Some,
        k < entries.len() ==> manifest::safe_names(entries[k].path@) is None,
    ensures
        manifest::safe_count(entries) == k,
    decreases k,
{
    if k > 0 {
        let rest = entries.skip(1);
        assert(manifest::safe_names(entries[0].path@) is Some);
        assert forall|j: int| 0 <= j < k - 1 implies manifest::safe_names(
            (#[trigger] rest[j]).path@,
        ) is Some by {
            assert(rest[j] == entries[j + 1]);
        }
        if k < entries.len() {
            assert(rest[k - 1] == entries[k]);
        }
        extraction_stops_at_the_first_unsafe_path(rest, k - 1);
    }
}

/// Each store that is there is copied from its place under the one root to the
/// same place under the other, in the way that is asked for; nothing else is.
pub proof fn stores_are_copied_to_their_places(
    from: Seq<char>,
    to: Seq<char>,
    reflink: bool,
    dirs: Seq<Seq<char>>,
)
    ensures
        ({
            let copies = profile::copies_of(from, to, reflink, dirs, profile::native_list().len());
            let first = paths::join_of(from, "Default/IndexedDB"@);
            let second = paths::join_of(from, "Default/Service Worker"@);
            &&& copies.len() == (if dirs.contains(first) {
                1int
            } else {
                0
            }) + (if dirs.contains(second) {
                1int
            } else {
                0
            })
            &&& dirs.contains(first) ==> copies[0].from == first && copies[0].to == paths::join_of(
                to,
                "Default/IndexedDB"@,
            ) && copies[0].reflink == reflink
            &&& dirs.contains(second) ==> copies.last().from == second && copies.last().to
                == paths::join_of(to, "Default/Service Worker"@) && copies.last().reflink == reflink
        }),
{
    let none = profile::copies_of(from, to, reflink, dirs, 0);
    let one = profile::copies_of(from, to, reflink, dirs, 1);
    let two = profile::copies_of(from, to, reflink, dirs, 2);
    assert(profile::native_list().len() == 2);
    assert(none.len() == 0);
}

/// Three bytes are written as four values of six bits that make up the same
/// number, and a rest of one or two bytes is filled up with zero bits.
pub proof fn text_has_the_bits_of_the_bytes(a: u8, b: u8, c: u8, rest: Seq<u8>)
    ensures
        ({
            let s = encoding::sextets(seq![a, b, c] + rest);
            &&& s == s.take(4) + encoding::sextets(rest)
            &&& s[0] * 262144 + s[1] * 4096 + s[2] * 64 + s[3] == a * 65536 + b * 256 + c
        }),
        ({
            let s = encoding::sextets(seq![a, b]);
            s.len() == 3 && s[0] * 4096 + s[1] * 64 + s[2] == (a * 256 + b) * 4
        }),
        ({
            let s = encoding::sextets(seq![a]);
            s.len() == 2 && s[0] * 64 + s[1] == a * 16
        }),
        encoding::sextets(Seq::empty()).len() == 0,
{
    let whole = seq![a, b, c] + rest;
    assert(whole.skip(3) =~= rest);
    let s = encoding::sextets(whole);
    assert(s =~= s.take(4) + encoding::sextets(rest));
}

/// A member is the first that has its key.
pub proof fn member_is_the_first_of_its_key(
    members: Seq<(Seq<char>, JsonView)>,
    k: int,
    key: Seq<char>,
)
    requires
        0 <= k <= members.len(),
        forall|j: int| 0 <= j < k ==> (#[trigger] members[j]).0 != key,
        k < members.len() ==> members[k].0 == key,
    ensures
        JsonView::Object(members).get(key) == (if k < members.len() {
            Some(members[k].1)
        } else {
            None
        }),
        JsonView::Object(members).at(key) == (if k < members.len() {
            members[k].1
        } else {
            JsonView::Null
        }),
    decreases k,
{
    if k > 0 {
        let rest = members.skip(1);
        assert(members[0].0 != key);
        assert forall|j: int| 0 <= j < k - 1 implies (#[trigger] rest[j]).0 != key by {
            assert(rest[j] == members[j + 1]);
        }
        if k < members.len() {
            assert(rest[k - 1] == members[k]);
        }
        member_is_the_first_of_its_key(rest, k - 1, key);
    }
}

/// A value of one kind is not taken for one of another.
pub proof fn values_are_of_their_kind(v: JsonView, key: Seq<char>)
    ensures
        v.chars() matches Some(s) ==> v == JsonView::Str(s),
        v is Str ==> v.chars() is Some,
        v.natural() matches Some(n) ==> v == JsonView::UInt(n),
        v is UInt ==> v.natural() is Some,
        v.integer() is Some <==> v is Int || (v matches JsonView::UInt(n) && n
            <= 0x7fff_ffff_ffff_ffff),
        v.integer() matches Some(n) ==> v == JsonView::Int(n) || (v matches JsonView::UInt(m) && m
            == n),
        !(v is Object) ==> v.get(key) is None && v.at(key) is Null,
        forall|n: i64| (#[trigger] json::integer_form(n)).integer() == Some(n),
        forall|n: i64| n >= 0 ==> (#[trigger] json::integer_form(n)).natural() == Some(n as u64),
{
}

/// How what stands at a path is removed: a directory with all that is in it,
/// anything else by itself; what is not there is left at that. What is neither
/// a directory nor a file is not copied.
pub proof fn links_are_not_followed()
    ensures
        template::removal_of(PathKind::Dir) == Remove::Tree,
        template::removal_of(PathKind::File) == Remove::Entry,
        template::removal_of(PathKind::Other) == Remove::Entry,
        template::removal_of(PathKind::Missing) == Remove::Nothing,
        template::is_copied(PathKind::Dir) && template::is_copied(PathKind::File),
        !template::is_copied(PathKind::Other) && !template::is_copied(PathKind::Missing),
{
}

/// Templates and sessions have a directory each below the data directory.
pub proof fn data_directory_is_divided(data_dir: Seq<char>)
    requires
        data_dir.len() > 0,
        data_dir.last() != '/',
    ensures
        template::templates_in(data_dir) == data_dir + "/templates"@,
        session_dirs::sessions_in(data_dir) == data_dir + "/sessions"@,
{
    reveal_strlit("/");
    reveal_strlit("templates");
    reveal_strlit("/templates");
    reveal_strlit("sessions");
    reveal_strlit("/sessions");
    assert(template::templates_in(data_dir) =~= data_dir + "/templates"@);
    assert(session_dirs::sessions_in(data_dir) =~= data_dir + "/sessions"@);
}

/// A session id shows every bit of the drawn bytes but those of its marks: two
/// digits for each byte, in order.
pub proof fn session_id_shows_its_bytes(bytes: Seq<u8>, other: Seq<u8>, k: int)
    requires
        bytes.len() == 16,
        other.len() == 16,
        session_dirs::id_of(bytes) == session_dirs::id_of(other),
        0 <= k < 16,
    ensures
        k != 6 && k != 8 ==> bytes[k] == other[k],
        k == 6 ==> bytes[k] as int % 16 == other[k] as int % 16,
        k == 8 ==> bytes[k] as int % 64 == other[k] as int % 64,
{
    let d = 2 * k;
    let at = if d < 8 {
        d
    } else if d < 12 {
        d + 1
    } else if d < 16 {
        d + 2
    } else if d < 20 {
        d + 3
    } else {
        d + 4
    };
    let x = session_dirs::id_of(bytes);
    let y = session_dirs::id_of(other);
    assert(x[at] == y[at]);
    assert(x[at + 1] == y[at + 1]);
    assert(x[at] == session_dirs::id_digit(bytes, d));
    assert(x[at + 1] == session_dirs::id_digit(bytes, d + 1));
    assert(y[at] == session_dirs::id_digit(other, d));
    assert(y[at + 1] == session_dirs::id_digit(other, d + 1));
}

/// A browser is isolated in a leaf that is named after its process: the cap is
/// written there if there is one, and the process is moved there.
pub proof fn browser_gets_its_own_leaf(plan: CgroupPlan, factory: ChromeFactory, pid: i32)
    requires
        plan.isolates(factory, pid),
        factory.cgroup_base matches Some(base) && base@.len() > 0 && base@.last() != '/',
    ensures
        ({
            let leaf = factory.cgroup_base->0@ + "/session-"@ + text::signed_decimal_of(pid as int);
            &&& plan.leaf.dir@ == leaf
            &&& plan.attach.path@ == leaf + "/cgroup.procs"@
            &&& plan.attach.value@ == text::signed_decimal_of(pid as int)
            &&& factory.memory_max_bytes == 0 ==> plan.memory is None
            &&& factory.memory_max_bytes > 0 ==> (plan.memory matches Some(w) && w.path@ == leaf
                + "/memory.max"@ && w.value@ == text::decimal_of(factory.memory_max_bytes as nat))
        }),
{
    reveal_strlit("/");
    reveal_strlit("session-");
    reveal_strlit("/session-");
    reveal_strlit("cgroup.procs");
    reveal_strlit("/cgroup.procs");
    reveal_strlit("memory.max");
    reveal_strlit("/memory.max");
    let base = factory.cgroup_base->0@;
    let p = text::signed_decimal_of(pid as int);
    let leaf = base + "/session-"@ + p;
    assert(plan.leaf.dir@ =~= leaf);
    text::decimal_reads_back(if pid < 0 {
        (-(pid as int)) as nat
    } else {
        pid as nat
    });
    assert(p.last() != '/') by {
        assert(text::is_digit(p.last()));
    }
    assert(leaf.last() == p.last());
    assert(plan.attach.path@ =~= leaf + "/cgroup.procs"@);
    if factory.memory_max_bytes > 0 {
        assert(plan.memory->0.path@ =~= leaf + "/memory.max"@);
    }
}

/// The origins of a payload's storage are those of its states, one for each.
pub proof fn storage_origins_are_those_of_the_states(states: Seq<OriginState>, i: int)
    requires
        0 <= i < states.len(),
    ensures
        payload::storage_origins(states).len() == states.len(),
        payload::storage_origins(states)[i] == states[i].origin@,
{
}

/// An object is written with its members in the order of their keys, each key
/// once.
pub proof fn written_members_are_in_order(members: Seq<(Seq<char>, JsonView)>, i: int, j: int)
    requires
        0 <= i < j < json::by_key(members).len(),
    ensures
        text::lex_less(json::by_key(members)[i].0, json::by_key(members)[j].0),
{
    members_are_sorted(members);
}

spec fn sorted(members: Seq<(Seq<char>, JsonView)>) -> bool {
    forall|i: int, j: int|
        0 <= i < j < members.len() ==> text::lex_less(
            (#[trigger] members[i]).0,
            (#[trigger] members[j]).0,
        )
}

proof fn members_are_sorted(members: Seq<(Seq<char>, JsonView)>)
    ensures
        sorted(json::by_key(members)),
    decreases members.len(),
{
    if members.len() > 0 {
        members_are_sorted(members.drop_last());
        put_stays_sorted(
            json::by_key(members.drop_last()),
            members.last().0,
            members.last().1,
            members.last().0,
        );
    }
}

proof fn put_stays_sorted(
    members: Seq<(Seq<char>, JsonView)>,
    key: Seq<char>,
    value: JsonView,
    low: Seq<char>,
)
    requires
        sorted(members),
    ensures
        sorted(json::put(members, key, value)),
        text::lex_less(low, key) && (forall|i: int|
            0 <= i < members.len() ==> text::lex_less(low, (#[trigger] members[i]).0))
            ==> forall|i: int|
            0 <= i < json::put(members, key, value).len() ==> text::lex_less(
                low,
                (#[trigger] json::put(members, key, value)[i]).0,
            ),
    decreases members.len(),
{
    let all = json::put(members, key, value);
    if members.len() > 0 {
        let first = members[0].0;
        let rest = members.skip(1);
        assert forall|i: int, j: int| 0 <= i < j < rest.len() implies text::lex_less(
            (#[trigger] rest[i]).0,
            (#[trigger] rest[j]).0,
        ) by {
            assert(rest[i] == members[i + 1] && rest[j] == members[j + 1]);
        }
        text::lex_total(key, first);
        if first != key && !text::lex_less(key, first) {
            put_stays_sorted(rest, key, value, first);
            put_stays_sorted(rest, key, value, low);
            assert forall|i: int| 0 <= i < rest.len() implies text::lex_less(
                first,
                (#[trigger] rest[i]).0,
            ) by {
                assert(rest[i] == members[i + 1]);
            }
            let tail = json::put(rest, key, value);
            assert forall|i: int, j: int| 0 <= i < j < all.len() implies text::lex_less(
                (#[trigger] all[i]).0,
                (#[trigger] all[j]).0,
            ) by {
                assert(all[j] == tail[j - 1]);
                if i > 0 {
                    assert(all[i] == tail[i - 1]);
                }
            }
            if text::lex_less(low, key) && (forall|i: int|
                0 <= i < members.len() ==> text::lex_less(low, (#[trigger] members[i]).0)) {
                assert forall|i: int| 0 <= i < all.len() implies text::lex_less(
                    low,
                    (#[trigger] all[i]).0,
                ) by {
                    if i > 0 {
                        assert(all[i] == tail[i - 1]);
                        assert forall|k: int| 0 <= k < rest.len() implies text::lex_less(
                            low,
                            (#[trigger] rest[k]).0,
                        ) by {
                            assert(rest[k] == members[k + 1]);
                        }
                    }
                }
            }
        } else if first == key {
            assert forall|i: int, j: int| 0 <= i < j < all.len() implies text::lex_less(
                (#[trigger] all[i]).0,
                (#[trigger] all[j]).0,
            ) by {
                assert(all[i].0 == members[i].0 && all[j].0 == members[j].0);
            }
            if forall|i: int|
                0 <= i < members.len() ==> text::lex_less(low, (#[trigger] members[i]).0) {
                assert forall|i: int| 0 <= i < all.len() implies text::lex_less(
                    low,
                    (#[trigger] all[i]).0,
                ) by {
                    assert(all[i].0 == members[i].0);
                }
            }
        } else {
            assert forall|i: int, j: int| 0 <= i < j < all.len() implies text::lex_less(
                (#[trigger] all[i]).0,
                (#[trigger] all[j]).0,
            ) by {
                assert(all[j] == members[j - 1]);
                if i > 0 {
                    assert(all[i] == members[i - 1]);
                } else if j > 1 {
                    assert(text::lex_less(first, members[j - 1].0));
                    text::lex_transitive(key, first, members[j - 1].0);
                }
            }
            if text::lex_less(low, key) && (forall|i: int|
                0 <= i < members.len() ==> text::lex_less(low, (#[trigger] members[i]).0)) {
                assert forall|i: int| 0 <= i < all.len() implies text::lex_less(
                    low,
                    (#[trigger] all[i]).0,
                ) by {
                    if i > 0 {
                        assert(all[i] == members[i - 1]);
                    }
                }
            }
        }
    }
}

/// Where a key occurs twice the later member stands; the other keys are not
/// touched by it.
pub proof fn later_member_stands(
    members: Seq<(Seq<char>, JsonView)>,
    key: Seq<char>,
    value: JsonView,
    other: Seq<char>,
)
    requires
        other != key,
    ensures
        json::member_of(json::by_key(members.push((key, value))), key) == Some(value),
        json::member_of(json::by_key(members.push((key, value))), other) == json::member_of(
            json::by_key(members),
            other,
        ),
{
    assert(members.push((key, value)).drop_last() =~= members);
    json::put_is_found(json::by_key(members), key, value, key);
    json::put_is_found(json::by_key(members), key, value, other);
}

/// A file is written below the root at the names of its path, into the
/// directory of all names but the last; it has the contents of its own entry.
pub proof fn file_goes_where_its_path_says(
    target: FileTarget,
    entry: ManifestEntry,
    index: int,
    root: Seq<char>,
)
    requires
        target.holds(entry, index, root),
    ensures
        manifest::safe_names(entry.path@) matches Some(names) && target.path@ == paths::under(
            root,
            names,
        ) && target.dir@ == paths::under(root, names.drop_last()) && target.path@ == paths::join_of(
            target.dir@,
            names.last(),
        ) && paths::parts_of(target.path@) == paths::parts_of(root) + names,
        target.entry == index,
{
    let names = manifest::safe_names(entry.path@)->0;
    assert forall|k: int| 0 <= k < names.len() implies (#[trigger] names[k]).len() > 0
        && !names[k].contains('/') by {
        assert(manifest::is_name(names[k]));
    }
    paths::under_parts(root, names);
}

/// A value that holds no other is plain unless it is a fraction; a list or an
/// object needs room for what is in it.
pub proof fn simple_values_are_plain(v: JsonView, depth: nat)
    ensures
        v is Null || v is Bool || v is UInt || v is Int || v is Str ==> json::plain(v, depth),
        v is Real ==> !json::plain(v, depth),
        v is Array || v is Object ==> !json::plain(v, 0),
{
}

} // verus!
