//! Unix paths as text.

use crate::text;
use vstd::prelude::*;

verus! {

/// Whether a path starts at the root.
pub open spec fn is_absolute(p: Seq<char>) -> bool {
    p.len() > 0 && p[0] == '/'
}

/// `rel` under `base`: an absolute `rel` stands alone, otherwise it follows
/// `base` behind one separator.
pub open spec fn join_of(base: Seq<char>, rel: Seq<char>) -> Seq<char> {
    if is_absolute(rel) || base.len() == 0 {
        rel
    } else if base.last() == '/' {
        base + rel
    } else {
        base + "/"@ + rel
    }
}

/// Joins two paths.
pub fn join(base: &str, rel: &str) -> (r: String)
    ensures
        r@ == join_of(base@, rel@),
{
    if text::starts_with_char(rel, '/') {
        return rel.to_owned();
    }
    let n: usize = base.unicode_len();
    if n == 0 {
        return rel.to_owned();
    }
    let mut s = base.to_owned();
    if base.get_char(n - 1) != '/' {
        s.append("/");
    }
    s.append(rel);
    s
}

/// The parts of a path between separators, without the empty ones.
pub open spec fn parts_of(p: Seq<char>) -> Seq<Seq<char>>
    decreases p.len(),
{
    let n = text::run_len(p, text::notp('/'));
    if p.len() == 0 {
        Seq::empty()
    } else {
        proof {
            text::run_len_bounds(p, text::notp('/'));
        }
        let tail = if n < p.len() {
            parts_of(p.skip(n + 1))
        } else {
            Seq::empty()
        };
        if n == 0 {
            tail
        } else {
            seq![p.take(n)] + tail
        }
    }
}

/// Splits a path at its separators, leaving out empty parts.
pub fn parts(p: &str) -> (r: Vec<String>)
    ensures
        text::views(r@) == parts_of(p@),
{
    let cs = text::chars_of(p);
    let mut out: Vec<String> = Vec::new();
    let mut i: usize = 0;
    assert(cs@.skip(0) =~= cs@);
    assert(text::views(out@) + parts_of(cs@.skip(0)) =~= parts_of(cs@));
    while i < cs.len()
        invariant
            i <= cs@.len(),
            cs@ == p@,
            text::views(out@) + parts_of(cs@.skip(i as int)) == parts_of(cs@),
        decreases cs.len() - i,
    {
        let ghost rest = cs@.skip(i as int);
        let ghost before = out@;
        let mut n: usize = i;
        while n < cs.len() && cs[n] != '/'
            invariant
                i <= n <= cs@.len(),
                forall|k: int| i <= k < n ==> #[trigger] cs@[k] != '/',
            decreases cs.len() - n,
        {
            n += 1;
        }
        proof {
            assert forall|k: int| 0 <= k < n - i implies text::notp('/')(#[trigger] rest[k]) by {
                assert(rest[k] == cs@[k + i]);
            }
            if n < cs@.len() {
                assert(rest[n - i] == cs@[n as int]);
                assert(rest.skip(n - i + 1) =~= cs@.skip(n + 1));
            }
            text::run_len_is(rest, text::notp('/'), n - i);
        }
        if n > i {
            let w = text::piece(&cs, i, n);
            assert(rest.take(n - i) =~= cs@.subrange(i as int, n as int));
            out.push(w);
            assert(text::views(out@) =~= text::views(before) + seq![w@]);
        }
        i = if n < cs.len() {
            n + 1
        } else {
            n
        };
        proof {
            if n >= cs@.len() {
                assert(parts_of(cs@.skip(n as int)) =~= Seq::empty());
            }
            assert(text::views(out@) + parts_of(cs@.skip(i as int)) =~= text::views(before)
                + parts_of(rest));
        }
    }
    proof {
        assert(cs@.skip(i as int).len() == 0);
        assert(text::views(out@) + parts_of(cs@.skip(i as int)) =~= text::views(out@));
    }
    out
}

/// A part has characters and no separator.
pub proof fn parts_are_names(p: Seq<char>, k: int)
    requires
        0 <= k < parts_of(p).len(),
    ensures
        parts_of(p)[k].len() > 0,
        !parts_of(p)[k].contains('/'),
    decreases p.len(),
{
    text::run_len_bounds(p, text::notp('/'));
    let n = text::run_len(p, text::notp('/'));
    if n > 0 && k == 0 {
        let head = p.take(n);
        assert(parts_of(p)[0] == head);
        assert(!head.contains('/')) by {
            if head.contains('/') {
                let i = choose|i: int| 0 <= i < head.len() && head[i] == '/';
                assert(text::notp('/')(p[i]));
            }
        }
    } else if n < p.len() {
        let j = if n > 0 {
            k - 1
        } else {
            k
        };
        parts_are_names(p.skip(n + 1), j);
    }
}

/// The parts joined under `base`, one after another.
pub open spec fn under(base: Seq<char>, names: Seq<Seq<char>>) -> Seq<char>
    decreases names.len(),
{
    if names.len() == 0 {
        base
    } else {
        join_of(under(base, names.drop_last()), names.last())
    }
}

/// Joins every name under `base`, one after another.
pub fn join_all(base: &str, names: &Vec<String>, count: usize) -> (r: String)
    requires
        count <= names@.len(),
    ensures
        r@ == under(base@, text::views(names@).take(count as int)),
{
    let mut s = base.to_owned();
    let mut i: usize = 0;
    let ghost all = text::views(names@);
    assert(all.take(0) =~= Seq::empty());
    while i < count
        invariant
            i <= count <= names@.len(),
            all == text::views(names@),
            s@ == under(base@, all.take(i as int)),
        decreases count - i,
    {
        proof {
            assert(all.take(i + 1).drop_last() =~= all.take(i as int));
            assert(all.take(i + 1).last() == names@[i as int]@);
        }
        s = join(s.as_str(), names[i].as_str());
        i += 1;
    }
    s
}

/// What is joined from names under `base` begins with `base`.
pub proof fn under_stays_below(base: Seq<char>, names: Seq<Seq<char>>)
    requires
        forall|k: int|
            0 <= k < names.len() ==> (#[trigger] names[k]).len() > 0 && !names[k].contains('/'),
    ensures
        text::has_prefix(under(base, names), base),
    decreases names.len(),
{
    if names.len() > 0 {
        let t = names.drop_last();
        assert forall|k: int| 0 <= k < t.len() implies (#[trigger] t[k]).len() > 0
            && !t[k].contains('/') by {
            assert(t[k] == names[k]);
        }
        under_stays_below(base, t);
        let name = names.last();
        assert(names[names.len() - 1] == name);
        assert(name[0] != '/') by {
            if name[0] == '/' {
                assert(name.contains('/'));
            }
        }
        let upper = under(base, t);
        let whole = join_of(upper, name);
        assert(upper.len() == 0 ==> base.len() == 0);
        assert(whole.take(base.len() as int) =~= upper.take(base.len() as int));
    } else {
        assert(base.take(base.len() as int) =~= base);
    }
}

/// A separator parts a path: the parts in front of it, then those behind it.
pub proof fn separator_parts(a: Seq<char>, b: Seq<char>)
    ensures
        parts_of(a.push('/') + b) == parts_of(a) + parts_of(b),
    decreases a.len(),
{
    let p = text::notp('/');
    let whole = a.push('/') + b;
    let n = text::run_len(a, p);
    text::run_len_bounds(a, p);
    assert forall|i: int| 0 <= i < n implies p(#[trigger] whole[i]) by {
        assert(whole[i] == a[i]);
    }
    if n < a.len() {
        assert(whole[n] == a[n]);
        text::run_len_is(whole, p, n);
        let rest = a.skip(n + 1);
        assert(whole.skip(n + 1) =~= rest.push('/') + b);
        assert(whole.take(n) =~= a.take(n));
        separator_parts(rest, b);
        assert(parts_of(whole) =~= parts_of(a) + parts_of(b));
    } else {
        assert(whole[n] == '/');
        text::run_len_is(whole, p, n);
        assert(whole.take(n) =~= a);
        assert(a.take(n) =~= a);
        assert(whole.skip(n + 1) =~= b);
        assert(parts_of(whole) =~= parts_of(a) + parts_of(b));
    }
}

/// Joining two paths joins their parts.
pub proof fn joined_parts(base: Seq<char>, rel: Seq<char>)
    requires
        !is_absolute(rel),
    ensures
        parts_of(join_of(base, rel)) == parts_of(base) + parts_of(rel),
{
    reveal_strlit("/");
    if base.len() == 0 {
        assert(parts_of(base) + parts_of(rel) =~= parts_of(rel));
    } else if base.last() == '/' {
        let front = base.drop_last();
        let none = Seq::<char>::empty();
        assert(base + rel =~= front.push('/') + rel);
        assert(base =~= front.push('/') + none);
        separator_parts(front, rel);
        separator_parts(front, none);
        assert(parts_of(front) + parts_of(none) =~= parts_of(front));
    } else {
        assert(base + "/"@ + rel =~= base.push('/') + rel);
        separator_parts(base, rel);
    }
}

/// A name is its own only part.
pub proof fn name_is_its_part(name: Seq<char>)
    requires
        name.len() > 0,
        !name.contains('/'),
    ensures
        !is_absolute(name),
        parts_of(name) == seq![name],
{
    let p = text::notp('/');
    assert forall|i: int| 0 <= i < name.len() implies p(#[trigger] name[i]) by {
        if name[i] == '/' {
            assert(name.contains('/'));
        }
    }
    assert(p(name[0]));
    text::run_len_is(name, p, name.len() as int);
    assert(name.take(name.len() as int) =~= name);
    assert(parts_of(name) =~= seq![name]);
}

/// The parts of names joined under `base` are those of `base` and the names.
pub proof fn under_parts(base: Seq<char>, names: Seq<Seq<char>>)
    requires
        forall|k: int|
            0 <= k < names.len() ==> (#[trigger] names[k]).len() > 0 && !names[k].contains('/'),
    ensures
        parts_of(under(base, names)) == parts_of(base) + names,
    decreases names.len(),
{
    if names.len() > 0 {
        let t = names.drop_last();
        let last = names[names.len() - 1];
        assert forall|k: int| 0 <= k < t.len() implies (#[trigger] t[k]).len() > 0
            && !t[k].contains('/') by {
            assert(t[k] == names[k]);
        }
        under_parts(base, t);
        name_is_its_part(last);
        joined_parts(under(base, t), last);
        assert(parts_of(base) + t + seq![last] =~= parts_of(base) + names);
    } else {
        assert(parts_of(base) + names =~= parts_of(base));
    }
}

/// Names are joined under `base` from the first one on.
pub proof fn under_first(base: Seq<char>, names: Seq<Seq<char>>)
    requires
        names.len() > 0,
    ensures
        under(base, names) == under(join_of(base, names[0]), names.skip(1)),
    decreases names.len(),
{
    if names.len() == 1 {
        assert(names.drop_last() =~= Seq::empty());
        assert(names.skip(1) =~= Seq::empty());
        assert(under(base, names.drop_last()) == base);
    } else {
        let t = names.drop_last();
        under_first(base, t);
        assert(t.skip(1) =~= names.skip(1).drop_last());
        assert(names.skip(1).last() == names.last());
    }
}

} // verus!
