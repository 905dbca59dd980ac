//! What the text primitives come to.

use crate::text;
use vstd::prelude::*;

verus! {

/// White space is blanks, tabs and line ends, among others, and no printing
/// character of ASCII.
pub proof fn printing_characters_are_no_space(c: char)
    ensures
        text::is_space(' ') && text::is_space('\t') && text::is_space('\n') && text::is_space('\r'),
        0x21 <= c as u32 <= 0x7e ==> !text::is_space(c),
{
}

/// Trimming takes the white space at both ends away, all of it, and nothing
/// else.
pub proof fn trimming_takes_the_ends(a: Seq<char>, m: Seq<char>, b: Seq<char>)
    requires
        forall|i: int| 0 <= i < a.len() ==> text::is_space(#[trigger] a[i]),
        forall|i: int| 0 <= i < b.len() ==> text::is_space(#[trigger] b[i]),
        m.len() > 0 ==> !text::is_space(m[0]) && !text::is_space(m.last()),
    ensures
        text::trimmed(a + m + b) == m,
{
    let s = a + m + b;
    let p = text::spacep();
    if m.len() == 0 {
        assert forall|i: int| 0 <= i < s.len() implies p(#[trigger] s[i]) by {
            if i < a.len() {
                assert(s[i] == a[i]);
            } else {
                assert(s[i] == b[i - a.len()]);
            }
        }
        text::run_len_is(s, p, s.len() as int);
        assert(text::drop_front(s, p) =~= Seq::empty());
        assert(text::trimmed(s) =~= m);
    } else {
        assert forall|i: int| 0 <= i < a.len() implies p(#[trigger] s[i]) by {
            assert(s[i] == a[i]);
        }
        assert(s[a.len() as int] == m[0]);
        text::run_len_is(s, p, a.len() as int);
        assert(text::drop_front(s, p) =~= m + b);
        back_is_dropped(m, b, p);
    }
}

proof fn back_is_dropped(m: Seq<char>, b: Seq<char>, p: spec_fn(char) -> bool)
    requires
        forall|i: int| 0 <= i < b.len() ==> p(#[trigger] b[i]),
        m.len() > 0 ==> !p(m.last()),
    ensures
        text::drop_back(m + b, p) == m,
    decreases b.len(),
{
    let s = m + b;
    if b.len() > 0 {
        assert(s.drop_last() =~= m + b.drop_last());
        assert(s.last() == b.last());
        assert(p(b[b.len() - 1]));
        back_is_dropped(m, b.drop_last(), p);
    } else {
        assert(s =~= m);
    }
}

/// Dropping a character at the end drops every one of it there, and no other.
pub proof fn dropping_at_the_end_drops_all(m: Seq<char>, n: nat, x: char)
    requires
        m.len() > 0 ==> m.last() != x,
    ensures
        text::drop_back(m + Seq::new(n, |i: int| x), text::isp(x)) == m,
{
    back_is_dropped(m, Seq::new(n, |i: int| x), text::isp(x));
}

/// What follows a prefix is what was put behind it, and a text without the
/// prefix has nothing behind it.
pub proof fn prefix_and_rest_make_the_text(p: Seq<char>, s: Seq<char>, t: Seq<char>)
    ensures
        text::has_prefix(p + s, p),
        text::after_prefix(p + s, p) == Some(s),
        text::after_prefix(t, p) matches Some(r) ==> t == p + r,
        text::after_prefix(t, p) is None <==> !text::has_prefix(t, p),
        text::has_prefix(t, p) ==> t.len() >= p.len() && (forall|i: int|
            0 <= i < p.len() ==> #[trigger] t[i] == p[i]),
{
    assert((p + s).take(p.len() as int) =~= p);
    assert((p + s).skip(p.len() as int) =~= s);
    if text::has_prefix(t, p) {
        assert(t =~= p + t.skip(p.len() as int));
        assert forall|i: int| 0 <= i < p.len() implies #[trigger] t[i] == p[i] by {
            assert(t.take(p.len() as int)[i] == t[i]);
        }
    }
}

/// A text occurs wherever it was put.
pub proof fn needle_occurs_where_it_stands(a: Seq<char>, needle: Seq<char>, b: Seq<char>)
    ensures
        text::occurs(a + needle + b, needle),
{
    let s = a + needle + b;
    let n = a.len() as int;
    assert(s.subrange(n, n + needle.len()) =~= needle);
    assert(text::occurs_at(s, needle, n));
}

/// A text that occurs is part of the text, in one piece.
pub proof fn occurrence_is_a_part(s: Seq<char>, needle: Seq<char>)
    requires
        text::occurs(s, needle),
    ensures
        exists|a: Seq<char>, b: Seq<char>| s == #[trigger] (a + needle + b),
{
    let i = choose|i: int| text::occurs_at(s, needle, i);
    let a = s.take(i);
    let b = s.skip(i + needle.len());
    assert(s =~= a + s.subrange(i, i + needle.len()) + b);
    assert(s == a + needle + b);
}

/// Decimal numbers are read digit by digit, and are written as they are read;
/// one that is too large, or a text that is no number, gives none.
pub proof fn numbers_are_decimal(s: Seq<char>, c: char, n: nat, max: nat)
    ensures
        '0' <= c <= '9' ==> text::digits_value(s.push(c)) == 10 * text::digits_value(s) + (c as nat
            - 48),
        text::digits_value(Seq::empty()) == 0,
        text::number_of(text::decimal_of(n), max) == (if n <= max {
            Some(n)
        } else {
            None
        }),
        text::number_of(Seq::empty(), max) is None,
        !('0' <= c <= '9') && s.len() > 0 ==> text::number_of(s.push(c), max) is None,
        text::number_of(s, max) matches Some(v) ==> v <= max,
{
    assert(s.push(c).drop_last() =~= s);
    text::decimal_reads_back(n);
    let d = text::decimal_of(n);
    assert(text::is_digit(d[0]));
    assert(text::unsigned_part(d) == d);
    if !('0' <= c <= '9') && s.len() > 0 {
        let t = s.push(c);
        let u = text::unsigned_part(t);
        assert(u[u.len() - 1] == c);
        assert(!text::is_digit(u[u.len() - 1]));
    }
}

/// A number is written with its digits in order, without leading zeros, and a
/// negative one behind a minus sign.
pub proof fn numbers_are_written_in_order(n: nat, d: nat)
    requires
        d < 10,
    ensures
        text::decimal_of(d) == seq![(48 + d) as char],
        n > 0 ==> text::decimal_of(10 * n + d) == text::decimal_of(n).push((48 + d) as char),
        text::signed_decimal_of(n as int) == text::decimal_of(n),
        n > 0 ==> text::signed_decimal_of(-(n as int)) == seq!['-'] + text::decimal_of(n),
{
}

/// Words are the runs between white space: white space in front is passed
/// over, and a word ends where white space begins.
pub proof fn words_are_split_at_space(
    before: Seq<char>,
    word: Seq<char>,
    gap: char,
    rest: Seq<char>,
)
    requires
        forall|i: int| 0 <= i < before.len() ==> text::is_space(#[trigger] before[i]),
        word.len() > 0,
        forall|i: int| 0 <= i < word.len() ==> !text::is_space(#[trigger] word[i]),
        text::is_space(gap),
    ensures
        text::words_of(before + word + seq![gap] + rest) == seq![word] + text::words_of(
            seq![gap] + rest,
        ),
        text::words_of(before + word) == seq![word],
        text::words_of(seq![gap] + rest) == text::words_of(rest),
        text::words_of(before).len() == 0,
{
    let sp = text::spacep();
    let ink = text::inkp();
    let n = before.len() as int;
    // A word with something behind it.
    let s = before + word + seq![gap] + rest;
    assert forall|i: int| 0 <= i < n implies sp(#[trigger] s[i]) by {
        assert(s[i] == before[i]);
    }
    assert(s[n] == word[0]);
    text::run_len_is(s, sp, n);
    let t = word + seq![gap] + rest;
    assert(text::drop_front(s, sp) =~= t);
    assert forall|i: int| 0 <= i < word.len() implies ink(#[trigger] t[i]) by {
        assert(t[i] == word[i]);
    }
    assert(t[word.len() as int] == gap);
    text::run_len_is(t, ink, word.len() as int);
    assert(t.take(word.len() as int) =~= word);
    assert(t.skip(word.len() as int) =~= seq![gap] + rest);
    // A word at the end.
    let e = before + word;
    assert forall|i: int| 0 <= i < n implies sp(#[trigger] e[i]) by {
        assert(e[i] == before[i]);
    }
    assert(e[n] == word[0]);
    text::run_len_is(e, sp, n);
    assert(text::drop_front(e, sp) =~= word);
    assert forall|i: int| 0 <= i < word.len() implies ink(#[trigger] word[i]) by {}
    text::run_len_is(word, ink, word.len() as int);
    assert(word.take(word.len() as int) =~= word);
    let none = word.skip(word.len() as int);
    assert(none =~= Seq::empty());
    text::run_len_is(none, sp, 0);
    assert(text::drop_front(none, sp) =~= Seq::empty());
    assert(text::words_of(none) =~= Seq::empty());
    assert(text::words_of(e) =~= seq![word]);
    // White space in front.
    let g = seq![gap] + rest;
    text::run_len_bounds(rest, sp);
    let k = text::run_len(rest, sp);
    assert forall|i: int| 0 <= i < k + 1 implies sp(#[trigger] g[i]) by {
        if i > 0 {
            assert(g[i] == rest[i - 1]);
        }
    }
    if k < rest.len() {
        assert(g[k + 1] == rest[k]);
    }
    text::run_len_is(g, sp, k + 1);
    assert(text::drop_front(g, sp) =~= text::drop_front(rest, sp));
    // Nothing but white space.
    assert forall|i: int| 0 <= i < n implies sp(#[trigger] before[i]) by {}
    text::run_len_is(before, sp, n);
    assert(text::drop_front(before, sp) =~= Seq::empty());
}

/// Lines end at line feeds, with or without a carriage return in front; what
/// stands behind the last one is a line unless it is empty.
pub proof fn lines_end_at_line_feeds(line: Seq<char>, rest: Seq<char>)
    requires
        !line.contains('\n'),
        line.len() > 0 ==> line.last() != '\r',
    ensures
        text::lines_of(line + seq!['\n'] + rest) == seq![line] + text::lines_of(rest),
        text::lines_of(line + seq!['\r', '\n'] + rest) == seq![line] + text::lines_of(rest),
        line.len() > 0 ==> text::lines_of(line) == seq![line],
        text::lines_of(Seq::empty()).len() == 0,
{
    let p = text::notp('\n');
    let n = line.len() as int;
    assert forall|i: int| 0 <= i < n implies p(#[trigger] line[i]) by {
        if line[i] == '\n' {
            assert(line.contains('\n'));
        }
    }
    let s = line + seq!['\n'] + rest;
    assert forall|i: int| 0 <= i < n implies p(#[trigger] s[i]) by {
        assert(s[i] == line[i]);
    }
    assert(s[n] == '\n');
    text::run_len_is(s, p, n);
    assert(s.take(n) =~= line);
    assert(s.skip(n + 1) =~= rest);
    let r = line + seq!['\r', '\n'] + rest;
    assert forall|i: int| 0 <= i < n + 1 implies p(#[trigger] r[i]) by {
        if i < n {
            assert(r[i] == line[i]);
        }
    }
    assert(r[n + 1] == '\n');
    text::run_len_is(r, p, n + 1);
    assert(r.take(n + 1) =~= line.push('\r'));
    assert(r.take(n + 1).drop_last() =~= line);
    assert(r.skip(n + 2) =~= rest);
    text::run_len_is(line, p, n);
}

/// Joined texts stand in order with the separator between neighbours.
pub proof fn joining_puts_the_separator_between(parts: Seq<Seq<char>>, x: Seq<char>, sep: Seq<char>)
    ensures
        text::joined(Seq::empty(), sep).len() == 0,
        text::joined(seq![x], sep) == x,
        parts.len() > 0 ==> text::joined(parts.push(x), sep) == text::joined(parts, sep) + sep + x,
{
    assert(parts.push(x).drop_last() =~= parts);
}

/// Texts are ordered by their first difference; a text comes before its
/// continuations.
pub proof fn order_is_by_the_first_difference(
    p: Seq<char>,
    x: char,
    y: char,
    a: Seq<char>,
    b: Seq<char>,
)
    ensures
        x < y ==> text::lex_less(p + seq![x] + a, p + seq![y] + b),
        text::lex_less(p, p + seq![x] + a),
        !text::lex_less(p + seq![x] + a, p),
    decreases p.len(),
{
    let s = p + seq![x] + a;
    let t = p + seq![y] + b;
    if p.len() > 0 {
        order_is_by_the_first_difference(p.skip(1), x, y, a, b);
        assert(s.skip(1) =~= p.skip(1) + seq![x] + a);
        assert(t.skip(1) =~= p.skip(1) + seq![y] + b);
    }
}

/// A list of texts is viewed text by text.
pub proof fn lists_are_viewed_item_by_item(v: Seq<String>, s: Option<String>)
    ensures
        text::views(v).len() == v.len(),
        forall|i: int| 0 <= i < v.len() ==> #[trigger] text::views(v)[i] == v[i]@,
        s matches Some(t) ==> text::opt_view(s) == Some(t@),
        s is None ==> text::opt_view(s) is None,
{
}

} // verus!
