//! Text primitives: comparison, trimming, splitting and number formats.
//!
//! A string is modelled by its sequence of characters.

use vstd::prelude::*;
use vstd::utf8::encode_utf8;

verus! {

/// `String::push` appends one character to the end of the string.
pub assume_specification[ String::push ](s: &mut String, c: char)
    ensures
        final(s)@ == old(s)@.push(c),
;

/// Characters with the Unicode `White_Space` property.
pub open spec fn is_space(c: char) -> bool {
    let u = c as u32;
    ||| 0x09 <= u <= 0x0d
    ||| u == 0x20
    ||| u == 0x85
    ||| u == 0xa0
    ||| u == 0x1680
    ||| 0x2000 <= u <= 0x200a
    ||| u == 0x2028
    ||| u == 0x2029
    ||| u == 0x202f
    ||| u == 0x205f
    ||| u == 0x3000
}

/// Tells whether a character is white space.
pub fn space(c: char) -> (r: bool)
    ensures
        r == is_space(c),
{
    let u: u32 = c as u32;
    (0x09 <= u && u <= 0x0d) || u == 0x20 || u == 0x85 || u == 0xa0 || u == 0x1680 || (0x2000 <= u
        && u <= 0x200a) || u == 0x2028 || u == 0x2029 || u == 0x202f || u == 0x205f || u == 0x3000
}

/// The characters of a string.
pub fn chars_of(s: &str) -> (r: Vec<char>)
    ensures
        r@ == s@,
{
    let mut out: Vec<char> = Vec::new();
    for c in it: s.chars()
        invariant
            out@ == it.seq().take(it.index() as int),
            it.seq() == s@,
    {
        out.push(c);
    }
    out
}

/// Compares two strings.
pub fn same(a: &str, b: &str) -> (r: bool)
    ensures
        r == (a@ == b@),
{
    let x: &[u8] = a.as_bytes();
    let y: &[u8] = b.as_bytes();
    proof {
        vstd::utf8::encode_utf8_decode_utf8(a@);
        vstd::utf8::encode_utf8_decode_utf8(b@);
    }
    if x.len() != y.len() {
        return false;
    }
    let mut i: usize = 0;
    while i < x.len()
        invariant
            i <= x@.len(),
            x@.len() == y@.len(),
            x@ == encode_utf8(a@),
            y@ == encode_utf8(b@),
            forall|j: int| 0 <= j < i ==> x@[j] == y@[j],
        decreases x.len() - i,
    {
        if x[i] != y[i] {
            return false;
        }
        i += 1;
    }
    assert(x@ =~= y@);
    true
}

/// The length of the longest prefix of `s` whose characters all satisfy `p`.
pub open spec fn run_len(s: Seq<char>, p: spec_fn(char) -> bool) -> int
    decreases s.len(),
{
    if s.len() > 0 && p(s[0]) {
        1 + run_len(s.skip(1), p)
    } else {
        0
    }
}

/// What identifies the longest prefix: every character in it satisfies `p`,
/// and the one behind it, if there is one, does not.
pub proof fn run_len_is(s: Seq<char>, p: spec_fn(char) -> bool, n: int)
    requires
        0 <= n <= s.len(),
        forall|i: int| 0 <= i < n ==> p(#[trigger] s[i]),
        n == s.len() || !p(s[n]),
    ensures
        run_len(s, p) == n,
    decreases n,
{
    if n > 0 {
        assert(p(s[0]));
        let t = s.skip(1);
        assert forall|i: int| 0 <= i < n - 1 implies p(#[trigger] t[i]) by {
            assert(t[i] == s[i + 1]);
        }
        if n < s.len() {
            assert(t[n - 1] == s[n]);
        }
        run_len_is(t, p, n - 1);
    }
}

/// Bounds and meaning of the longest prefix.
pub proof fn run_len_bounds(s: Seq<char>, p: spec_fn(char) -> bool)
    ensures
        0 <= run_len(s, p) <= s.len(),
        forall|i: int| 0 <= i < run_len(s, p) ==> p(#[trigger] s[i]),
        run_len(s, p) < s.len() ==> !p(s[run_len(s, p)]),
    decreases s.len(),
{
    if s.len() > 0 && p(s[0]) {
        let t = s.skip(1);
        run_len_bounds(t, p);
        assert forall|i: int| 0 <= i < run_len(s, p) implies p(#[trigger] s[i]) by {
            if i > 0 {
                assert(s[i] == t[i - 1]);
            }
        }
        if run_len(s, p) < s.len() {
            assert(s[run_len(s, p)] == t[run_len(t, p)]);
        }
    }
}

/// `s` without its leading characters that satisfy `p`.
pub open spec fn drop_front(s: Seq<char>, p: spec_fn(char) -> bool) -> Seq<char> {
    s.skip(run_len(s, p))
}

/// `s` without its trailing characters that satisfy `p`.
pub open spec fn drop_back(s: Seq<char>, p: spec_fn(char) -> bool) -> Seq<char>
    decreases s.len(),
{
    if s.len() > 0 && p(s.last()) {
        drop_back(s.drop_last(), p)
    } else {
        s
    }
}

/// What identifies `drop_back`: a prefix behind which every character
/// satisfies `p` and whose own last character does not.
pub proof fn drop_back_is(s: Seq<char>, p: spec_fn(char) -> bool, n: int)
    requires
        0 <= n <= s.len(),
        forall|i: int| n <= i < s.len() ==> p(#[trigger] s[i]),
        n == 0 || !p(s[n - 1]),
    ensures
        drop_back(s, p) == s.take(n),
    decreases s.len(),
{
    if n < s.len() {
        assert(p(s[s.len() - 1]));
        let t = s.drop_last();
        drop_back_is(t, p, n);
        assert(t.take(n) =~= s.take(n));
    } else {
        assert(s.take(n) =~= s);
    }
}

/// The predicate "is white space".
pub open spec fn spacep() -> spec_fn(char) -> bool {
    |c: char| is_space(c)
}

/// The predicate "is not white space".
pub open spec fn inkp() -> spec_fn(char) -> bool {
    |c: char| !is_space(c)
}

/// The predicate "is the character `x`".
pub open spec fn isp(x: char) -> spec_fn(char) -> bool {
    |c: char| c == x
}

/// The predicate "is not the character `x`".
pub open spec fn notp(x: char) -> spec_fn(char) -> bool {
    |c: char| c != x
}

/// `s` without leading and trailing white space.
pub open spec fn trimmed(s: Seq<char>) -> Seq<char> {
    drop_back(drop_front(s, spacep()), spacep())
}

/// A copy of the characters of `cs` from `from` up to `to`.
pub fn piece(cs: &Vec<char>, from: usize, to: usize) -> (r: String)
    requires
        from <= to <= cs@.len(),
    ensures
        r@ == cs@.subrange(from as int, to as int),
{
    let mut s = String::new();
    let mut i: usize = from;
    while i < to
        invariant
            from <= i <= to <= cs@.len(),
            s@ == cs@.subrange(from as int, i as int),
        decreases to - i,
    {
        s.push(cs[i]);
        i += 1;
        assert(cs@.subrange(from as int, i as int) =~= cs@.subrange(from as int, i - 1).push(
            cs@[i - 1],
        ));
    }
    s
}

/// Removes leading and trailing white space.
pub fn trim(s: &str) -> (r: String)
    ensures
        r@ == trimmed(s@),
{
    let cs = chars_of(s);
    let mut a: usize = 0;
    while a < cs.len() && space(cs[a])
        invariant
            a <= cs@.len(),
            forall|i: int| 0 <= i < a ==> is_space(#[trigger] cs@[i]),
        decreases cs.len() - a,
    {
        a += 1;
    }
    let mut b: usize = cs.len();
    while b > a && space(cs[b - 1])
        invariant
            a <= b <= cs@.len(),
            forall|i: int| b <= i < cs@.len() ==> is_space(#[trigger] cs@[i]),
        decreases b,
    {
        b -= 1;
    }
    proof {
        run_len_is(cs@, spacep(), a as int);
        let t = cs@.skip(a as int);
        assert forall|i: int| b - a <= i < t.len() implies spacep()(#[trigger] t[i]) by {
            assert(t[i] == cs@[i + a]);
        }
        if b > a {
            assert(t[b - a - 1] == cs@[b - 1]);
        }
        drop_back_is(t, spacep(), b - a);
        assert(t.take(b - a) =~= cs@.subrange(a as int, b as int));
    }
    piece(&cs, a, b)
}

/// Removes every leading occurrence of `x`.
pub fn trim_start_char(s: &str, x: char) -> (r: String)
    ensures
        r@ == drop_front(s@, isp(x)),
{
    let cs = chars_of(s);
    let mut a: usize = 0;
    while a < cs.len() && cs[a] == x
        invariant
            a <= cs@.len(),
            forall|i: int| 0 <= i < a ==> #[trigger] cs@[i] == x,
        decreases cs.len() - a,
    {
        a += 1;
    }
    proof {
        run_len_is(cs@, isp(x), a as int);
        assert(cs@.skip(a as int) =~= cs@.subrange(a as int, cs@.len() as int));
    }
    piece(&cs, a, cs.len())
}

/// Removes every trailing occurrence of `x`.
pub fn trim_end_char(s: &str, x: char) -> (r: String)
    ensures
        r@ == drop_back(s@, isp(x)),
{
    let cs = chars_of(s);
    let mut b: usize = cs.len();
    while b > 0 && cs[b - 1] == x
        invariant
            b <= cs@.len(),
            forall|i: int| b <= i < cs@.len() ==> #[trigger] cs@[i] == x,
        decreases b,
    {
        b -= 1;
    }
    proof {
        drop_back_is(cs@, isp(x), b as int);
        assert(cs@.take(b as int) =~= cs@.subrange(0, b as int));
    }
    piece(&cs, 0, b)
}

/// Whether `s` begins with `p`.
pub open spec fn has_prefix(s: Seq<char>, p: Seq<char>) -> bool {
    p.len() <= s.len() && s.take(p.len() as int) == p
}

/// What follows the prefix `p` in `s`, if `s` begins with it.
pub open spec fn after_prefix(s: Seq<char>, p: Seq<char>) -> Option<Seq<char>> {
    if has_prefix(s, p) {
        Some(s.skip(p.len() as int))
    } else {
        None
    }
}

/// The view of an optional string.
pub open spec fn opt_view(s: Option<String>) -> Option<Seq<char>> {
    match s {
        Some(t) => Some(t@),
        None => None,
    }
}

/// The view of an optional borrowed string.
pub open spec fn opt_str(s: Option<&str>) -> Option<Seq<char>> {
    match s {
        Some(t) => Some(t@),
        None => None,
    }
}

/// The views of a list of strings.
pub open spec fn views(v: Seq<String>) -> Seq<Seq<char>> {
    Seq::new(v.len(), |i: int| v[i]@)
}

/// Removes the prefix `p`, if `s` begins with it.
pub fn strip_prefix(s: &str, p: &str) -> (r: Option<String>)
    ensures
        opt_view(r) == after_prefix(s@, p@),
{
    let cs = chars_of(s);
    let ps = chars_of(p);
    if ps.len() > cs.len() {
        return None;
    }
    let mut i: usize = 0;
    while i < ps.len()
        invariant
            i <= ps@.len() <= cs@.len(),
            forall|j: int| 0 <= j < i ==> cs@[j] == ps@[j],
            cs@ == s@,
            ps@ == p@,
        decreases ps.len() - i,
    {
        if cs[i] != ps[i] {
            assert(s@.take(p@.len() as int)[i as int] != p@[i as int]);
            return None;
        }
        i += 1;
    }
    assert(s@.take(p@.len() as int) =~= p@);
    assert(s@.skip(p@.len() as int) =~= s@.subrange(p@.len() as int, s@.len() as int));
    Some(piece(&cs, ps.len(), cs.len()))
}

/// Whether the first character of `s` is `x`.
pub fn starts_with_char(s: &str, x: char) -> (r: bool)
    ensures
        r == (s@.len() > 0 && s@[0] == x),
{
    let cs = chars_of(s);
    cs.len() > 0 && cs[0] == x
}

/// Whether `needle` occurs in `s` at position `i`.
pub open spec fn occurs_at(s: Seq<char>, needle: Seq<char>, i: int) -> bool {
    0 <= i && i + needle.len() <= s.len() && s.subrange(i, i + needle.len()) == needle
}

/// Whether `needle` occurs anywhere in `s`.
pub open spec fn occurs(s: Seq<char>, needle: Seq<char>) -> bool {
    exists|i: int| occurs_at(s, needle, i)
}

/// Looks for `needle` in `s`.
pub fn contains(s: &str, needle: &str) -> (r: bool)
    ensures
        r == occurs(s@, needle@),
{
    let cs = chars_of(s);
    let ns = chars_of(needle);
    if ns.len() > cs.len() {
        return false;
    }
    let mut i: usize = 0;
    while i <= cs.len() - ns.len()
        invariant
            ns@.len() <= cs@.len(),
            i <= cs@.len() - ns@.len() + 1,
            cs@ == s@,
            ns@ == needle@,
            forall|k: int| 0 <= k < i ==> !occurs_at(s@, needle@, k),
        decreases cs.len() - ns.len() + 1 - i,
    {
        let mut j: usize = 0;
        while j < ns.len() && cs[i + j] == ns[j]
            invariant
                j <= ns@.len(),
                i + ns@.len() <= cs.len(),
                forall|k: int| 0 <= k < j ==> cs@[i + k] == ns@[k],
            decreases ns.len() - j,
        {
            j += 1;
        }
        if j == ns.len() {
            assert(s@.subrange(i as int, i + needle@.len()) =~= needle@);
            assert(occurs_at(s@, needle@, i as int));
            return true;
        }
        assert(s@.subrange(i as int, i + needle@.len())[j as int] != needle@[j as int]);
        i += 1;
    }
    false
}

/// Whether the character `x` occurs in `s`.
pub fn contains_char(s: &str, x: char) -> (r: bool)
    ensures
        r == s@.contains(x),
{
    let cs = chars_of(s);
    let mut i: usize = 0;
    while i < cs.len()
        invariant
            i <= cs@.len(),
            cs@ == s@,
            forall|k: int| 0 <= k < i ==> cs@[k] != x,
        decreases cs.len() - i,
    {
        if cs[i] == x {
            assert(s@[i as int] == x);
            return true;
        }
        i += 1;
    }
    false
}

/// The maximal runs of non-space characters of `s`, in order.
pub open spec fn words_of(s: Seq<char>) -> Seq<Seq<char>>
    decreases s.len(),
    when true
    via words_of_decreases
{
    let t = drop_front(s, spacep());
    if t.len() == 0 {
        Seq::empty()
    } else {
        let n = run_len(t, inkp());
        seq![t.take(n)] + words_of(t.skip(n))
    }
}

#[via_fn]
proof fn words_of_decreases(s: Seq<char>) {
    run_len_bounds(s, spacep());
    let t = drop_front(s, spacep());
    run_len_bounds(t, inkp());
    if t.len() > 0 {
        assert(inkp()(t[0]));
        assert(run_len(t, inkp()) >= 1);
    }
}

/// Splits `s` at white space.
pub fn words(s: &str) -> (r: Vec<String>)
    ensures
        views(r@) == words_of(s@),
{
    let cs = chars_of(s);
    let mut out: Vec<String> = Vec::new();
    let mut i: usize = 0;
    assert(cs@.skip(0) =~= cs@);
    assert(views(out@) + words_of(cs@.skip(0)) =~= words_of(cs@));
    loop
        invariant
            i <= cs@.len(),
            cs@ == s@,
            views(out@) + words_of(cs@.skip(i as int)) == words_of(cs@),
        ensures
            views(out@) == words_of(cs@),
        decreases cs.len() - i,
    {
        let ghost rest = cs@.skip(i as int);
        let ghost before = out@;
        let mut a: usize = i;
        while a < cs.len() && space(cs[a])
            invariant
                i <= a <= cs@.len(),
                forall|k: int| i <= k < a ==> is_space(#[trigger] cs@[k]),
            decreases cs.len() - a,
        {
            a += 1;
        }
        proof {
            assert forall|k: int| 0 <= k < a - i implies spacep()(#[trigger] rest[k]) by {
                assert(rest[k] == cs@[k + i]);
            }
            if a < cs@.len() {
                assert(rest[a - i] == cs@[a as int]);
            }
            run_len_is(rest, spacep(), a - i);
            assert(drop_front(rest, spacep()) =~= cs@.skip(a as int));
        }
        if a == cs.len() {
            assert(words_of(rest) =~= Seq::empty());
            assert(views(out@) + words_of(rest) =~= views(out@));
            break;
        }
        let mut b: usize = a;
        while b < cs.len() && !space(cs[b])
            invariant
                a <= b <= cs@.len(),
                forall|k: int| a <= k < b ==> !is_space(#[trigger] cs@[k]),
            decreases cs.len() - b,
        {
            b += 1;
        }
        let w = piece(&cs, a, b);
        out.push(w);
        proof {
            let t = cs@.skip(a as int);
            assert forall|k: int| 0 <= k < b - a implies inkp()(#[trigger] t[k]) by {
                assert(t[k] == cs@[k + a]);
            }
            if b < cs@.len() {
                assert(t[b - a] == cs@[b as int]);
            }
            run_len_is(t, inkp(), b - a);
            assert(t.take(b - a) =~= cs@.subrange(a as int, b as int));
            assert(t.skip(b - a) =~= cs@.skip(b as int));
            assert(words_of(rest) == seq![w@] + words_of(cs@.skip(b as int)));
            assert(views(out@) =~= views(before) + seq![w@]);
            assert(views(out@) + words_of(cs@.skip(b as int)) =~= views(before) + words_of(rest));
        }
        i = b;
    }
    out
}

/// A line without the carriage return in front of its line feed.
pub open spec fn without_cr(s: Seq<char>) -> Seq<char> {
    if s.len() > 0 && s.last() == '\r' {
        s.drop_last()
    } else {
        s
    }
}

/// The lines of `s`. A line ends at a line feed, or at a carriage return
/// directly followed by one; what follows the last line feed is a line too,
/// unless it is empty.
pub open spec fn lines_of(s: Seq<char>) -> Seq<Seq<char>>
    decreases s.len(),
    when true
    via lines_of_decreases
{
    let n = run_len(s, notp('\n'));
    if s.len() == 0 {
        Seq::empty()
    } else if n == s.len() {
        seq![s]
    } else {
        seq![without_cr(s.take(n))] + lines_of(s.skip(n + 1))
    }
}

#[via_fn]
proof fn lines_of_decreases(s: Seq<char>) {
    run_len_bounds(s, notp('\n'));
}

/// Splits `s` into lines.
pub fn lines(s: &str) -> (r: Vec<String>)
    ensures
        views(r@) == lines_of(s@),
{
    let cs = chars_of(s);
    let mut out: Vec<String> = Vec::new();
    let mut i: usize = 0;
    assert(cs@.skip(0) =~= cs@);
    assert(views(out@) + lines_of(cs@.skip(0)) =~= lines_of(cs@));
    while i < cs.len()
        invariant
            i <= cs@.len(),
            cs@ == s@,
            views(out@) + lines_of(cs@.skip(i as int)) == lines_of(cs@),
        decreases cs.len() - i,
    {
        let ghost rest = cs@.skip(i as int);
        let ghost before = out@;
        let mut n: usize = i;
        while n < cs.len() && cs[n] != '\n'
            invariant
                i <= n <= cs@.len(),
                forall|k: int| i <= k < n ==> #[trigger] cs@[k] != '\n',
            decreases cs.len() - n,
        {
            n += 1;
        }
        proof {
            assert forall|k: int| 0 <= k < n - i implies notp('\n')(#[trigger] rest[k]) by {
                assert(rest[k] == cs@[k + i]);
            }
            if n < cs@.len() {
                assert(rest[n - i] == cs@[n as int]);
            }
            run_len_is(rest, notp('\n'), n - i);
        }
        if n == cs.len() {
            let w = piece(&cs, i, n);
            out.push(w);
            i = n;
            proof {
                assert(rest =~= cs@.subrange(rest_start(cs@, rest), n as int));
                assert(w@ =~= rest);
                assert(views(out@) =~= views(before) + seq![rest]);
                assert(cs@.skip(n as int).len() == 0);
                assert(lines_of(cs@.skip(n as int)) =~= Seq::empty());
                assert(views(out@) + lines_of(cs@.skip(n as int)) =~= views(before) + lines_of(
                    rest,
                ));
            }
        } else {
            let end: usize = if n > i && cs[n - 1] == '\r' {
                n - 1
            } else {
                n
            };
            let w = piece(&cs, i, end);
            out.push(w);
            proof {
                let line = rest.take(n - i);
                if n > i {
                    assert(line.last() == cs@[n - 1]);
                }
                assert(w@ =~= without_cr(line));
                assert(rest.skip(n - i + 1) =~= cs@.skip(n + 1));
                assert(views(out@) =~= views(before) + seq![w@]);
                assert(views(out@) + lines_of(cs@.skip(n + 1)) =~= views(before) + lines_of(rest));
            }
            i = n + 1;
        }
    }
    proof {
        assert(cs@.skip(i as int).len() == 0);
        assert(views(out@) + lines_of(cs@.skip(i as int)) =~= views(out@));
    }
    out
}

/// Where a suffix of `s` begins.
spec fn rest_start(s: Seq<char>, rest: Seq<char>) -> int {
    s.len() - rest.len()
}

/// Whether `c` is one of `0` to `9`.
pub open spec fn is_digit(c: char) -> bool {
    '0' <= c <= '9'
}

/// The number that a string of decimal digits writes.
pub open spec fn digits_value(s: Seq<char>) -> nat
    decreases s.len(),
{
    if s.len() == 0 {
        0
    } else {
        digits_value(s.drop_last()) * 10 + (s.last() as nat - '0' as nat) as nat
    }
}

/// `s` without the `+` in front, if there is one.
pub open spec fn unsigned_part(s: Seq<char>) -> Seq<char> {
    if s.len() > 0 && s[0] == '+' {
        s.skip(1)
    } else {
        s
    }
}

/// Whether `s` is made of decimal digits only.
pub open spec fn all_digits(s: Seq<char>) -> bool {
    forall|i: int| 0 <= i < s.len() ==> is_digit(#[trigger] s[i])
}

/// A number up to `max`, written as an optional `+` and one or more digits.
pub open spec fn number_of(s: Seq<char>, max: nat) -> Option<nat> {
    let d = unsigned_part(s);
    if d.len() > 0 && all_digits(d) && digits_value(d) <= max {
        Some(digits_value(d))
    } else {
        None
    }
}

proof fn digits_value_grows(s: Seq<char>, n: int)
    requires
        0 <= n <= s.len(),
    ensures
        digits_value(s.take(n)) <= digits_value(s),
    decreases s.len() - n,
{
    if n < s.len() {
        digits_value_grows(s, n + 1);
        assert(s.take(n + 1).drop_last() =~= s.take(n));
    } else {
        assert(s.take(n) =~= s);
    }
}

/// Parses a decimal number that is at most `max`.
pub fn parse_number(s: &str, max: u64) -> (r: Option<u64>)
    ensures
        r is Some <==> number_of(s@, max as nat) is Some,
        r matches Some(n) ==> number_of(s@, max as nat) == Some(n as nat),
{
    let cs = chars_of(s);
    let start: usize = if cs.len() > 0 && cs[0] == '+' {
        1
    } else {
        0
    };
    let ghost d = cs@.skip(start as int);
    assert(start == 0 ==> d =~= cs@);
    if start == cs.len() {
        return None;
    }
    let mut i: usize = start;
    let mut value: u64 = 0;
    assert(d.take(0) =~= Seq::empty());
    while i < cs.len()
        invariant
            start <= i <= cs@.len(),
            cs@ == s@,
            d == cs@.skip(start as int),
            d == unsigned_part(s@),
            value as nat == digits_value(d.take(i - start)),
            value <= max,
            forall|k: int| 0 <= k < i - start ==> is_digit(#[trigger] d[k]),
        decreases cs.len() - i,
    {
        let c: char = cs[i];
        assert(d[i - start] == c);
        if !('0' <= c && c <= '9') {
            assert(!is_digit(d[i - start]));
            return None;
        }
        let digit: u64 = c as u64 - '0' as u64;
        proof {
            assert(d.take(i - start + 1).drop_last() =~= d.take(i - start));
            assert(digits_value(d.take(i - start + 1)) == value * 10 + digit);
            digits_value_grows(d, i - start + 1);
        }
        match value.checked_mul(10) {
            None => {
                return None;
            },
            Some(tens) => match tens.checked_add(digit) {
                None => {
                    return None;
                },
                Some(next) => {
                    if next > max {
                        return None;
                    }
                    value = next;
                },
            },
        }
        i += 1;
    }
    assert(d.take(i - start) =~= d);
    Some(value)
}

/// The decimal digits of `n`, without leading zeros.
pub open spec fn decimal_of(n: nat) -> Seq<char>
    decreases n,
{
    let digit = ('0' as nat + n % 10) as char;
    if n < 10 {
        seq![digit]
    } else {
        decimal_of(n / 10).push(digit)
    }
}

/// The decimal digits of an integer, behind a `-` when it is negative.
pub open spec fn signed_decimal_of(n: int) -> Seq<char> {
    if n < 0 {
        seq!['-'] + decimal_of((-n) as nat)
    } else {
        decimal_of(n as nat)
    }
}

/// Writes `n` in decimal.
pub fn decimal(n: u128) -> (r: String)
    ensures
        r@ == decimal_of(n as nat),
    decreases n,
{
    let digit: char = (48u8 + (n % 10) as u8) as char;
    let mut s = if n < 10 {
        String::new()
    } else {
        decimal(n / 10)
    };
    s.push(digit);
    assert(n < 10 ==> s@ =~= decimal_of(n as nat));
    s
}

/// Writes a signed `n` in decimal.
pub fn signed_decimal(n: i64) -> (r: String)
    ensures
        r@ == signed_decimal_of(n as int),
{
    if n < 0 {
        let mut s = String::new();
        s.push('-');
        let d = decimal((-(n as i128)) as u128);
        s.append(d.as_str());
        assert(s@ =~= seq!['-'] + decimal_of((-(n as int)) as nat));
        s
    } else {
        decimal(n as u128)
    }
}

/// Reading a written number gives the number back.
pub proof fn decimal_reads_back(n: nat)
    ensures
        decimal_of(n).len() > 0,
        forall|i: int| 0 <= i < decimal_of(n).len() ==> is_digit(#[trigger] decimal_of(n)[i]),
        digits_value(decimal_of(n)) == n,
        number_of(decimal_of(n), n) == Some(n),
    decreases n,
{
    let digit = ('0' as nat + n % 10) as char;
    if n < 10 {
        assert(decimal_of(n).drop_last() =~= Seq::empty());
    } else {
        decimal_reads_back(n / 10);
        assert(decimal_of(n).drop_last() =~= decimal_of(n / 10));
    }
    assert(decimal_of(n).last() == digit);
    assert(digit as nat == '0' as nat + n % 10);
    assert(digits_value(decimal_of(n)) == digits_value(decimal_of(n).drop_last()) * 10 + n % 10);
    assert(is_digit(decimal_of(n)[0]));
}

/// The parts of a list joined with `sep` between neighbours.
pub open spec fn joined(parts: Seq<Seq<char>>, sep: Seq<char>) -> Seq<char>
    decreases parts.len(),
{
    if parts.len() == 0 {
        Seq::empty()
    } else if parts.len() == 1 {
        parts[0]
    } else {
        joined(parts.drop_last(), sep) + sep + parts.last()
    }
}

/// Joins strings with `sep` between neighbours.
pub fn join(parts: &Vec<String>, sep: &str) -> (r: String)
    ensures
        r@ == joined(views(parts@), sep@),
{
    let mut s = String::new();
    let mut i: usize = 0;
    let ghost all = views(parts@);
    assert(all.take(0) =~= Seq::empty());
    while i < parts.len()
        invariant
            i <= parts@.len(),
            all == views(parts@),
            s@ == joined(all.take(i as int), sep@),
        decreases parts.len() - i,
    {
        if i > 0 {
            s.append(sep);
        }
        s.append(parts[i].as_str());
        proof {
            assert(all.take(i + 1).drop_last() =~= all.take(i as int));
            assert(s@ =~= joined(all.take(i + 1), sep@));
        }
        i += 1;
    }
    assert(all.take(i as int) =~= all);
    s
}

/// Whether a list of strings holds `x`.
pub fn list_has(list: &Vec<String>, x: &str) -> (r: bool)
    ensures
        r == views(list@).contains(x@),
{
    let mut i: usize = 0;
    while i < list.len()
        invariant
            i <= list@.len(),
            forall|k: int| 0 <= k < i ==> list@[k]@ != x@,
        decreases list.len() - i,
    {
        if same(list[i].as_str(), x) {
            assert(views(list@)[i as int] == x@);
            return true;
        }
        i += 1;
    }
    false
}

/// Calls `std::str::from_utf8`: the text that the bytes encode, if they are
/// valid UTF-8.
#[verifier::external_body]
pub(crate) fn utf8_str(bytes: &[u8]) -> (r: Option<&str>)
    ensures
        r is Some <==> vstd::utf8::valid_utf8(bytes@),
        r matches Some(s) ==> s@ == vstd::utf8::decode_utf8(bytes@),
{
    match std::str::from_utf8(bytes) {
        Ok(s) => Some(s),
        Err(_) => None,
    }
}

/// `char::from_u32` returns the character with this code, if it is the code of
/// one: surrogates and codes above the last are not.
pub assume_specification[ char::from_u32 ](code: u32) -> (r: Option<char>)
    ensures
        r is Some <==> code < 0xD800 || 0xE000 <= code <= 0x10FFFF,
        r matches Some(c) ==> c as u32 == code,
;

/// Whether `a` comes before `b`: at the first difference by the code of the
/// character, a beginning before what it begins.
pub open spec fn lex_less(a: Seq<char>, b: Seq<char>) -> bool
    decreases a.len(),
{
    if b.len() == 0 {
        false
    } else if a.len() == 0 {
        true
    } else if a[0] != b[0] {
        a[0] < b[0]
    } else {
        lex_less(a.skip(1), b.skip(1))
    }
}

/// Two different strings stand in one order, and only in one.
pub proof fn lex_total(a: Seq<char>, b: Seq<char>)
    ensures
        lex_less(a, b) || lex_less(b, a) || a == b,
        !(lex_less(a, b) && lex_less(b, a)),
        !lex_less(a, a),
    decreases a.len(),
{
    if a.len() > 0 {
        lex_total(a.skip(1), b.skip(1));
    }
    if a.len() > 0 && b.len() > 0 && a[0] == b[0] {
        if a.skip(1) == b.skip(1) {
            assert(a =~= seq![a[0]] + a.skip(1));
            assert(b =~= seq![b[0]] + b.skip(1));
        }
    } else if a.len() == 0 && b.len() == 0 {
        assert(a =~= b);
    }
}

/// The order of strings is transitive.
pub proof fn lex_transitive(a: Seq<char>, b: Seq<char>, c: Seq<char>)
    requires
        lex_less(a, b),
        lex_less(b, c),
    ensures
        lex_less(a, c),
    decreases a.len(),
{
    if a.len() > 0 && a[0] == b[0] && b[0] == c[0] {
        lex_transitive(a.skip(1), b.skip(1), c.skip(1));
    }
}

/// Whether `a` comes before `b`.
pub fn less(a: &str, b: &str) -> (r: bool)
    ensures
        r == lex_less(a@, b@),
{
    let x = chars_of(a);
    let y = chars_of(b);
    let mut i: usize = 0;
    assert(x@.skip(0) =~= x@);
    assert(y@.skip(0) =~= y@);
    while i < x.len() && i < y.len() && x[i] == y[i]
        invariant
            i <= x@.len(),
            i <= y@.len(),
            lex_less(x@.skip(i as int), y@.skip(i as int)) == lex_less(x@, y@),
        decreases x.len() - i,
    {
        assert(x@.skip(i as int)[0] == x@[i as int]);
        assert(y@.skip(i as int)[0] == y@[i as int]);
        assert(x@.skip(i as int).skip(1) =~= x@.skip(i + 1));
        assert(y@.skip(i as int).skip(1) =~= y@.skip(i + 1));
        i += 1;
    }
    if i == y.len() {
        false
    } else if i == x.len() {
        true
    } else {
        assert(x@.skip(i as int)[0] == x@[i as int]);
        assert(y@.skip(i as int)[0] == y@[i as int]);
        x[i] < y[i]
    }
}

/// A text in quotes, with what does not print escaped, as `{:?}` writes it.
pub uninterp spec fn debug_text(s: Seq<char>) -> Seq<char>;

/// Calls `Debug` of `str`: the text in quotes, with what does not print
/// escaped.
#[verifier::external_body]
pub(crate) fn debug(s: &str) -> (r: String)
    ensures
        r@ == debug_text(s@),
{
    format!("{:?}", s)
}

} // verus!
