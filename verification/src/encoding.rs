//! Base64 text of bytes: padded for file contents, URL-safe for tokens.

use vstd::prelude::*;

verus! {

/// The character of a six-bit value; `plus` and `slash` stand for the last
/// two.
pub open spec fn sextet_char(v: int, plus: char, slash: char) -> char {
    if v < 26 {
        ('A' as int + v) as char
    } else if v < 52 {
        ('a' as int + v - 26) as char
    } else if v < 62 {
        ('0' as int + v - 52) as char
    } else if v == 62 {
        plus
    } else {
        slash
    }
}

/// The six-bit values of bytes, most significant bits first, the last one
/// filled up with zero bits.
pub open spec fn sextets(bytes: Seq<u8>) -> Seq<int>
    decreases bytes.len(),
{
    if bytes.len() == 0 {
        Seq::empty()
    } else if bytes.len() == 1 {
        seq![bytes[0] as int / 4, bytes[0] as int % 4 * 16]
    } else if bytes.len() == 2 {
        seq![
            bytes[0] as int / 4,
            bytes[0] as int % 4 * 16 + bytes[1] as int / 16,
            bytes[1] as int % 16 * 4,
        ]
    } else {
        seq![
            bytes[0] as int / 4,
            bytes[0] as int % 4 * 16 + bytes[1] as int / 16,
            bytes[1] as int % 16 * 4 + bytes[2] as int / 64,
            bytes[2] as int % 64,
        ] + sextets(bytes.skip(3))
    }
}

/// URL-safe base64 without padding.
pub open spec fn url_text(bytes: Seq<u8>) -> Seq<char> {
    sextets(bytes).map_values(|v: int| sextet_char(v, '-', '_'))
}

/// The padding behind the text of `len` bytes.
pub open spec fn padding(len: nat) -> Seq<char> {
    if len % 3 == 1 {
        seq!['=', '=']
    } else if len % 3 == 2 {
        seq!['=']
    } else {
        Seq::empty()
    }
}

/// Standard base64 with padding.
pub open spec fn padded_text(bytes: Seq<u8>) -> Seq<char> {
    sextets(bytes).map_values(|v: int| sextet_char(v, '+', '/')) + padding(bytes.len())
}

/// Calls `base64::Engine::encode` with the engine `URL_SAFE_NO_PAD`: the
/// URL-safe base64 text without padding.
#[verifier::external_body]
fn encode_url(bytes: &[u8]) -> (r: String)
    requires
        bytes@.len() <= usize::MAX / 8,
    ensures
        r@ == url_text(bytes@),
{
    base64::Engine::encode(&base64::engine::general_purpose::URL_SAFE_NO_PAD, bytes)
}

/// Calls `base64::Engine::encode` with the engine `STANDARD`: the base64 text
/// with padding.
#[verifier::external_body]
fn encode_padded(bytes: &[u8]) -> (r: String)
    requires
        bytes@.len() <= usize::MAX / 8,
    ensures
        r@ == padded_text(bytes@),
{
    base64::Engine::encode(&base64::engine::general_purpose::STANDARD, bytes)
}

/// Calls `base64::Engine::decode` with the engine `STANDARD`, which demands
/// canonical padding and zero filling: it gives bytes exactly for the texts
/// that encode some.
#[verifier::external_body]
fn decode_padded(text: &str) -> (r: Option<Vec<u8>>)
    ensures
        r matches Some(bytes) ==> padded_text(bytes@) == text@,
        r is None ==> forall|bytes: Seq<u8>| #[trigger] padded_text(bytes) != text@,
{
    base64::Engine::decode(&base64::engine::general_purpose::STANDARD, text).ok()
}

/// The text of bytes in a URL.
pub fn to_url(bytes: &[u8]) -> (r: String)
    requires
        bytes@.len() <= usize::MAX / 8,
    ensures
        r@ == url_text(bytes@),
{
    encode_url(bytes)
}

/// The text of file contents on the wire.
pub fn to_wire(bytes: &[u8]) -> (r: String)
    requires
        bytes@.len() <= usize::MAX / 8,
    ensures
        r@ == padded_text(bytes@),
{
    encode_padded(bytes)
}

/// File contents out of their text on the wire.
pub fn from_wire(text: &str) -> (r: Option<Vec<u8>>)
    ensures
        r matches Some(bytes) ==> padded_text(bytes@) == text@,
        r is None ==> forall|bytes: Seq<u8>| #[trigger] padded_text(bytes) != text@,
{
    decode_padded(text)
}

/// How many six-bit values bytes have, and their range.
pub proof fn sextet_facts(bytes: Seq<u8>)
    ensures
        sextets(bytes).len() == (bytes.len() * 8 + 5) / 6,
        forall|i: int| 0 <= i < sextets(bytes).len() ==> 0 <= #[trigger] sextets(bytes)[i] < 64,
    decreases bytes.len(),
{
    if bytes.len() >= 3 {
        sextet_facts(bytes.skip(3));
    }
}

/// A URL-safe text has no character that means something in a URL.
pub proof fn url_text_is_safe(bytes: Seq<u8>)
    ensures
        url_text(bytes).len() == (bytes.len() * 8 + 5) / 6,
        !url_text(bytes).contains('+'),
        !url_text(bytes).contains('/'),
        !url_text(bytes).contains('='),
{
    sextet_facts(bytes);
    let t = url_text(bytes);
    assert forall|i: int| 0 <= i < t.len() implies #[trigger] t[i] != '+' && t[i] != '/' && t[i]
        != '=' by {
        let v = sextets(bytes)[i];
        assert(0 <= v < 64);
        assert(t[i] == sextet_char(v, '-', '_'));
        char_is_ordinary(v);
    }
}

proof fn char_is_ordinary(v: int)
    requires
        0 <= v < 64,
    ensures
        sextet_char(v, '-', '_') != '+',
        sextet_char(v, '-', '_') != '/',
        sextet_char(v, '-', '_') != '=',
{
}

proof fn char_is_injective(v: int, w: int)
    requires
        0 <= v < 64,
        0 <= w < 64,
        sextet_char(v, '+', '/') == sextet_char(w, '+', '/'),
    ensures
        v == w,
{
}

proof fn sextets_injective(a: Seq<u8>, b: Seq<u8>)
    requires
        a.len() == b.len(),
        sextets(a) == sextets(b),
    ensures
        a == b,
    decreases a.len(),
{
    let x = sextets(a);
    let y = sextets(b);
    if a.len() >= 3 {
        assert(x[0] == y[0] && x[1] == y[1] && x[2] == y[2] && x[3] == y[3]);
        let p = sextets(a.skip(3));
        let q = sextets(b.skip(3));
        assert(x.len() == 4 + p.len() && y.len() == 4 + q.len());
        assert forall|i: int| 0 <= i < p.len() implies p[i] == q[i] by {
            assert(x[i + 4] == p[i]);
            assert(y[i + 4] == q[i]);
        }
        assert(p =~= q);
        sextets_injective(a.skip(3), b.skip(3));
        assert forall|i: int| 0 <= i < a.len() implies a[i] == b[i] by {
            if i >= 3 {
                assert(a[i] == a.skip(3)[i - 3]);
                assert(b[i] == b.skip(3)[i - 3]);
            }
        }
    } else if a.len() == 2 {
        assert(x[0] == y[0] && x[1] == y[1] && x[2] == y[2]);
    } else if a.len() == 1 {
        assert(x[0] == y[0] && x[1] == y[1]);
    }
    assert(a =~= b);
}

proof fn no_pad_char(v: int)
    requires
        0 <= v < 64,
    ensures
        sextet_char(v, '+', '/') != '=',
{
}

/// Different contents have different texts: what a reader decodes from a
/// written text is what was written.
pub proof fn wire_text_is_faithful(a: Seq<u8>, b: Seq<u8>)
    requires
        padded_text(a) == padded_text(b),
    ensures
        a == b,
{
    sextet_facts(a);
    sextet_facts(b);
    let x = padded_text(a);
    let y = padded_text(b);
    let m = sextets(a).len() as int;
    let n = sextets(b).len() as int;
    let p = sextets(a).map_values(|v: int| sextet_char(v, '+', '/'));
    let q = sextets(b).map_values(|v: int| sextet_char(v, '+', '/'));
    assert forall|i: int| 0 <= i < m implies #[trigger] x[i] != '=' && x[i] == p[i] by {
        no_pad_char(sextets(a)[i]);
        assert(p[i] == sextet_char(sextets(a)[i], '+', '/'));
    }
    assert forall|i: int| 0 <= i < n implies #[trigger] y[i] != '=' && y[i] == q[i] by {
        no_pad_char(sextets(b)[i]);
        assert(q[i] == sextet_char(sextets(b)[i], '+', '/'));
    }
    assert(m == n) by {
        if m < n {
            assert(x[m] == y[m]);
            assert(x[m] == padding(a.len())[0]);
        } else if n < m {
            assert(x[n] == y[n]);
            assert(y[n] == padding(b.len())[0]);
        }
    }
    assert(a.len() == b.len());
    assert forall|i: int| 0 <= i < m implies sextets(a)[i] == sextets(b)[i] by {
        assert(x[i] == y[i]);
        assert(p[i] == q[i]);
        char_is_injective(sextets(a)[i], sextets(b)[i]);
    }
    assert(sextets(a) =~= sextets(b));
    sextets_injective(a, b);
}

} // verus!
