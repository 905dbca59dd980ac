//! Reads a session's localStorage directly from Chrome's on-disk `LevelDB`.
//!
//! Runs after the browser is dead (`LevelDB` is copy-safe only then). Unlike the
//! CDP candidate-origin capture, this enumerates EVERY origin that wrote
//! localStorage, including cookieless ones. Format (Chrome 96+): a data record
//! has key `_<origin>\0<enc><key>` and value `<enc><string>`, where the encoding
//! byte is `0x01` for Latin-1 and `0x00` for UTF-16LE. `VERSION`/`META:` keys
//! are skipped.
//!
//! Partitioned (third-party) keys serialize the whole `blink::StorageKey`
//! (`https://a.com/^0https://b.com`); those are NOT plain origins and cannot be
//! replayed as first-party, so they are skipped (detected by `^`).

use crate::profile::cdp;
use crate::profile::cdp::{OriginState, StorageEntry};
use crate::text;
use vstd::prelude::*;

verus! {

/// One record of the store.
#[derive(Debug)]
pub struct Record {
    /// Its key.
    pub key: Vec<u8>,
    /// Its value.
    pub value: Vec<u8>,
}

/// Sixteen-bit units out of bytes, low byte first.
pub open spec fn units_of(bytes: Seq<u8>) -> Seq<u16> {
    Seq::new(
        bytes.len() / 2,
        |i: int| (bytes[2 * i] as int + 256 * (bytes[2 * i + 1] as int)) as u16,
    )
}

/// Whether a unit begins a surrogate pair.
pub open spec fn is_high(u: u16) -> bool {
    0xD800 <= u <= 0xDBFF
}

/// Whether a unit ends a surrogate pair.
pub open spec fn is_low(u: u16) -> bool {
    0xDC00 <= u <= 0xDFFF
}

/// The character that a surrogate pair stands for.
pub open spec fn pair_char(high: u16, low: u16) -> char {
    (0x10000 + (high - 0xD800) * 0x400 + (low - 0xDC00)) as char
}

/// `head` in front of `tail`, if there is one.
pub open spec fn in_front(head: Seq<char>, tail: Option<Seq<char>>) -> Option<Seq<char>> {
    match tail {
        Some(t) => Some(head + t),
        None => None,
    }
}

/// The text that UTF-16 units encode, if no surrogate stands alone.
pub open spec fn utf16_of(units: Seq<u16>) -> Option<Seq<char>>
    decreases units.len(),
{
    if units.len() == 0 {
        Some(Seq::empty())
    } else if !is_high(units[0]) && !is_low(units[0]) {
        in_front(seq![units[0] as char], utf16_of(units.skip(1)))
    } else if is_high(units[0]) && units.len() >= 2 && is_low(units[1]) {
        in_front(seq![pair_char(units[0], units[1])], utf16_of(units.skip(2)))
    } else {
        None
    }
}

/// The text that bytes encode in Latin-1.
pub open spec fn latin1_of(bytes: Seq<u8>) -> Seq<char> {
    Seq::new(bytes.len(), |i: int| bytes[i] as char)
}

/// The text of `<enc><bytes>`.
pub open spec fn decoded(encoded: Seq<u8>) -> Option<Seq<char>> {
    if encoded.len() == 0 {
        None
    } else {
        let bytes = encoded.skip(1);
        if encoded[0] == 0 {
            if bytes.len() % 2 != 0 {
                None
            } else {
                utf16_of(units_of(bytes))
            }
        } else if encoded[0] == 1 {
            Some(latin1_of(bytes))
        } else {
            None
        }
    }
}

/// How many bytes stand in front of the first zero, or in all.
pub open spec fn zero_at(s: Seq<u8>) -> int {
    crate::chrome::pipe::frame_len(s)
}

/// Origin and name of `_<origin>\0<enc><key>`; nothing for other keys, and for
/// partitioned ones, which hold a `^`.
pub open spec fn key_of(key: Seq<u8>) -> Option<(Seq<char>, Seq<char>)> {
    let rest = key.skip(1);
    let nul = zero_at(rest);
    if key.len() == 0 || key[0] != 0x5F || nul >= rest.len() || !vstd::utf8::valid_utf8(
        rest.take(nul),
    ) {
        None
    } else {
        let origin = vstd::utf8::decode_utf8(rest.take(nul));
        match decoded(rest.skip(nul + 1)) {
            Some(name) if !origin.contains('^') => Some((origin, name)),
            _ => None,
        }
    }
}

/// What a record says: its origin and entry, if it is a data record.
pub open spec fn record_of(r: Record) -> Option<(Seq<char>, (Seq<char>, Seq<char>))> {
    match (key_of(r.key@), decoded(r.value@)) {
        (Some((origin, name)), Some(value)) => Some((origin, (name, value))),
        _ => None,
    }
}

/// The origin that a data record names.
pub open spec fn origin_in(r: Record) -> Seq<char>
    recommends
        record_of(r) is Some,
{
    match record_of(r) {
        Some((origin, _)) => origin,
        None => Seq::empty(),
    }
}

/// The entry that a data record holds.
pub open spec fn entry_in(r: Record) -> (Seq<char>, Seq<char>)
    recommends
        record_of(r) is Some,
{
    match record_of(r) {
        Some((_, entry)) => entry,
        None => (Seq::empty(), Seq::empty()),
    }
}

/// The entries of one origin, in the order of the records.
pub open spec fn entries_of(records: Seq<Record>, origin: Seq<char>) -> Seq<(Seq<char>, Seq<char>)>
    decreases records.len(),
{
    if records.len() == 0 {
        Seq::empty()
    } else {
        let before = entries_of(records.drop_last(), origin);
        match record_of(records.last()) {
            Some((o, entry)) if o == origin => before.push(entry),
            _ => before,
        }
    }
}

/// Decodes UTF-16 units, if no surrogate stands alone.
fn decode_utf16(units: &Vec<u16>) -> (r: Option<String>)
    ensures
        text::opt_view(r) == utf16_of(units@),
{
    let mut out = String::new();
    let mut i: usize = 0;
    assert(units@.skip(0) =~= units@);
    assert(utf16_of(units@) matches Some(t) ==> out@ + t =~= t);
    while i < units.len()
        invariant
            i <= units@.len(),
            in_front(out@, utf16_of(units@.skip(i as int))) == utf16_of(units@),
        decreases units.len() - i,
    {
        let ghost rest = units@.skip(i as int);
        let ghost before = out@;
        let u: u16 = units[i];
        assert(rest[0] == u);
        if u < 0xD800 || u > 0xDFFF {
            match char::from_u32(u as u32) {
                Some(c) => {
                    out.push(c);
                    assert(rest.skip(1) =~= units@.skip(i + 1));
                    proof {
                        vstd::utf8::char_u32_cast(c, u as u32);
                        assert(c == u as char);
                    }
                    assert(utf16_of(rest) == in_front(seq![c], utf16_of(rest.skip(1))));
                    assert(forall|t: Seq<char>| before + (seq![c] + t) =~= #[trigger] (out@ + t));
                    i += 1;
                },
                None => {
                    assert(false);
                    return None;
                },
            }
        } else {
            if u > 0xDBFF || units.len() - i < 2 {
                assert(utf16_of(rest) is None);
                return None;
            }
            let v: u16 = units[i + 1];
            assert(rest[1] == v);
            if v < 0xDC00 || v > 0xDFFF {
                assert(utf16_of(rest) is None);
                return None;
            }
            let code: u32 = 0x10000 + (u as u32 - 0xD800) * 0x400 + (v as u32 - 0xDC00);
            match char::from_u32(code) {
                Some(c) => {
                    out.push(c);
                    assert(rest.skip(2) =~= units@.skip(i + 2));
                    proof {
                        vstd::utf8::char_u32_cast(c, code);
                        assert(c == pair_char(u, v));
                    }
                    assert(utf16_of(rest) == in_front(seq![c], utf16_of(rest.skip(2))));
                    assert(forall|t: Seq<char>| before + (seq![c] + t) =~= #[trigger] (out@ + t));
                    i += 2;
                },
                None => {
                    assert(false);
                    return None;
                },
            }
        }
    }
    assert(units@.skip(i as int) =~= Seq::empty());
    assert(out@ + Seq::<char>::empty() =~= out@);
    Some(out)
}

/// Decodes `<enc><bytes>`: 0x00 is UTF-16LE, 0x01 is Latin-1.
pub fn decode_string(encoded: &[u8]) -> (r: Option<String>)
    ensures
        text::opt_view(r) == decoded(encoded@),
{
    if encoded.len() == 0 {
        return None;
    }
    let ghost bytes = encoded@.skip(1);
    let n: usize = encoded.len();
    if encoded[0] == 0 {
        if (n - 1) % 2 != 0 {
            return None;
        }
        let mut units: Vec<u16> = Vec::new();
        let mut i: usize = 1;
        while i < n
            invariant
                n == encoded@.len(),
                1 <= i <= n,
                (n - 1) % 2 == 0,
                (i - 1) % 2 == 0,
                bytes == encoded@.skip(1),
                units@.len() == (i - 1) / 2,
                forall|k: int| 0 <= k < units@.len() ==> #[trigger] units@[k] == units_of(bytes)[k],
            decreases n - i,
        {
            let unit: u16 = encoded[i] as u16 + 256 * (encoded[i + 1] as u16);
            assert(bytes[i - 1] == encoded@[i as int]);
            assert(bytes[i as int] == encoded@[i + 1]);
            units.push(unit);
            i += 2;
        }
        assert(units@ =~= units_of(bytes));
        decode_utf16(&units)
    } else if encoded[0] == 1 {
        let mut out = String::new();
        let mut i: usize = 1;
        while i < n
            invariant
                n == encoded@.len(),
                1 <= i <= n,
                bytes == encoded@.skip(1),
                out@ == latin1_of(bytes).take(i - 1),
            decreases n - i,
        {
            out.push(encoded[i] as char);
            assert(latin1_of(bytes).take(i as int) =~= latin1_of(bytes).take(i - 1).push(
                encoded@[i as int] as char,
            ));
            i += 1;
        }
        assert(latin1_of(bytes).take(i - 1) =~= latin1_of(bytes));
        Some(out)
    } else {
        None
    }
}

/// Takes `_<origin>\0<enc><key>` apart. None for `VERSION`/`META`, and for
/// partitioned StorageKeys (which contain `^` and are not first-party origins
/// that can be replayed).
pub fn parse_data_key(key: &[u8]) -> (r: Option<(String, String)>)
    ensures
        r is Some <==> key_of(key@) is Some,
        r matches Some((origin, name)) ==> key_of(key@) == Some((origin@, name@)),
{
    if key.len() == 0 || key[0] != 0x5F {
        return None;
    }
    let rest = vstd::slice::slice_subrange(key, 1, key.len());
    assert(rest@ =~= key@.skip(1));
    let nul: usize = match memchr::memchr(0, rest) {
        Some(nul) => nul,
        None => {
            proof {
                assert forall|i: int| 0 <= i < rest@.len() implies #[trigger] rest@[i] != 0 by {
                    assert(rest@.contains(rest@[i]));
                }
                crate::chrome::pipe::frame_len_is(rest@, rest@.len() as int);
            }
            return None;
        },
    };
    proof {
        crate::chrome::pipe::frame_len_is(rest@, nul as int);
    }
    let head = vstd::slice::slice_subrange(rest, 0, nul);
    assert(head@ =~= rest@.take(nul as int));
    let origin = match text::utf8_str(head) {
        Some(s) => s,
        None => {
            return None;
        },
    };
    if text::contains_char(origin, '^') {
        return None;
    }
    let tail = vstd::slice::slice_subrange(rest, nul + 1, rest.len());
    assert(tail@ =~= rest@.skip(nul + 1));
    match decode_string(tail) {
        Some(name) => Some((origin.to_owned(), name)),
        None => None,
    }
}

/// What is known of the origins while records are gathered.
spec fn gathered(states: Seq<OriginState>, records: Seq<Record>) -> bool {
    &&& forall|i: int, j: int|
        0 <= i < j < states.len() ==> text::lex_less(
            (#[trigger] states[i]).origin@,
            (#[trigger] states[j]).origin@,
        )
    &&& forall|i: int|
        0 <= i < states.len() ==> cdp::entries_view((#[trigger] states[i]).local_storage@)
            == entries_of(records, states[i].origin@) && states[i].local_storage@.len() > 0
    &&& forall|origin: Seq<char>|
        #![trigger entries_of(records, origin)]
        entries_of(records, origin).len() > 0 ==> exists|i: int|
            0 <= i < states.len() && (#[trigger] states[i]).origin@ == origin
}

/// Reads localStorage for every origin out of the store's records: the origins
/// in order, each with its entries in the order of the records. Without a
/// readable store there is none.
pub fn read_local_storage(store: Option<&Vec<Record>>) -> (r: Vec<OriginState>)
    ensures
        store is None ==> r@.len() == 0,
        store matches Some(records) ==> {
            &&& forall|i: int, j: int|
                0 <= i < j < r@.len() ==> text::lex_less(
                    (#[trigger] r@[i]).origin@,
                    (#[trigger] r@[j]).origin@,
                )
            &&& forall|i: int|
                0 <= i < r@.len() ==> cdp::entries_view((#[trigger] r@[i]).local_storage@)
                    == entries_of(records@, r@[i].origin@) && r@[i].local_storage@.len() > 0
            &&& forall|origin: Seq<char>|
                #![trigger entries_of(records@, origin)]
                entries_of(records@, origin).len() > 0 ==> exists|i: int|
                    0 <= i < r@.len() && (#[trigger] r@[i]).origin@ == origin
            &&& forall|i: int|
                0 <= i < records@.len() && record_of(#[trigger] records@[i]) is Some ==> exists|
                    k: int,
                |
                    0 <= k < r@.len() && (#[trigger] r@[k]).origin@ == origin_in(records@[i]) && cdp::entries_view(r@[k].local_storage@).contains(
                        entry_in(records@[i]),
                    )
        },
{
    let mut states: Vec<OriginState> = Vec::new();
    let records = match store {
        Some(records) => records,
        None => {
            return states;
        },
    };
    let mut n: usize = 0;
    assert(records@.take(0) =~= Seq::empty());
    while n < records.len()
        invariant
            n <= records@.len(),
            gathered(states@, records@.take(n as int)),
        decreases records.len() - n,
    {
        let ghost before = records@.take(n as int);
        let ghost after = records@.take(n + 1);
        proof {
            assert(after.drop_last() =~= before);
            assert(after.last() == records@[n as int]);
        }
        let parsed = parse_data_key(records[n].key.as_slice());
        let value = decode_string(records[n].value.as_slice());
        match (parsed, value) {
            (Some((origin, name)), Some(value)) => {
                let entry = StorageEntry { name, value };
                add_entry(&mut states, origin, entry, Ghost(before), Ghost(after));
            },
            _ => {
                proof {
                    assert(record_of(records@[n as int]) is None);
                    assert forall|origin: Seq<char>|
                        #![trigger entries_of(after, origin)]
                        #![trigger entries_of(before, origin)]
                        entries_of(after, origin) == entries_of(before, origin) by {}
                    assert(gathered(states@, after));
                }
            },
        }
        n += 1;
    }
    assert(records@.take(n as int) =~= records@);
    proof {
        assert forall|i: int| 0 <= i < records@.len() && record_of(#[trigger] records@[i]) is Some implies
            exists|k: int|
            0 <= k < states@.len() && (#[trigger] states@[k]).origin@ == origin_in(records@[i]) && cdp::entries_view(states@[k].local_storage@).contains(
                entry_in(records@[i]),
            ) by {
            let origin = origin_in(records@[i]);
            every_record_is_read(records@, origin);
            assert(entries_of(records@, origin).contains(entry_in(records@[i])));
            let k = choose|k: int| 0 <= k < states@.len() && (#[trigger] states@[k]).origin@ == origin;
            assert(cdp::entries_view(states@[k].local_storage@) == entries_of(records@, origin));
        }
    }
    states
}

/// Adds one entry to the origin it belongs to.
fn add_entry(
    states: &mut Vec<OriginState>,
    origin: String,
    entry: StorageEntry,
    Ghost(before): Ghost<Seq<Record>>,
    Ghost(after): Ghost<Seq<Record>>,
)
    requires
        gathered(old(states)@, before),
        after.len() > 0,
        after.drop_last() == before,
        record_of(after.last()) == Some((origin@, entry@)),
    ensures
        gathered(final(states)@, after),
{
    let ghost s0 = states@;
    let ghost key = origin@;
    let mut p: usize = 0;
    while p < states.len() && text::less(states[p].origin.as_str(), origin.as_str())
        invariant
            p <= states@.len(),
            states@ == s0,
            forall|k: int| 0 <= k < p ==> text::lex_less((#[trigger] s0[k]).origin@, origin@),
        decreases states.len() - p,
    {
        p += 1;
    }
    proof {
        assert forall|o: Seq<char>| o != key implies entries_of(after, o) == #[trigger] entries_of(
            before,
            o,
        ) by {}
        assert(entries_of(after, key) == entries_of(before, key).push(entry@));
    }
    if p < states.len() && text::same(states[p].origin.as_str(), origin.as_str()) {
        let mut state = states.remove(p);
        let ghost list = state.local_storage@;
        state.local_storage.push(entry);
        assert(cdp::entries_view(state.local_storage@) =~= cdp::entries_view(list).push(entry@));
        states.insert(p, state);
        proof {
            let s1 = states@;
            assert(s1 =~= s0.update(p as int, state));
            assert forall|o: Seq<char>|
                #![trigger entries_of(after, o)]
                entries_of(after, o).len() > 0 implies exists|i: int|
                0 <= i < s1.len() && (#[trigger] s1[i]).origin@ == o by {
                if o == key {
                    assert(s1[p as int].origin@ == key);
                } else {
                    assert(entries_of(before, o).len() > 0);
                    let i = choose|i: int| 0 <= i < s0.len() && (#[trigger] s0[i]).origin@ == o;
                    assert(s1[i].origin@ == o);
                }
            }
            assert forall|i: int| 0 <= i < s1.len() implies cdp::entries_view(
                (#[trigger] s1[i]).local_storage@,
            ) == entries_of(after, s1[i].origin@) && s1[i].local_storage@.len() > 0 by {
                if i != p {
                    assert(s1[i] == s0[i]);
                    assert(s0[i].origin@ != key) by {
                        text::lex_total(s0[i].origin@, key);
                        if i < p {
                            assert(text::lex_less(s0[i].origin@, s0[p as int].origin@));
                        } else {
                            assert(text::lex_less(s0[p as int].origin@, s0[i].origin@));
                        }
                    }
                    assert(entries_of(after, s0[i].origin@) == entries_of(before, s0[i].origin@));
                }
            }
        }
    } else {
        let mut list: Vec<StorageEntry> = Vec::new();
        list.push(entry);
        let state = OriginState { origin, local_storage: list };
        states.insert(p, state);
        proof {
            let s1 = states@;
            assert(s1 =~= s0.insert(p as int, state));
            assert forall|k: int| p <= k < s0.len() implies text::lex_less(
                key,
                (#[trigger] s0[k]).origin@,
            ) by {
                text::lex_total(s0[p as int].origin@, key);
                if k > p {
                    assert(text::lex_less(s0[p as int].origin@, s0[k].origin@));
                    text::lex_transitive(key, s0[p as int].origin@, s0[k].origin@);
                }
            }
            assert forall|k: int| 0 <= k < s0.len() implies (#[trigger] s0[k]).origin@ != key by {
                text::lex_total(s0[k].origin@, key);
            }
            assert(entries_of(before, key).len() == 0) by {
                if entries_of(before, key).len() > 0 {
                    let i = choose|i: int| 0 <= i < s0.len() && (#[trigger] s0[i]).origin@ == key;
                    assert(s0[i].origin@ != key);
                }
            }
            assert(cdp::entries_view(list@) =~= entries_of(after, key));
            assert forall|i: int, j: int| 0 <= i < j < s1.len() implies text::lex_less(
                (#[trigger] s1[i]).origin@,
                (#[trigger] s1[j]).origin@,
            ) by {
                if i < p && j < p {
                    assert(s1[i] == s0[i] && s1[j] == s0[j]);
                } else if i < p && j == p {
                    assert(s1[i] == s0[i]);
                } else if i < p {
                    assert(s1[i] == s0[i] && s1[j] == s0[j - 1]);
                } else if i == p {
                    assert(s1[j] == s0[j - 1]);
                } else {
                    assert(s1[i] == s0[i - 1] && s1[j] == s0[j - 1]);
                }
            }
            assert forall|i: int| 0 <= i < s1.len() implies cdp::entries_view(
                (#[trigger] s1[i]).local_storage@,
            ) == entries_of(after, s1[i].origin@) && s1[i].local_storage@.len() > 0 by {
                if i < p {
                    assert(s1[i] == s0[i]);
                    assert(entries_of(after, s0[i].origin@) == entries_of(before, s0[i].origin@));
                } else if i > p {
                    assert(s1[i] == s0[i - 1]);
                    assert(entries_of(after, s0[i - 1].origin@) == entries_of(
                        before,
                        s0[i - 1].origin@,
                    ));
                }
            }
            assert forall|o: Seq<char>|
                #![trigger entries_of(after, o)]
                entries_of(after, o).len() > 0 implies exists|i: int|
                0 <= i < s1.len() && (#[trigger] s1[i]).origin@ == o by {
                if o == key {
                    assert(s1[p as int].origin@ == key);
                } else {
                    assert(entries_of(before, o).len() > 0);
                    let i = choose|i: int| 0 <= i < s0.len() && (#[trigger] s0[i]).origin@ == o;
                    if i < p {
                        assert(s1[i].origin@ == o);
                    } else {
                        assert(s1[i + 1].origin@ == o);
                    }
                }
            }
        }
    }
}

/// No partitioned key is ever taken for a first-party origin.
pub proof fn partitioned_keys_are_skipped(key: Seq<u8>)
    ensures
        key_of(key) matches Some((origin, _)) ==> !origin.contains('^'),
{
}

/// Nothing is lost and nothing is made up: an entry stands under an origin
/// exactly if a record says so.
pub proof fn every_record_is_read(records: Seq<Record>, origin: Seq<char>)
    ensures
        forall|i: int|
            0 <= i < records.len() && (record_of(#[trigger] records[i]) matches Some((o, _)) && o
                == origin) ==> entries_of(records, origin).contains(entry_in(records[i])),
        forall|e: (Seq<char>, Seq<char>)| #[trigger]
            entries_of(records, origin).contains(e) ==> exists|i: int|
                0 <= i < records.len() && record_of(#[trigger] records[i]) == Some((origin, e)),
    decreases records.len(),
{
    if records.len() > 0 {
        let front = records.drop_last();
        every_record_is_read(front, origin);
        let before = entries_of(front, origin);
        let all = entries_of(records, origin);
        assert forall|i: int|
            0 <= i < records.len() && (record_of(#[trigger] records[i]) matches Some((o, _)) && o
                == origin) implies all.contains(entry_in(records[i])) by {
            let e = entry_in(records[i]);
            if i < front.len() {
                assert(front[i] == records[i]);
                let k = choose|k: int| 0 <= k < before.len() && before[k] == e;
                assert(all[k] == e);
            } else {
                assert(all[all.len() - 1] == e);
            }
        }
        assert forall|e: (Seq<char>, Seq<char>)| #[trigger] all.contains(e) implies exists|i: int|
            0 <= i < records.len() && record_of(#[trigger] records[i]) == Some((origin, e)) by {
            let k = choose|k: int| 0 <= k < all.len() && all[k] == e;
            if k < before.len() {
                assert(before[k] == e);
                assert(before.contains(e));
                let i = choose|i: int|
                    0 <= i < front.len() && record_of(#[trigger] front[i]) == Some((origin, e));
                assert(records[i] == front[i]);
            } else {
                assert(records[records.len() - 1] == records.last());
            }
        }
    }
}

/// How many of the records are data records.
pub open spec fn data_records(records: Seq<Record>) -> nat {
    records.filter(|r: Record| record_of(r) is Some).len()
}

/// How many entries these origins have together.
pub open spec fn entries_in_all(records: Seq<Record>, origins: Seq<Seq<char>>) -> nat
    decreases origins.len(),
{
    if origins.len() == 0 {
        0
    } else {
        entries_in_all(records, origins.drop_last()) + entries_of(records, origins.last()).len()
    }
}

/// The entries of all origins are as many as there are data records: each
/// record is one entry of one origin.
pub proof fn entries_add_up(records: Seq<Record>, origins: Seq<Seq<char>>)
    requires
        origins.no_duplicates(),
        forall|i: int|
            0 <= i < records.len() ==> (record_of(#[trigger] records[i]) matches Some((o, _))
                ==> origins.contains(o)),
    ensures
        entries_in_all(records, origins) == data_records(records),
    decreases records.len(),
{
    let data = |r: Record| record_of(r) is Some;
    if records.len() == 0 {
        no_records_no_entries(records, origins);
        reveal(Seq::filter);
    } else {
        let front = records.drop_last();
        let last = records.last();
        assert(records[records.len() - 1] == last);
        assert forall|i: int| 0 <= i < front.len() implies (record_of(#[trigger] front[i]) matches
            Some((o, _)) ==> origins.contains(o)) by {
            assert(front[i] == records[i]);
        }
        entries_add_up(front, origins);
        reveal(Seq::filter);
        one_more_record(records, origins);
    }
}

proof fn no_records_no_entries(records: Seq<Record>, origins: Seq<Seq<char>>)
    requires
        records.len() == 0,
    ensures
        entries_in_all(records, origins) == 0,
    decreases origins.len(),
{
    if origins.len() > 0 {
        no_records_no_entries(records, origins.drop_last());
    }
}

proof fn one_more_record(records: Seq<Record>, origins: Seq<Seq<char>>)
    requires
        records.len() > 0,
        origins.no_duplicates(),
    ensures
        entries_in_all(records, origins) == entries_in_all(records.drop_last(), origins) + (
        match record_of(records.last()) {
            Some((o, _)) => if origins.contains(o) {
                1int
            } else {
                0int
            },
            None => 0int,
        }),
    decreases origins.len(),
{
    if origins.len() > 0 {
        let front = origins.drop_last();
        one_more_record(records, front);
        assert(origins[origins.len() - 1] == origins.last());
        if let Some((o, _)) = record_of(records.last()) {
            if front.contains(o) {
                let k = choose|k: int| 0 <= k < front.len() && front[k] == o;
                assert(origins[k] == o);
            } else if origins.contains(o) {
                let k = choose|k: int| 0 <= k < origins.len() && origins[k] == o;
                if k < front.len() {
                    assert(front[k] == o);
                }
            }
        }
    }
}

/// Entries of an origin keep the order of their records.
pub proof fn entries_keep_their_order(a: Seq<Record>, b: Seq<Record>, origin: Seq<char>)
    ensures
        entries_of(a + b, origin) == entries_of(a, origin) + entries_of(b, origin),
    decreases b.len(),
{
    if b.len() == 0 {
        assert(a + b =~= a);
        assert(entries_of(a, origin) + entries_of(b, origin) =~= entries_of(a, origin));
    } else {
        assert((a + b).drop_last() =~= a + b.drop_last());
        assert((a + b).last() == b.last());
        entries_keep_their_order(a, b.drop_last(), origin);
        assert(entries_of(a + b, origin) =~= entries_of(a, origin) + entries_of(b, origin));
    }
}

/// A data record says which origin and name its key holds and which value it
/// has: the key is an underscore, the origin, a zero and the encoded name.
pub proof fn data_keys_are_read(origin: Seq<u8>, name: Seq<u8>, value: Seq<u8>, r: Record)
    requires
        r.key@ == seq![0x5Fu8] + origin + seq![0u8] + name,
        r.value@ == value,
        vstd::utf8::valid_utf8(origin),
        !vstd::utf8::decode_utf8(origin).contains('^'),
        forall|i: int| 0 <= i < origin.len() ==> #[trigger] origin[i] != 0,
        decoded(name) is Some,
        decoded(value) is Some,
    ensures
        key_of(r.key@) == Some((vstd::utf8::decode_utf8(origin), decoded(name)->0)),
        record_of(r) == Some(
            (vstd::utf8::decode_utf8(origin), (decoded(name)->0, decoded(value)->0)),
        ),
{
    let rest = r.key@.skip(1);
    let n = origin.len() as int;
    assert(rest =~= origin + seq![0u8] + name);
    assert forall|i: int| 0 <= i < n implies #[trigger] rest[i] != 0 by {
        assert(rest[i] == origin[i]);
    }
    crate::chrome::pipe::frame_len_is(rest, n);
    assert(rest.take(n) =~= origin);
    assert(rest.skip(n + 1) =~= name);
}

/// What is no data record is skipped: a key that does not begin with an
/// underscore, one without a zero, and a value or name in no known encoding.
pub proof fn other_records_are_skipped(r: Record)
    ensures
        r.key@.len() == 0 || r.key@[0] != 0x5F ==> record_of(r) is None,
        !r.key@.skip(1).contains(0u8) ==> record_of(r) is None,
        r.value@.len() == 0 || r.value@[0] > 1 ==> record_of(r) is None,
        r.value@.len() % 2 == 0 && r.value@.len() > 0 && r.value@[0] == 0 ==> record_of(r) is None,
{
    let rest = r.key@.skip(1);
    if !rest.contains(0u8) {
        assert forall|i: int| 0 <= i < rest.len() implies #[trigger] rest[i] != 0 by {
            assert(rest.contains(rest[i]));
        }
        crate::chrome::pipe::frame_len_is(rest, rest.len() as int);
    }
}

/// Latin-1 text is read byte by byte.
pub proof fn latin1_is_read(bytes: Seq<u8>)
    ensures
        decoded(seq![1u8] + bytes) matches Some(t) && t.len() == bytes.len() && (forall|i: int|
            0 <= i < bytes.len() ==> #[trigger] t[i] as u32 == bytes[i] as u32),
{
    let all = seq![1u8] + bytes;
    assert(all.skip(1) =~= bytes);
    let t = decoded(all)->0;
    assert forall|i: int| 0 <= i < bytes.len() implies #[trigger] t[i] as u32 == bytes[i] as u32 by {
        let b = bytes[i];
        assert(t[i] == b as char);
    }
}

/// The units that encode a character in UTF-16.
pub open spec fn utf16_units(c: char) -> Seq<u16> {
    let n = c as u32;
    if n < 0x10000 {
        seq![n as u16]
    } else {
        seq![
            (0xD800 + (n - 0x10000) / 0x400) as u16,
            (0xDC00 + (n - 0x10000) % 0x400) as u16,
        ]
    }
}

/// The units that encode a text in UTF-16.
pub open spec fn utf16_encoded(t: Seq<char>) -> Seq<u16>
    decreases t.len(),
{
    if t.len() == 0 {
        Seq::empty()
    } else {
        utf16_units(t[0]) + utf16_encoded(t.skip(1))
    }
}

/// Bytes of units, low byte first.
pub open spec fn little_endian(units: Seq<u16>) -> Seq<u8> {
    Seq::new(
        2 * units.len(),
        |i: int|
            if i % 2 == 0 {
                (units[i / 2] as int % 256) as u8
            } else {
                (units[i / 2] as int / 256) as u8
            },
    )
}

/// Text that was written in UTF-16, low byte first, is read as it was.
pub proof fn utf16_is_read(t: Seq<char>)
    ensures
        utf16_of(utf16_encoded(t)) == Some(t),
        decoded(seq![0u8] + little_endian(utf16_encoded(t))) == Some(t),
{
    utf16_round_trip(t);
    let units = utf16_encoded(t);
    let bytes = little_endian(units);
    let all = seq![0u8] + bytes;
    assert(all.skip(1) =~= bytes);
    assert forall|i: int| 0 <= i < units.len() implies units_of(bytes)[i] == units[i] by {
        assert(bytes[2 * i] == (units[i] as int % 256) as u8);
        assert(bytes[2 * i + 1] == (units[i] as int / 256) as u8);
    }
    assert(units_of(bytes) =~= units);
}

proof fn utf16_round_trip(t: Seq<char>)
    ensures
        utf16_of(utf16_encoded(t)) == Some(t),
    decreases t.len(),
{
    if t.len() > 0 {
        let c = t[0];
        let n = c as u32;
        vstd::utf8::char_is_scalar(c);
        let rest = t.skip(1);
        utf16_round_trip(rest);
        let units = utf16_encoded(t);
        assert(seq![c] + rest =~= t);
        if n < 0x10000 {
            assert(units.skip(1) =~= utf16_encoded(rest));
            assert(n < 0xD800 || n > 0xDFFF);
            assert(units[0] as char == c) by {
                vstd::utf8::char_u32_cast(c, units[0] as u32);
            }
        } else {
            assert(units.skip(2) =~= utf16_encoded(rest));
            let code = 0x10000 + (units[0] - 0xD800) * 0x400 + (units[1] - 0xDC00);
            assert(code == n);
            assert(pair_char(units[0], units[1]) == c) by {
                vstd::utf8::char_u32_cast(c, n);
            }
        }
    } else {
        assert(t =~= Seq::empty());
    }
}

} // verus!
