//! JSON values as the browser protocol and the HTTP answers use them.

use crate::text;
use vstd::prelude::*;

verus! {

/// A JSON value.
#[derive(Debug)]
pub enum Json {
    /// `null`
    Null,
    /// `true` or `false`
    Bool(bool),
    /// A non-negative integer.
    UInt(u64),
    /// A negative integer.
    Int(i64),
    /// Any other number, by its text.
    Real(String),
    /// A string.
    Str(String),
    /// An array.
    Array(Vec<Json>),
    /// An object's members.
    Object(Vec<Member>),
}

/// A member of a JSON object.
#[derive(Debug)]
pub struct Member {
    /// The key.
    pub key: String,
    /// The value.
    pub value: Json,
}

/// What a JSON value stands for.
pub enum JsonView {
    /// `null`
    Null,
    /// `true` or `false`
    Bool(bool),
    /// A non-negative integer.
    UInt(u64),
    /// A negative integer.
    Int(i64),
    /// Any other number, by its text.
    Real(Seq<char>),
    /// A string.
    Str(Seq<char>),
    /// An array.
    Array(Seq<JsonView>),
    /// An object's members.
    Object(Seq<(Seq<char>, JsonView)>),
}

impl Json {
    /// What this value stands for.
    pub open spec fn model(self) -> JsonView
        decreases self,
    {
        match self {
            Json::Null => JsonView::Null,
            Json::Bool(b) => JsonView::Bool(b),
            Json::UInt(n) => JsonView::UInt(n),
            Json::Int(n) => JsonView::Int(n),
            Json::Real(s) => JsonView::Real(s@),
            Json::Str(s) => JsonView::Str(s@),
            Json::Array(items) => JsonView::Array(
                Seq::new(
                    items@.len(),
                    |i: int|
                        if 0 <= i < items@.len() {
                            items@[i].model()
                        } else {
                            JsonView::Null
                        },
                ),
            ),
            Json::Object(members) => JsonView::Object(
                Seq::new(
                    members@.len(),
                    |i: int|
                        if 0 <= i < members@.len() {
                            (members@[i].key@, members@[i].value.model())
                        } else {
                            (Seq::empty(), JsonView::Null)
                        },
                ),
            ),
        }
    }
}

impl View for Json {
    type V = JsonView;

    open spec fn view(&self) -> JsonView {
        self.model()
    }
}

/// The value of the first member with this key.
pub open spec fn member_of(members: Seq<(Seq<char>, JsonView)>, key: Seq<char>) -> Option<JsonView>
    decreases members.len(),
{
    if members.len() == 0 {
        None
    } else if members[0].0 == key {
        Some(members[0].1)
    } else {
        member_of(members.skip(1), key)
    }
}

impl JsonView {
    /// The member with this key, if this is an object that has it.
    pub open spec fn get(self, key: Seq<char>) -> Option<JsonView> {
        match self {
            JsonView::Object(members) => member_of(members, key),
            _ => None,
        }
    }

    /// The member with this key, else `null`.
    pub open spec fn at(self, key: Seq<char>) -> JsonView {
        match self.get(key) {
            Some(v) => v,
            None => JsonView::Null,
        }
    }

    /// The characters, if this is a string.
    pub open spec fn chars(self) -> Option<Seq<char>> {
        match self {
            JsonView::Str(s) => Some(s),
            _ => None,
        }
    }

    /// The integer, if this is one that is not negative.
    pub open spec fn natural(self) -> Option<u64> {
        match self {
            JsonView::UInt(n) => Some(n),
            _ => None,
        }
    }

    /// The integer, if this is one in the range of `i64`.
    pub open spec fn integer(self) -> Option<i64> {
        match self {
            JsonView::UInt(n) if n <= i64::MAX => Some(n as i64),
            JsonView::Int(n) => Some(n),
            _ => None,
        }
    }
}

/// The key under which `serde_json` keeps a text that is JSON already.
pub open spec fn raw_key() -> Seq<char> {
    "$serde_json::private::RawValue"@
}

/// Whether one of these members has this key.
pub open spec fn has_key(members: Seq<(Seq<char>, JsonView)>, key: Seq<char>) -> bool {
    exists|i: int| 0 <= i < members.len() && (#[trigger] members[i]).0 == key
}

/// Whether an object with these members, once it is written in the order of
/// its keys, would be read as the JSON text that its first member holds.
pub open spec fn reads_as_raw(members: Seq<(Seq<char>, JsonView)>) -> bool {
    &&& has_key(members, raw_key())
    &&& forall|key: Seq<char>| #[trigger]
        has_key(members, key) ==> !text::lex_less(key, raw_key())
}

/// Whether `v` has no number but integers, nests at most `depth` deep, and has
/// no object that would be read as raw text.
pub open spec fn plain(v: JsonView, depth: nat) -> bool
    decreases depth,
{
    match v {
        JsonView::Real(_) => false,
        JsonView::Array(items) => depth > 0 && forall|i: int|
            0 <= i < items.len() ==> plain(#[trigger] items[i], (depth - 1) as nat),
        JsonView::Object(members) => depth > 0 && !reads_as_raw(members) && forall|i: int|
            0 <= i < members.len() ==> plain((#[trigger] members[i]).1, (depth - 1) as nat),
        _ => true,
    }
}

/// A member of an object under construction.
pub fn member(key: &str, value: Json) -> (r: Member)
    ensures
        r.key@ == key@,
        r.value == value,
{
    Member { key: key.to_owned(), value }
}

/// The members of an object, as they are viewed.
pub open spec fn members_view(members: Seq<Member>) -> Seq<(Seq<char>, JsonView)> {
    Seq::new(members.len(), |i: int| (members[i].key@, members[i].value@))
}

/// The items of an array, as they are viewed.
pub open spec fn items_view(items: Seq<Json>) -> Seq<JsonView> {
    Seq::new(items.len(), |i: int| items[i]@)
}

impl Json {
    /// A JSON string.
    pub fn string(s: &str) -> (r: Json)
        ensures
            r@ == JsonView::Str(s@),
    {
        Json::Str(s.to_owned())
    }

    /// An object with these members.
    pub fn object(members: Vec<Member>) -> (r: Json)
        ensures
            r@ == JsonView::Object(members_view(members@)),
    {
        let r = Json::Object(members);
        assert(r@->Object_0 =~= members_view(members@));
        r
    }

    /// An array of these items.
    pub fn array(items: Vec<Json>) -> (r: Json)
        ensures
            r@ == JsonView::Array(items_view(items@)),
    {
        let r = Json::Array(items);
        assert(r@->Array_0 =~= items_view(items@));
        r
    }

    /// The member with this key, if this is an object that has it.
    pub fn get(&self, key: &str) -> (r: Option<&Json>)
        ensures
            r is Some <==> self@.get(key@) is Some,
            r matches Some(v) ==> self@.get(key@) == Some(v@),
    {
        let members: &Vec<Member> = match self {
            Json::Object(members) => members,
            _ => {
                return None;
            },
        };
        let ghost all = members_view(members@);
        assert(self@->Object_0 =~= all);
        let mut i: usize = 0;
        assert(all.skip(0) =~= all);
        while i < members.len()
            invariant
                i <= members@.len(),
                all == members_view(members@),
                self@ == JsonView::Object(all),
                member_of(all.skip(i as int), key@) == member_of(all, key@),
            decreases members.len() - i,
        {
            assert(all.skip(i as int)[0] == (members@[i as int].key@, members@[i as int].value@));
            assert(all.skip(i as int).skip(1) =~= all.skip(i + 1));
            if text::same(members[i].key.as_str(), key) {
                return Some(&members[i].value);
            }
            i += 1;
        }
        None
    }

    /// The string, if this is one.
    pub fn as_str(&self) -> (r: Option<&str>)
        ensures
            text::opt_str(r) == self@.chars(),
    {
        match self {
            Json::Str(s) => Some(s.as_str()),
            _ => None,
        }
    }

    /// The integer, if this is one that is not negative.
    pub fn as_u64(&self) -> (r: Option<u64>)
        ensures
            r == self@.natural(),
    {
        match self {
            Json::UInt(n) => Some(*n),
            _ => None,
        }
    }

    /// The integer, if this is one in the range of `i64`.
    pub fn as_i64(&self) -> (r: Option<i64>)
        ensures
            r == self@.integer(),
    {
        match self {
            Json::UInt(n) => if *n <= i64::MAX as u64 {
                Some(*n as i64)
            } else {
                None
            },
            Json::Int(n) => Some(*n),
            _ => None,
        }
    }

    /// The items, if this is an array.
    pub fn as_array(&self) -> (r: Option<&Vec<Json>>)
        ensures
            r is Some <==> self@ is Array,
            r matches Some(items) ==> self@ == JsonView::Array(items_view(items@)),
    {
        match self {
            Json::Array(items) => {
                assert(self@->Array_0 =~= items_view(items@));
                Some(items)
            },
            _ => None,
        }
    }

    /// A copy of this value.
    pub fn copy(&self) -> (r: Json)
        ensures
            r@ == self@,
        decreases self,
    {
        match self {
            Json::Null => Json::Null,
            Json::Bool(b) => Json::Bool(*b),
            Json::UInt(n) => Json::UInt(*n),
            Json::Int(n) => Json::Int(*n),
            Json::Real(s) => Json::Real(s.clone()),
            Json::Str(s) => Json::Str(s.clone()),
            Json::Array(items) => {
                let mut out: Vec<Json> = Vec::new();
                let mut i: usize = 0;
                while i < items.len()
                    invariant
                        i <= items@.len(),
                        out@.len() == i,
                        *self == Json::Array(*items),
                        forall|k: int| 0 <= k < i ==> (#[trigger] out@[k])@ == items@[k]@,
                    decreases items.len() - i,
                {
                    assert(decreases_to!(self->Array_0 => self->Array_0@));
                    assert(decreases_to!(self->Array_0@ => self->Array_0@[i as int]));
                    let item = items[i].copy();
                    out.push(item);
                    i += 1;
                }
                let r = Json::Array(out);
                assert(r@->Array_0 =~= self@->Array_0);
                r
            },
            Json::Object(members) => {
                let mut out: Vec<Member> = Vec::new();
                let mut i: usize = 0;
                while i < members.len()
                    invariant
                        i <= members@.len(),
                        out@.len() == i,
                        *self == Json::Object(*members),
                        forall|k: int|
                            0 <= k < i ==> (#[trigger] out@[k]).key@ == members@[k].key@
                                && out@[k].value@ == members@[k].value@,
                    decreases members.len() - i,
                {
                    assert(decreases_to!(self->Object_0 => self->Object_0@));
                    assert(decreases_to!(self->Object_0@ => self->Object_0@[i as int]));
                    let value = members[i].value.copy();
                    out.push(Member { key: members[i].key.clone(), value });
                    i += 1;
                }
                let r = Json::Object(out);
                assert(r@->Object_0 =~= self@->Object_0);
                r
            },
        }
    }
}

/// `serde_json::Value`, the JSON value of the crate that reads and writes
/// JSON text.
#[verifier::external_type_specification]
#[verifier::external_body]
pub struct ExValue(serde_json::Value);

/// What a `serde_json::Value` holds.
pub uninterp spec fn value_model(v: serde_json::Value) -> JsonView;

/// What the JSON text in `bytes` says, or why it is none.
pub uninterp spec fn json_read(bytes: Seq<u8>) -> Result<JsonView, Seq<char>>;

/// The compact JSON text of a value.
pub uninterp spec fn json_text(v: JsonView) -> Seq<char>;

/// The number that a text says, or `null` if it is none.
pub uninterp spec fn number_json(text: Seq<char>) -> JsonView;

/// What the JSON text in `bytes` says, if it is one.
pub open spec fn json_parsed(bytes: Seq<u8>) -> Option<JsonView> {
    match json_read(bytes) {
        Ok(v) => Some(v),
        Err(_) => None,
    }
}

/// Why `bytes` are no JSON text.
pub open spec fn json_fault(bytes: Seq<u8>) -> Seq<char>
    recommends
        json_read(bytes) is Err,
{
    json_read(bytes)->Err_0
}

/// The compact JSON text of a value, as bytes.
pub open spec fn json_bytes(v: JsonView) -> Seq<u8> {
    vstd::utf8::encode_utf8(json_text(v))
}

/// Calls `serde_json::from_slice`, and `Display` of its error. It succeeds
/// exactly on JSON text, and what it returns depends on the text alone.
#[verifier::external_body]
fn parse_value(bytes: &[u8]) -> (r: Result<serde_json::Value, String>)
    ensures
        match r {
            Ok(v) => json_read(bytes@) == Ok::<JsonView, Seq<char>>(value_model(v)),
            Err(e) => json_read(bytes@) == Err::<JsonView, Seq<char>>(e@),
        },
{
    serde_json::from_slice(bytes).map_err(|e| e.to_string())
}

/// Calls `serde_json::to_vec`, which does not fail on a `Value`: the text that
/// `serde_json::to_string` gives, as bytes. Control characters are escaped, so
/// no byte of the text is zero; and a text of integers, strings and booleans
/// that is nested less deep than `serde_json::from_slice` allows reads back as
/// what was written, unless it has an object whose first key is the one under
/// which `serde_json` keeps raw text.
#[verifier::external_body]
fn value_bytes(v: &serde_json::Value) -> (r: Vec<u8>)
    ensures
        r@ == json_bytes(value_model(*v)),
        forall|i: int| 0 <= i < r@.len() ==> #[trigger] r@[i] != 0,
        plain(value_model(*v), 100) ==> json_parsed(r@) == Some(value_model(*v)),
{
    serde_json::to_vec(v).unwrap_or_default()
}

/// Calls `serde_json::to_string`, which does not fail on a `Value`.
#[verifier::external_body]
fn value_text(v: &serde_json::Value) -> (r: String)
    ensures
        r@ == json_text(value_model(*v)),
{
    serde_json::to_string(v).unwrap_or_default()
}

/// The outermost layer of a `serde_json::Value`.
enum Layer {
    /// `null`
    Null,
    /// `true` or `false`
    Bool(bool),
    /// A non-negative integer.
    UInt(u64),
    /// A negative integer.
    Int(i64),
    /// Any other number, by its text.
    Real(String),
    /// A string.
    Str(String),
    /// An array's items.
    Array(Vec<serde_json::Value>),
    /// An object's members.
    Object(Vec<(String, serde_json::Value)>),
}

/// What these values hold.
spec fn values_view(items: Seq<serde_json::Value>) -> Seq<JsonView> {
    Seq::new(items.len(), |i: int| value_model(items[i]))
}

/// What these members hold.
spec fn pairs_view(members: Seq<(String, serde_json::Value)>) -> Seq<(Seq<char>, JsonView)> {
    Seq::new(members.len(), |i: int| (members[i].0@, value_model(members[i].1)))
}

/// What a layer and the values below it hold.
spec fn layer_view(l: Layer) -> JsonView {
    match l {
        Layer::Null => JsonView::Null,
        Layer::Bool(b) => JsonView::Bool(b),
        Layer::UInt(n) => JsonView::UInt(n),
        Layer::Int(n) => JsonView::Int(n),
        Layer::Real(s) => JsonView::Real(s@),
        Layer::Str(s) => JsonView::Str(s@),
        Layer::Array(items) => JsonView::Array(values_view(items@)),
        Layer::Object(members) => JsonView::Object(pairs_view(members@)),
    }
}

/// `members`, which are in the order of their keys, with this one in its place;
/// it replaces one with the same key.
pub open spec fn put(
    members: Seq<(Seq<char>, JsonView)>,
    key: Seq<char>,
    value: JsonView,
) -> Seq<(Seq<char>, JsonView)>
    decreases members.len(),
{
    if members.len() == 0 {
        seq![(key, value)]
    } else if members[0].0 == key {
        seq![(key, value)] + members.skip(1)
    } else if text::lex_less(key, members[0].0) {
        seq![(key, value)] + members
    } else {
        seq![members[0]] + put(members.skip(1), key, value)
    }
}

/// The members in the order of their keys, the last one standing where a key
/// occurs twice.
pub open spec fn by_key(members: Seq<(Seq<char>, JsonView)>) -> Seq<(Seq<char>, JsonView)>
    decreases members.len(),
{
    if members.len() == 0 {
        Seq::empty()
    } else {
        put(by_key(members.drop_last()), members.last().0, members.last().1)
    }
}

/// An integer as JSON has it.
pub open spec fn integer_form(n: i64) -> JsonView {
    if n < 0 {
        JsonView::Int(n)
    } else {
        JsonView::UInt(n as u64)
    }
}

/// Takes the outermost layer off a `serde_json::Value`, variant by variant;
/// `serde_json::Number` tells its integers by `as_u64` and `as_i64`.
#[verifier::external_body]
fn take_apart(v: serde_json::Value) -> (r: Layer)
    ensures
        layer_view(r) == value_model(v),
{
    match v {
        serde_json::Value::Null => Layer::Null,
        serde_json::Value::Bool(b) => Layer::Bool(b),
        serde_json::Value::Number(n) => match (n.as_u64(), n.as_i64()) {
            (Some(u), _) => Layer::UInt(u),
            (None, Some(i)) => Layer::Int(i),
            (None, None) => Layer::Real(n.to_string()),
        },
        serde_json::Value::String(s) => Layer::Str(s),
        serde_json::Value::Array(items) => Layer::Array(items),
        serde_json::Value::Object(members) => Layer::Object(members.into_iter().collect()),
    }
}

/// Makes a `serde_json::Value` of a layer, variant by variant. An object is a
/// `serde_json::Map`, which is ordered by key; a number's text is read by
/// `FromStr` of `serde_json::Number`.
#[verifier::external_body]
fn assemble(l: Layer) -> (r: serde_json::Value)
    ensures
        value_model(r) == (match l {
            Layer::Int(n) => integer_form(n),
            Layer::Real(s) => number_json(s@),
            Layer::Object(members) => JsonView::Object(by_key(pairs_view(members@))),
            _ => layer_view(l),
        }),
{
    match l {
        Layer::Null => serde_json::Value::Null,
        Layer::Bool(b) => serde_json::Value::Bool(b),
        Layer::UInt(n) => serde_json::Value::from(n),
        Layer::Int(n) => serde_json::Value::from(n),
        Layer::Real(s) => s.parse().map_or(serde_json::Value::Null, serde_json::Value::Number),
        Layer::Str(s) => serde_json::Value::String(s),
        Layer::Array(items) => serde_json::Value::Array(items),
        Layer::Object(members) => serde_json::Value::Object(members.into_iter().collect()),
    }
}

fn json_of(v: serde_json::Value) -> (r: Json)
    ensures
        r@ == value_model(v),
    decreases value_model(v),
{
    let ghost all = value_model(v);
    match take_apart(v) {
        Layer::Null => Json::Null,
        Layer::Bool(b) => Json::Bool(b),
        Layer::UInt(n) => Json::UInt(n),
        Layer::Int(n) => Json::Int(n),
        Layer::Real(s) => Json::Real(s),
        Layer::Str(s) => Json::Str(s),
        Layer::Array(items) => {
            let ghost values = items@;
            assert(all == JsonView::Array(values_view(values)));
            let mut out: Vec<Json> = Vec::new();
            for item in it: items
                invariant
                    it.seq() == values,
                    all == value_model(v),
                    all == JsonView::Array(values_view(values)),
                    out@.len() == it.index(),
                    forall|k: int| 0 <= k < it.index() ==> (#[trigger] out@[k])@ == value_model(
                        values[k],
                    ),
            {
                proof {
                    let i = it.index() as int;
                    assert(value_model(item) == values_view(values)[i]);
                    assert(decreases_to!(all => all->Array_0));
                    assert(decreases_to!(all->Array_0 => all->Array_0[i]));
                }
                out.push(json_of(item));
            }
            let r = Json::Array(out);
            assert(r@->Array_0 =~= all->Array_0);
            r
        },
        Layer::Object(members) => {
            let ghost pairs = members@;
            assert(all == JsonView::Object(pairs_view(pairs)));
            let mut out: Vec<Member> = Vec::new();
            for pair in it: members
                invariant
                    it.seq() == pairs,
                    all == value_model(v),
                    all == JsonView::Object(pairs_view(pairs)),
                    out@.len() == it.index(),
                    forall|k: int|
                        0 <= k < it.index() ==> (#[trigger] out@[k]).key@ == pairs[k].0@
                            && out@[k].value@ == value_model(pairs[k].1),
            {
                let (key, value) = pair;
                proof {
                    let i = it.index() as int;
                    assert((key@, value_model(value)) == pairs_view(pairs)[i]);
                    assert(decreases_to!(all => all->Object_0));
                    assert(decreases_to!(all->Object_0 => all->Object_0[i]));
                    assert(decreases_to!(all->Object_0[i] => all->Object_0[i].1));
                }
                out.push(Member { key, value: json_of(value) });
            }
            let r = Json::Object(out);
            assert(r@->Object_0 =~= all->Object_0);
            r
        },
    }
}

/// A value as it is written: the members of every object are in the order of
/// their keys, the last one standing where a key occurs twice.
pub open spec fn keyed(v: JsonView) -> JsonView
    decreases v,
{
    match v {
        JsonView::Int(n) => integer_form(n),
        JsonView::Real(s) => number_json(s),
        JsonView::Array(items) => JsonView::Array(keyed_items(items)),
        JsonView::Object(members) => JsonView::Object(by_key(keyed_members(members))),
        _ => v,
    }
}

/// The items as they are written.
pub open spec fn keyed_items(items: Seq<JsonView>) -> Seq<JsonView>
    decreases items,
{
    if items.len() == 0 {
        Seq::empty()
    } else {
        keyed_items(items.subrange(0, items.len() - 1)).push(keyed(items[items.len() - 1]))
    }
}

/// The members as they are written, in the order in which they are given.
pub open spec fn keyed_members(members: Seq<(Seq<char>, JsonView)>) -> Seq<(Seq<char>, JsonView)>
    decreases members,
{
    if members.len() == 0 {
        Seq::empty()
    } else {
        let last = members[members.len() - 1];
        keyed_members(members.subrange(0, members.len() - 1)).push((last.0, keyed(last.1)))
    }
}

proof fn keyed_item(items: Seq<JsonView>)
    ensures
        keyed_items(items).len() == items.len(),
        forall|i: int| 0 <= i < items.len() ==> #[trigger] keyed_items(items)[i] == keyed(items[i]),
    decreases items.len(),
{
    if items.len() > 0 {
        keyed_item(items.subrange(0, items.len() - 1));
    }
}

proof fn keyed_member(members: Seq<(Seq<char>, JsonView)>)
    ensures
        keyed_members(members).len() == members.len(),
        forall|i: int|
            0 <= i < members.len() ==> #[trigger] keyed_members(members)[i] == (
                members[i].0,
                keyed(members[i].1),
            ),
    decreases members.len(),
{
    if members.len() > 0 {
        keyed_member(members.subrange(0, members.len() - 1));
    }
}

fn value_of(j: &Json) -> (r: serde_json::Value)
    ensures
        value_model(r) == keyed(j@),
    decreases j,
{
    match j {
        Json::Null => assemble(Layer::Null),
        Json::Bool(b) => assemble(Layer::Bool(*b)),
        Json::UInt(n) => assemble(Layer::UInt(*n)),
        Json::Int(n) => assemble(Layer::Int(*n)),
        Json::Real(s) => assemble(Layer::Real(s.clone())),
        Json::Str(s) => assemble(Layer::Str(s.clone())),
        Json::Array(items) => {
            let mut out: Vec<serde_json::Value> = Vec::new();
            let mut i: usize = 0;
            while i < items.len()
                invariant
                    i <= items@.len(),
                    out@.len() == i,
                    *j == Json::Array(*items),
                    forall|k: int| 0 <= k < i ==> value_model(#[trigger] out@[k]) == keyed(
                        items@[k]@,
                    ),
                decreases items.len() - i,
            {
                assert(decreases_to!(j->Array_0 => j->Array_0@));
                assert(decreases_to!(j->Array_0@ => j->Array_0@[i as int]));
                out.push(value_of(&items[i]));
                i += 1;
            }
            proof {
                keyed_item(j@->Array_0);
                assert(values_view(out@) =~= keyed_items(j@->Array_0));
            }
            assemble(Layer::Array(out))
        },
        Json::Object(members) => {
            let mut out: Vec<(String, serde_json::Value)> = Vec::new();
            let mut i: usize = 0;
            while i < members.len()
                invariant
                    i <= members@.len(),
                    out@.len() == i,
                    *j == Json::Object(*members),
                    forall|k: int|
                        0 <= k < i ==> (#[trigger] out@[k]).0@ == members@[k].key@ && value_model(
                            out@[k].1,
                        ) == keyed(members@[k].value@),
                decreases members.len() - i,
            {
                assert(decreases_to!(j->Object_0 => j->Object_0@));
                assert(decreases_to!(j->Object_0@ => j->Object_0@[i as int]));
                assert(decreases_to!(j->Object_0@[i as int] => j->Object_0@[i as int].value));
                out.push((members[i].key.clone(), value_of(&members[i].value)));
                i += 1;
            }
            proof {
                keyed_member(j@->Object_0);
                assert(pairs_view(out@) =~= keyed_members(j@->Object_0));
            }
            assemble(Layer::Object(out))
        },
    }
}

/// A member that is put in is there; the others are what they were.
pub proof fn put_is_found(
    members: Seq<(Seq<char>, JsonView)>,
    key: Seq<char>,
    value: JsonView,
    wanted: Seq<char>,
)
    ensures
        member_of(put(members, key, value), wanted) == (if wanted == key {
            Some(value)
        } else {
            member_of(members, wanted)
        }),
    decreases members.len(),
{
    let all = put(members, key, value);
    reveal_with_fuel(member_of, 2);
    if members.len() == 0 {
        assert(all.skip(1) =~= Seq::empty());
    } else if members[0].0 == key {
        assert(all.skip(1) =~= members.skip(1));
    } else if text::lex_less(key, members[0].0) {
        assert(all.skip(1) =~= members);
    } else {
        put_is_found(members.skip(1), key, value, wanted);
        assert(all.skip(1) =~= put(members.skip(1), key, value));
    }
}

/// Whether no two members have the same key.
pub open spec fn distinct_keys(members: Seq<(Seq<char>, JsonView)>) -> bool {
    forall|i: int, j: int|
        0 <= i < j < members.len() ==> (#[trigger] members[i]).0 != (#[trigger] members[j]).0
}

proof fn last_member(members: Seq<(Seq<char>, JsonView)>, key: Seq<char>)
    requires
        members.len() > 0,
        distinct_keys(members),
    ensures
        member_of(members, key) == (if members.last().0 == key {
            Some(members.last().1)
        } else {
            member_of(members.drop_last(), key)
        }),
    decreases members.len(),
{
    let front = members.drop_last();
    if members.len() == 1 {
        assert(members.skip(1) =~= Seq::empty());
        assert(front =~= Seq::empty());
    } else {
        let rest = members.skip(1);
        assert forall|i: int, j: int| 0 <= i < j < rest.len() implies (#[trigger] rest[i]).0 != (
        #[trigger] rest[j]).0 by {
            assert(rest[i] == members[i + 1] && rest[j] == members[j + 1]);
        }
        last_member(rest, key);
        assert(rest.drop_last() =~= front.skip(1));
        assert(members[0].0 != members[members.len() - 1].0);
        assert(front[0] == members[0]);
    }
}

/// An object whose keys are distinct has the same members when it is written.
pub proof fn written_object_keeps_its_members(
    members: Seq<(Seq<char>, JsonView)>,
    key: Seq<char>,
)
    requires
        distinct_keys(members),
    ensures
        keyed(JsonView::Object(members)).get(key) == (match member_of(members, key) {
            Some(v) => Some(keyed(v)),
            None => None,
        }),
    decreases members.len(),
{
    if members.len() > 0 {
        let front = members.subrange(0, members.len() - 1);
        assert(front =~= members.drop_last());
        assert forall|i: int, j: int| 0 <= i < j < front.len() implies (#[trigger] front[i]).0 != (
        #[trigger] front[j]).0 by {
            assert(front[i] == members[i] && front[j] == members[j]);
        }
        let last = members.last();
        written_object_keeps_its_members(front, key);
        last_member(members, key);
        let inner = keyed_members(members);
        assert(inner.drop_last() =~= keyed_members(front));
        put_is_found(by_key(keyed_members(front)), last.0, keyed(last.1), key);
    }
}

/// A plain value stays plain when it is written.
pub proof fn keyed_stays_plain(v: JsonView, depth: nat)
    requires
        plain(v, depth),
    ensures
        plain(keyed(v), depth),
    decreases depth,
{
    match v {
        JsonView::Array(items) => {
            keyed_item(items);
            let out = keyed_items(items);
            assert forall|i: int| 0 <= i < out.len() implies plain(
                #[trigger] out[i],
                (depth - 1) as nat,
            ) by {
                assert(plain(items[i], (depth - 1) as nat));
                keyed_stays_plain(items[i], (depth - 1) as nat);
            }
        },
        JsonView::Object(members) => {
            keyed_member(members);
            let inner = keyed_members(members);
            assert forall|i: int| 0 <= i < inner.len() implies plain(
                (#[trigger] inner[i]).1,
                (depth - 1) as nat,
            ) by {
                assert(plain(members[i].1, (depth - 1) as nat));
                keyed_stays_plain(members[i].1, (depth - 1) as nat);
            }
            by_key_stays_plain(inner, (depth - 1) as nat);
            by_key_has_the_keys(inner);
            assert forall|key: Seq<char>| #[trigger]
                has_key(inner, key) <==> has_key(members, key) by {
                if has_key(inner, key) {
                    let i = choose|i: int| 0 <= i < inner.len() && (#[trigger] inner[i]).0 == key;
                    assert(members[i].0 == key);
                }
                if has_key(members, key) {
                    let i = choose|i: int|
                        0 <= i < members.len() && (#[trigger] members[i]).0 == key;
                    assert(inner[i].0 == key);
                }
            }
            assert(has_key(by_key(inner), raw_key()) <==> has_key(members, raw_key()));
            if !has_key(members, raw_key()) {
                assert(!reads_as_raw(by_key(inner)));
            } else {
                let key = choose|key: Seq<char>| #[trigger]
                    has_key(members, key) && text::lex_less(key, raw_key());
                assert(has_key(inner, key));
                assert(has_key(by_key(inner), key));
            }
        },
        _ => {},
    }
}

proof fn put_has_the_keys(members: Seq<(Seq<char>, JsonView)>, key: Seq<char>, value: JsonView)
    ensures
        forall|k: Seq<char>| #[trigger]
            has_key(put(members, key, value), k) <==> k == key || has_key(members, k),
    decreases members.len(),
{
    let all = put(members, key, value);
    if members.len() > 0 {
        put_has_the_keys(members.skip(1), key, value);
    }
    assert forall|k: Seq<char>| #[trigger] has_key(all, k) <==> k == key || has_key(
        members,
        k,
    ) by {
        if members.len() > 0 {
            head_and_rest(members, k);
        }
        head_and_rest(all, k);
        if members.len() == 0 {
            assert(all.skip(1) =~= Seq::empty());
        } else if members[0].0 == key {
            assert(all.skip(1) =~= members.skip(1));
        } else if text::lex_less(key, members[0].0) {
            assert(all.skip(1) =~= members);
        } else {
            assert(all.skip(1) =~= put(members.skip(1), key, value));
        }
    }
}

proof fn head_and_rest(members: Seq<(Seq<char>, JsonView)>, key: Seq<char>)
    requires
        members.len() > 0,
    ensures
        has_key(members, key) <==> members[0].0 == key || has_key(members.skip(1), key),
{
    let rest = members.skip(1);
    if has_key(members, key) {
        let i = choose|i: int| 0 <= i < members.len() && (#[trigger] members[i]).0 == key;
        if i > 0 {
            assert(rest[i - 1].0 == key);
        }
    }
    if has_key(rest, key) {
        let i = choose|i: int| 0 <= i < rest.len() && (#[trigger] rest[i]).0 == key;
        assert(members[i + 1].0 == key);
    }
}

proof fn by_key_has_the_keys(members: Seq<(Seq<char>, JsonView)>)
    ensures
        forall|k: Seq<char>| #[trigger] has_key(by_key(members), k) <==> has_key(members, k),
    decreases members.len(),
{
    if members.len() > 0 {
        let front = members.drop_last();
        let last = members.last();
        by_key_has_the_keys(front);
        put_has_the_keys(by_key(front), last.0, last.1);
        assert forall|k: Seq<char>| #[trigger] has_key(by_key(members), k) <==> has_key(
            members,
            k,
        ) by {
            assert(has_key(by_key(front), k) <==> has_key(front, k));
            if has_key(members, k) {
                let i = choose|i: int| 0 <= i < members.len() && (#[trigger] members[i]).0 == k;
                if i < front.len() {
                    assert(front[i].0 == k);
                }
            }
            if has_key(front, k) {
                let i = choose|i: int| 0 <= i < front.len() && (#[trigger] front[i]).0 == k;
                assert(members[i].0 == k);
            }
            assert(members[members.len() - 1].0 == last.0);
        }
    }
}

/// Whether the values of these members are plain.
spec fn all_plain(members: Seq<(Seq<char>, JsonView)>, depth: nat) -> bool {
    forall|i: int| 0 <= i < members.len() ==> plain((#[trigger] members[i]).1, depth)
}

proof fn put_stays_plain(
    members: Seq<(Seq<char>, JsonView)>,
    key: Seq<char>,
    value: JsonView,
    depth: nat,
)
    requires
        all_plain(members, depth),
        plain(value, depth),
    ensures
        all_plain(put(members, key, value), depth),
    decreases members.len(),
{
    if members.len() > 0 {
        let rest = members.skip(1);
        assert forall|i: int| 0 <= i < rest.len() implies plain((#[trigger] rest[i]).1, depth) by {
            assert(rest[i] == members[i + 1]);
        }
        put_stays_plain(rest, key, value, depth);
    }
}

proof fn by_key_stays_plain(members: Seq<(Seq<char>, JsonView)>, depth: nat)
    requires
        all_plain(members, depth),
    ensures
        all_plain(by_key(members), depth),
    decreases members.len(),
{
    if members.len() > 0 {
        let front = members.drop_last();
        assert forall|i: int| 0 <= i < front.len() implies plain((#[trigger] front[i]).1, depth) by {
            assert(front[i] == members[i]);
        }
        by_key_stays_plain(front, depth);
        assert(plain(members[members.len() - 1].1, depth));
        put_stays_plain(by_key(front), members.last().0, members.last().1, depth);
    }
}

/// Reads JSON text.
pub fn parse(bytes: &[u8]) -> (r: Result<Json, String>)
    ensures
        r is Ok <==> json_parsed(bytes@) is Some,
        r matches Ok(v) ==> json_parsed(bytes@) == Some(v@),
        r matches Err(e) ==> e@ == json_fault(bytes@),
{
    match parse_value(bytes) {
        Ok(v) => Ok(json_of(v)),
        Err(e) => Err(e),
    }
}

/// Writes compact JSON text. It holds no zero byte, and a plain value reads
/// back as what was written, its members ordered by key.
pub fn write(j: &Json) -> (r: Vec<u8>)
    ensures
        r@ == json_bytes(keyed(j@)),
        forall|i: int| 0 <= i < r@.len() ==> #[trigger] r@[i] != 0,
        plain(j@, 100) ==> json_parsed(r@) == Some(keyed(j@)),
{
    proof {
        if plain(j@, 100) {
            keyed_stays_plain(j@, 100);
        }
    }
    let v = value_of(j);
    value_bytes(&v)
}

/// Writes compact JSON text as a string.
pub fn write_text(j: &Json) -> (r: String)
    ensures
        r@ == json_text(keyed(j@)),
{
    let v = value_of(j);
    value_text(&v)
}

} // verus!
