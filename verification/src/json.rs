//! JSON documents, as `serde_json` holds, reads and writes them.
//!
//! A document is a `serde_json::Value`. [`json`] names what it holds, and each function
//! here that touches one states over that name what `serde_json` does.

use crate::double::{nan, rank, Double, ONE};
use crate::text::{
    chars_of, join, lemma_split_join, lemma_split_whole, number, numeric, opt_view, split,
};
use serde_json::Value;
use vstd::prelude::*;
use vstd::string::*;

verus! {

/// `serde_json::Value`, a JSON document. What it holds is [`json`].
#[verifier::external_type_specification]
#[verifier::external_body]
pub struct ExValue(serde_json::Value);

/// What a JSON document holds.
pub ghost enum Json {
    Null,
    Bool(bool),
    /// A number that is held as an integer.
    Whole(int),
    /// Any other number, by the bit pattern of its double.
    Real(u64),
    Text(Seq<char>),
    Array(Seq<Json>),
    Object(Map<Seq<char>, Json>),
}

/// What a `serde_json::Value` holds, variant for variant. A number is whole where it is held
/// as an integer, and real where it is held as a double. An object is the map of its members.
pub uninterp spec fn json(v: Value) -> Json;

/// What an optional document holds.
pub open spec fn opt_json(o: Option<&Value>) -> Option<Json> {
    match o {
        Some(v) => Some(json(*v)),
        None => None,
    }
}

// ---- Reading and writing ----

/// What `serde_json::from_slice` reads in a row of bytes: a document, or the text of the
/// error that it reports.
pub uninterp spec fn read_bytes(bytes: Seq<u8>) -> Result<Json, Seq<char>>;

/// What `serde_json::from_str` reads in a text: a document, or the text of the error that
/// it reports.
pub uninterp spec fn read_text(s: Seq<char>) -> Result<Json, Seq<char>>;

/// The text that `Value`'s `Display` writes for a document.
pub uninterp spec fn written_text(j: Json) -> Seq<char>;

/// The bytes that `serde_json::to_vec` writes for a document.
pub uninterp spec fn written_bytes(j: Json) -> Seq<u8>;

/// The document or the error text of a reading.
pub open spec fn reading(r: Result<Value, String>) -> Result<Json, Seq<char>> {
    match r {
        Ok(v) => Ok(json(v)),
        Err(e) => Err(e@),
    }
}

/// `serde_json::from_slice` reads a document, or reports an error. Which of the two, and
/// what it holds, depends on the bytes alone.
#[verifier::external_body]
pub(crate) fn from_slice(bytes: &[u8]) -> (r: Result<Value, String>)
    ensures
        reading(r) == read_bytes(bytes@),
{
    serde_json::from_slice(bytes).map_err(|e| e.to_string())
}

/// `serde_json::from_str` reads a document, or reports an error. Which of the two, and
/// what it holds, depends on the text alone.
#[verifier::external_body]
pub(crate) fn from_text(s: &str) -> (r: Result<Value, String>)
    ensures
        reading(r) == read_text(s@),
{
    serde_json::from_str(s).map_err(|e| e.to_string())
}

/// `Value`'s `Display` writes the document as compact JSON. The text depends on what the
/// document holds alone: objects are held sorted, so that their members come in the order of
/// their keys.
#[verifier::external_body]
pub(crate) fn to_text(v: &Value) -> (r: String)
    ensures
        r@ == written_text(json(*v)),
{
    v.to_string()
}

/// `serde_json::to_vec` writes the document as compact JSON. The bytes depend on what the
/// document holds alone. It fails only where a value cannot be serialised or a key is no
/// text, and neither occurs in a document.
#[verifier::external_body]
pub(crate) fn to_bytes(v: &Value) -> (r: Result<Vec<u8>, String>)
    ensures
        r is Ok,
        r->Ok_0@ == written_bytes(json(*v)),
{
    serde_json::to_vec(v).map_err(|e| e.to_string())
}

// ---- Looking into a document ----

/// The text, where `j` is one.
pub open spec fn text_in(j: Json) -> Option<Seq<char>> {
    match j {
        Json::Text(s) => Some(s),
        _ => None,
    }
}

/// The truth value, where `j` is one.
pub open spec fn bool_in(j: Json) -> Option<bool> {
    match j {
        Json::Bool(b) => Some(b),
        _ => None,
    }
}

/// The double that `Value::as_f64` gives for a whole number.
pub uninterp spec fn nearest_double(n: int) -> u64;

/// The number, where `j` is one.
pub open spec fn double_in(j: Json) -> Option<u64> {
    match j {
        Json::Whole(n) => Some(nearest_double(n)),
        Json::Real(bits) => Some(bits),
        _ => None,
    }
}

/// The member of `j` under `key`, where `j` is an object that has it.
pub open spec fn member(j: Json, key: Seq<char>) -> Option<Json> {
    match j {
        Json::Object(m) => if m.dom().contains(key) {
            Some(m[key])
        } else {
            None
        },
        _ => None,
    }
}

/// `token` is the decimal of a place in an array, without a sign or leading zeros.
pub open spec fn index_token(token: Seq<char>) -> bool {
    numeric(token) && (token.len() == 1 || token[0] != '0')
}

/// What lies under `token` in `j`: the member of an object, or the element of an array
/// whose place `token` writes.
pub open spec fn child(j: Json, token: Seq<char>) -> Option<Json> {
    match j {
        Json::Object(_) => member(j, token),
        Json::Array(a) => if index_token(token) && number(token) < a.len() {
            Some(a[number(token) as int])
        } else {
            None
        },
        _ => None,
    }
}

/// `s` with each `~` that is followed by `code` replaced, with it, by `c`.
pub open spec fn unescape(s: Seq<char>, code: char, c: char) -> Seq<char>
    decreases s.len(),
{
    if s.len() == 0 {
        s
    } else if s.len() >= 2 && s[0] == '~' && s[1] == code {
        seq![c] + unescape(s.skip(2), code, c)
    } else {
        seq![s[0]] + unescape(s.skip(1), code, c)
    }
}

/// The key or place that one token of a JSON Pointer writes.
pub open spec fn token_text(token: Seq<char>) -> Seq<char> {
    unescape(unescape(token, '1', '/'), '0', '~')
}

/// What lies in `j` under each of `tokens` in turn.
pub open spec fn walk(j: Json, tokens: Seq<Seq<char>>) -> Option<Json>
    decreases tokens.len(),
{
    if tokens.len() == 0 {
        Some(j)
    } else {
        match child(j, token_text(tokens[0])) {
            Some(next) => walk(next, tokens.skip(1)),
            None => None,
        }
    }
}

/// What a JSON Pointer (RFC 6901) addresses in `j`.
pub open spec fn at_pointer(j: Json, pointer: Seq<char>) -> Option<Json> {
    if pointer.len() == 0 {
        Some(j)
    } else if pointer[0] != '/' {
        None
    } else {
        walk(j, split(pointer.skip(1), '/'))
    }
}

/// `Value::as_str` gives the text of a text, and nothing for anything else.
#[verifier::external_body]
pub(crate) fn as_text(v: &Value) -> (r: Option<String>)
    ensures
        opt_view(r) == text_in(json(*v)),
{
    v.as_str().map(|s| s.to_string())
}

/// `Value::as_bool` gives the truth value of a truth value, and nothing for anything else.
#[verifier::external_body]
pub(crate) fn as_bool(v: &Value) -> (r: Option<bool>)
    ensures
        r == bool_in(json(*v)),
{
    v.as_bool()
}

/// `Value::as_f64` gives the double of a number, and nothing for anything else. A document
/// holds no NaN. Of a whole number the contract says on which side of 0 and of 1 its double
/// lies, not which double it is.
#[verifier::external_body]
pub(crate) fn as_double(v: &Value) -> (r: Option<Double>)
    ensures
        double_in(json(*v)) == (match r {
            Some(d) => Some(d.bits),
            None => None,
        }),
        r matches Some(d) ==> !nan(d.bits),
        r matches Some(d) ==> (json(*v) matches Json::Whole(n) ==> {
            &&& d.bits == nearest_double(n)
            &&& n == 0 ==> d.bits == 0
            &&& n < 0 ==> rank(d.bits) < 0
            &&& n == 1 ==> d.bits == ONE
            &&& n > 1 ==> rank(d.bits) > ONE
        }),
{
    v.as_f64().map(|x| Double { bits: x.to_bits() })
}

/// `Value::get` with a text gives the member of an object under that key, and nothing for
/// a missing key or anything but an object.
#[verifier::external_body]
pub(crate) fn get<'a>(v: &'a Value, key: &str) -> (r: Option<&'a Value>)
    ensures
        opt_json(r) == member(json(*v), key@),
{
    v.get(key)
}

/// `Value::pointer` gives what a JSON Pointer (RFC 6901) addresses in the document, and
/// nothing where it addresses nothing.
#[verifier::external_body]
pub(crate) fn pointer<'a>(v: &'a Value, path: &str) -> (r: Option<&'a Value>)
    ensures
        opt_json(r) == at_pointer(json(*v), path@),
{
    v.pointer(path)
}

// ---- Building a document ----

/// No two of `entries` are under one key.
pub open spec fn distinct_keys(entries: Seq<(String, Value)>) -> bool {
    forall|i: int, j: int|
        0 <= i < j < entries.len() ==> (#[trigger] entries[i]).0@ != (#[trigger] entries[j]).0@
}

/// The members of an object that is made of `entries`, with one for each.
pub open spec fn members(entries: Seq<(String, Value)>) -> Map<Seq<char>, Json>
    decreases entries.len(),
{
    if entries.len() == 0 {
        Map::empty()
    } else {
        members(entries.drop_last()).insert(entries.last().0@, json(entries.last().1))
    }
}

/// `Value::String` holds the text.
#[verifier::external_body]
pub(crate) fn text_value(s: &str) -> (r: Value)
    ensures
        json(r) == Json::Text(s@),
{
    Value::String(s.to_string())
}

/// `Value::Bool` holds the truth value.
#[verifier::external_body]
pub(crate) fn bool_value(b: bool) -> (r: Value)
    ensures
        json(r) == Json::Bool(b),
{
    Value::Bool(b)
}

/// `Value::from` of a `u64` holds that whole number.
#[verifier::external_body]
pub(crate) fn whole_value(n: u64) -> (r: Value)
    ensures
        json(r) == Json::Whole(n as int),
{
    Value::from(n)
}

/// `Value::Array` holds the documents in their order.
#[verifier::external_body]
pub(crate) fn array_value(items: Vec<Value>) -> (r: Value)
    ensures
        json(r) == Json::Array(items@.map_values(|v: Value| json(v))),
{
    Value::Array(items)
}

/// Collecting entries into a `Value` gives an object with those members. Of two entries under
/// one key the contract says nothing: there are none.
#[verifier::external_body]
pub(crate) fn object_value(entries: Vec<(String, Value)>) -> (r: Value)
    requires
        distinct_keys(entries@),
    ensures
        json(r) == Json::Object(members(entries@)),
{
    entries.into_iter().collect()
}

/// `Value::clone` gives a document that holds the same.
#[verifier::external_body]
pub(crate) fn copy_value(v: &Value) -> (r: Value)
    ensures
        json(r) == json(*v),
{
    v.clone()
}

/// One entry of an object.
pub(crate) fn entry(key: &str, value: Value) -> (r: (String, Value))
    ensures
        r.0@ == key@,
        r.1 == value,
{
    (key.to_owned(), value)
}

/// An entry of an object that holds a text.
pub(crate) fn text_entry(key: &str, s: &str) -> (r: (String, Value))
    ensures
        r.0@ == key@,
        json(r.1) == Json::Text(s@),
{
    (key.to_owned(), text_value(s))
}

/// An array of texts.
pub(crate) fn texts_value(items: &Vec<String>) -> (r: Value)
    ensures
        json(r) == Json::Array(items@.map_values(|s: String| Json::Text(s@))),
{
    let mut values: Vec<Value> = Vec::new();
    let mut i: usize = 0;
    while i < items.len()
        invariant
            i <= items@.len(),
            values@.len() == i,
            forall|j: int| 0 <= j < i ==> json(#[trigger] values@[j]) == Json::Text(items@[j]@),
        decreases items@.len() - i,
    {
        values.push(text_value(items[i].as_str()));
        i += 1;
    }
    assert(values@.map_values(|v: Value| json(v)) == items@.map_values(
        |s: String| Json::Text(s@),
    ));
    array_value(values)
}

// ---- Pointers ----

/// `key` stands in a pointer as it is: it holds no `/`, and no `~` that stands before a `0`
/// or a `1`.
pub open spec fn plain_key(key: Seq<char>) -> bool {
    !key.contains('/') && unescaped(key, '0') && unescaped(key, '1')
}

/// No `~` in `s` stands before `code`.
pub open spec fn unescaped(s: Seq<char>, code: char) -> bool {
    forall|i: int| 0 <= i < s.len() - 1 && #[trigger] s[i] == '~' ==> s[i + 1] != code
}

/// Text without an escape is left as it is.
proof fn lemma_unescape_plain(s: Seq<char>, code: char, c: char)
    requires
        unescaped(s, code),
    ensures
        unescape(s, code, c) == s,
    decreases s.len(),
{
    if s.len() > 0 {
        let t = s.skip(1);
        assert forall|k: int| 0 <= k < t.len() - 1 && #[trigger] t[k] == '~' implies t[k + 1]
            != code by {
            assert(s[k + 1] == '~');
        }
        lemma_unescape_plain(t, code, c);
        assert(seq![s[0]] + s.skip(1) =~= s);
    }
}

/// A pointer made of plain keys addresses what lies under them in turn.
pub proof fn lemma_pointer_keys(j: Json, keys: Seq<Seq<char>>)
    requires
        keys.len() > 0,
        forall|i: int| 0 <= i < keys.len() ==> plain_key(#[trigger] keys[i]),
    ensures
        at_pointer(j, seq!['/'] + join(keys, '/')) == under(j, keys),
{
    let p = seq!['/'] + join(keys, '/');
    assert(p.skip(1) =~= join(keys, '/'));
    assert forall|i: int| 0 <= i < keys.len() implies !(#[trigger] keys[i]).contains('/') by {
        assert(plain_key(keys[i]));
    }
    lemma_split_join(keys, '/');
    lemma_walk_keys(j, keys);
}

/// What lies in `j` under each of `keys` in turn, taken as they are.
pub open spec fn under(j: Json, keys: Seq<Seq<char>>) -> Option<Json>
    decreases keys.len(),
{
    if keys.len() == 0 {
        Some(j)
    } else {
        match child(j, keys[0]) {
            Some(next) => under(next, keys.skip(1)),
            None => None,
        }
    }
}

/// Walking along plain keys goes from one to the next.
proof fn lemma_walk_keys(j: Json, keys: Seq<Seq<char>>)
    requires
        forall|i: int| 0 <= i < keys.len() ==> plain_key(#[trigger] keys[i]),
    ensures
        walk(j, keys) == under(j, keys),
    decreases keys.len(),
{
    if keys.len() > 0 {
        assert(plain_key(keys[0]));
        lemma_unescape_plain(keys[0], '1', '/');
        lemma_unescape_plain(keys[0], '0', '~');
        assert forall|i: int| 0 <= i < keys.skip(1).len() implies plain_key(
            #[trigger] keys.skip(1)[i],
        ) by {
            assert(keys.skip(1)[i] == keys[i + 1]);
        }
        if let Some(next) = child(j, keys[0]) {
            lemma_walk_keys(next, keys.skip(1));
        }
    }
}

/// What stands in a pointer for one character of a key.
pub open spec fn escaped_char(c: char) -> Seq<char> {
    if c == '~' {
        seq!['~', '0']
    } else if c == '/' {
        seq!['~', '1']
    } else {
        seq![c]
    }
}

/// What stands in a pointer for a key.
pub open spec fn escaped(key: Seq<char>) -> Seq<char>
    decreases key.len(),
{
    if key.len() == 0 {
        key
    } else {
        escaped_char(key[0]) + escaped(key.skip(1))
    }
}

/// `key` with only its `~` escaped.
spec fn half_escaped(key: Seq<char>) -> Seq<char>
    decreases key.len(),
{
    if key.len() == 0 {
        key
    } else if key[0] == '~' {
        seq!['~', '0'] + half_escaped(key.skip(1))
    } else {
        seq![key[0]] + half_escaped(key.skip(1))
    }
}

/// An escaped key holds no `/`, and its token is the key.
proof fn lemma_escaped(key: Seq<char>)
    ensures
        !escaped(key).contains('/'),
        unescape(escaped(key), '1', '/') == half_escaped(key),
        unescape(half_escaped(key), '0', '~') == key,
    decreases key.len(),
{
    if key.len() > 0 {
        let rest = key.skip(1);
        lemma_escaped(rest);
        let e = escaped(key);
        let h = half_escaped(key);
        let front = escaped_char(key[0]);
        assert forall|k: int| 0 <= k < e.len() implies e[k] != '/' by {
            if k >= front.len() {
                assert(e[k] == escaped(rest)[k - front.len()]);
            }
        }
        assert(seq![key[0]] + rest =~= key);
        if key[0] == '~' {
            assert(e.skip(1).skip(1) =~= escaped(rest));
            reveal_with_fuel(unescape, 3);
            assert(unescape(e, '1', '/') =~= h);
            assert(h.skip(2) =~= half_escaped(rest));
        } else if key[0] == '/' {
            assert(e.skip(2) =~= escaped(rest));
            assert(unescape(e, '1', '/') =~= h);
            assert(h.skip(1) =~= half_escaped(rest));
        } else {
            assert(e.skip(1) =~= escaped(rest));
            assert(unescape(e, '1', '/') =~= h);
            assert(h.skip(1) =~= half_escaped(rest));
        }
    }
}

/// What stands in a pointer for a key.
fn escape(key: &str) -> (r: String)
    ensures
        r@ == escaped(key@),
{
    let chars = chars_of(key);
    let mut out = String::new();
    let mut i: usize = 0;
    assert(key@.skip(0) == key@);
    while i < chars.len()
        invariant
            i <= chars@.len(),
            chars@ == key@,
            out@ + escaped(key@.skip(i as int)) == escaped(key@),
        decreases chars@.len() - i,
    {
        let c = chars[i];
        let ghost before = out@;
        if c == '~' {
            out.push('~');
            out.push('0');
        } else if c == '/' {
            out.push('~');
            out.push('1');
        } else {
            out.push(c);
        }
        proof {
            assert(out@ =~= before + escaped_char(c));
            assert(key@.skip(i as int).skip(1) =~= key@.skip(i + 1));
            assert(before + (escaped_char(c) + escaped(key@.skip(i + 1))) =~= (before
                + escaped_char(c)) + escaped(key@.skip(i + 1)));
        }
        i += 1;
    }
    assert(out@ + escaped(key@.skip(i as int)) == out@);
    out
}

/// What lies in a document under `key`: the member of an object, or the element of an array
/// whose place `key` writes.
pub(crate) fn child_of<'a>(v: &'a Value, key: &str) -> (r: Option<&'a Value>)
    ensures
        opt_json(r) == child(json(*v), key@),
{
    let mut place = "/".to_owned();
    let token = escape(key);
    place.append(token.as_str());
    proof {
        reveal_strlit("/");
        lemma_escaped(key@);
        assert(place@[0] == '/');
        assert(place@.skip(1) =~= token@);
        lemma_split_whole(token@, '/');
        assert(seq![token@].skip(1) =~= Seq::empty());
        reveal_with_fuel(walk, 2);
        assert(walk(json(*v), seq![token@]) == child(json(*v), key@));
    }
    pointer(v, place.as_str())
}

} // verus!
