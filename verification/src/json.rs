//! A JSON document model, its compact canonical text, and structural queries.
//!
//! Objects keep their members in the order given; documents read from the
//! outside world arrive with members sorted by key and without duplicate keys,
//! which is the order `serde_json` (without `preserve_order`) both keeps and
//! writes.

use vstd::prelude::*;
use crate::text::{chars_of, chars_eq, decimal, signed_decimal, hex_char, decimal_exec,
    signed_decimal_exec, extend_chars, hex_char_exec, join, join_exec};
use crate::order::{views, lex_lt, lex_le_exec};
use serde_json::Value;

verus! {

/// A JSON number as `serde_json` distinguishes it.
pub enum JsonNumber {
    /// A non-negative integer.
    PosInt(u64),
    /// A negative integer.
    NegInt(i64),
    /// Any other number, held as the text `serde_json` writes for it.
    Float(String),
}

/// A JSON document.
pub enum JsonValue {
    Null,
    Bool(bool),
    Number(JsonNumber),
    Str(String),
    Array(Vec<JsonValue>),
    Object(Vec<(String, JsonValue)>),
}

// ---------------------------------------------------------------------------
// Member lookup.
// ---------------------------------------------------------------------------

/// The first member position at or after `i` whose key is `key`.
pub open spec fn key_index_from(entries: Seq<(String, JsonValue)>, key: Seq<char>, i: int) -> Option<int>
    decreases entries.len() - i,
{
    if i < 0 || i >= entries.len() {
        None
    } else if entries[i].0@ == key {
        Some(i)
    } else {
        key_index_from(entries, key, i + 1)
    }
}

/// The member named `key` of an object; `None` for an absent key or a non-object.
pub open spec fn json_get(v: JsonValue, key: Seq<char>) -> Option<JsonValue> {
    match v {
        JsonValue::Object(entries) => match key_index_from(entries@, key, 0) {
            Some(i) => Some(entries@[i].1),
            None => None,
        },
        _ => None,
    }
}

/// Equality of two string slices.
pub fn str_eq(a: &str, b: &str) -> (r: bool)
    ensures
        r == (a@ == b@),
{
    let av = chars_of(a);
    let bv = chars_of(b);
    chars_eq(&av, &bv)
}

/// The member named `key` of an object member list.
pub fn entries_get<'a>(entries: &'a Vec<(String, JsonValue)>, key: &str) -> (r: Option<&'a JsonValue>)
    ensures
        match key_index_from(entries@, key@, 0) {
            Some(i) => r == Some(&entries@[i].1),
            None => r is None,
        },
{
    let mut i: usize = 0;
    while i < entries.len()
        invariant
            i <= entries.len(),
            key_index_from(entries@, key@, 0) == key_index_from(entries@, key@, i as int),
        decreases entries.len() - i,
    {
        if str_eq(entries[i].0.as_str(), key) {
            return Some(&entries[i].1);
        }
        i += 1;
    }
    None
}

/// `Value::get` with a string key.
pub fn json_get_exec<'a>(v: &'a JsonValue, key: &str) -> (r: Option<&'a JsonValue>)
    ensures
        match json_get(*v, key@) {
            Some(m) => r == Some(&m),
            None => r is None,
        },
{
    match v {
        JsonValue::Object(entries) => entries_get(entries, key),
        _ => None,
    }
}

// ---------------------------------------------------------------------------
// Nesting depth.
// ---------------------------------------------------------------------------

/// The number of nested containers: 0 for a scalar, one more than the deepest member otherwise.
pub open spec fn json_depth(v: JsonValue) -> nat
    decreases v, 0nat,
{
    match v {
        JsonValue::Array(items) => 1 + items_depth(items, items.len() as nat),
        JsonValue::Object(entries) => 1 + entries_depth(entries, entries.len() as nat),
        _ => 0,
    }
}

/// The greatest depth among the first `n` items.
pub open spec fn items_depth(items: Vec<JsonValue>, n: nat) -> nat
    decreases items, n,
{
    if n == 0 || n > items.len() {
        0
    } else {
        let rest = items_depth(items, (n - 1) as nat);
        let here = json_depth(items[n - 1]);
        if here > rest { here } else { rest }
    }
}

/// The greatest depth among the values of the first `n` members.
pub open spec fn entries_depth(entries: Vec<(String, JsonValue)>, n: nat) -> nat
    decreases entries, n,
{
    if n == 0 || n > entries.len() {
        0
    } else {
        let rest = entries_depth(entries, (n - 1) as nat);
        let here = json_depth(entries[n - 1].1);
        if here > rest { here } else { rest }
    }
}

proof fn lemma_items_depth_bound(items: Vec<JsonValue>, n: nat, j: int)
    requires
        0 <= j < n <= items.len(),
    ensures
        items_depth(items, n) >= json_depth(items[j]),
    decreases n,
{
    if j < n - 1 {
        lemma_items_depth_bound(items, (n - 1) as nat, j);
    }
}

proof fn lemma_entries_depth_bound(entries: Vec<(String, JsonValue)>, n: nat, j: int)
    requires
        0 <= j < n <= entries.len(),
    ensures
        entries_depth(entries, n) >= json_depth(entries[j].1),
    decreases n,
{
    if j < n - 1 {
        lemma_entries_depth_bound(entries, (n - 1) as nat, j);
    }
}

/// Whether the document nests at most `limit` containers.
pub fn depth_within(v: &JsonValue, limit: usize) -> (r: bool)
    ensures
        r == (json_depth(*v) <= limit),
    decreases *v,
{
    match v {
        JsonValue::Array(items) => {
            if limit == 0 {
                return false;
            }
            let mut i: usize = 0;
            while i < items.len()
                invariant
                    i <= items.len(),
                    limit > 0,
                    *v == JsonValue::Array(*items),
                    items_depth(*items, i as nat) <= limit - 1,
                decreases items.len() - i,
            {
                proof {
                    assert(decreases_to!(*v => (*v)->Array_0));
                    assert(decreases_to!(*items => items[i as int]));
                }
                if !depth_within(&items[i], limit - 1) {
                    proof {
                        lemma_items_depth_bound(*items, items.len() as nat, i as int);
                    }
                    return false;
                }
                i += 1;
            }
            true
        },
        JsonValue::Object(entries) => {
            if limit == 0 {
                return false;
            }
            let mut i: usize = 0;
            while i < entries.len()
                invariant
                    i <= entries.len(),
                    limit > 0,
                    *v == JsonValue::Object(*entries),
                    entries_depth(*entries, i as nat) <= limit - 1,
                decreases entries.len() - i,
            {
                proof {
                    assert(decreases_to!(*v => (*v)->Object_0));
                    assert(decreases_to!(*entries => entries[i as int]));
                    assert(decreases_to!(entries[i as int] => entries[i as int].1));
                }
                if !depth_within(&entries[i].1, limit - 1) {
                    proof {
                        lemma_entries_depth_bound(*entries, entries.len() as nat, i as int);
                    }
                    return false;
                }
                i += 1;
            }
            true
        },
        _ => true,
    }
}

// ---------------------------------------------------------------------------
// Document equality (`Value`'s `==`).
// ---------------------------------------------------------------------------

/// Equality of numbers; numbers that are not integers compare by their text.
pub open spec fn number_same(a: JsonNumber, b: JsonNumber) -> bool {
    match (a, b) {
        (JsonNumber::PosInt(x), JsonNumber::PosInt(y)) => x == y,
        (JsonNumber::NegInt(x), JsonNumber::NegInt(y)) => x == y,
        (JsonNumber::Float(x), JsonNumber::Float(y)) => x@ == y@,
        _ => false,
    }
}

/// Equality of two documents whose objects keep their members by key.
pub open spec fn json_same(a: JsonValue, b: JsonValue) -> bool
    decreases a, 0nat,
{
    match a {
        JsonValue::Null => b is Null,
        JsonValue::Bool(x) => b matches JsonValue::Bool(y) && x == y,
        JsonValue::Number(x) => b matches JsonValue::Number(y) && number_same(x, y),
        JsonValue::Str(x) => b matches JsonValue::Str(y) && x@ == y@,
        JsonValue::Array(xs) => b matches JsonValue::Array(ys) && xs.len() == ys.len()
            && items_same(xs, ys, xs.len() as nat),
        JsonValue::Object(es) => b matches JsonValue::Object(fs) && es.len() == fs.len()
            && entries_same(es, fs, es.len() as nat),
    }
}

/// Whether the first `n` items agree.
pub open spec fn items_same(xs: Vec<JsonValue>, ys: Vec<JsonValue>, n: nat) -> bool
    decreases xs, n,
{
    if n == 0 {
        true
    } else if n > xs.len() || n > ys.len() {
        false
    } else {
        items_same(xs, ys, (n - 1) as nat) && json_same(xs[n - 1], ys[n - 1])
    }
}

/// Whether the first `n` members agree in key and value.
pub open spec fn entries_same(es: Vec<(String, JsonValue)>, fs: Vec<(String, JsonValue)>, n: nat) -> bool
    decreases es, n,
{
    if n == 0 {
        true
    } else if n > es.len() || n > fs.len() {
        false
    } else {
        entries_same(es, fs, (n - 1) as nat) && es[n - 1].0@ == fs[n - 1].0@
            && json_same(es[n - 1].1, fs[n - 1].1)
    }
}

proof fn lemma_items_same_prefix(xs: Vec<JsonValue>, ys: Vec<JsonValue>, n: nat, j: int)
    requires
        items_same(xs, ys, n),
        0 <= j < n,
    ensures
        json_same(xs[j], ys[j]),
    decreases n,
{
    if j < n - 1 {
        lemma_items_same_prefix(xs, ys, (n - 1) as nat, j);
    }
}

proof fn lemma_entries_same_prefix(es: Vec<(String, JsonValue)>, fs: Vec<(String, JsonValue)>, n: nat, j: int)
    requires
        entries_same(es, fs, n),
        0 <= j < n,
    ensures
        es[j].0@ == fs[j].0@ && json_same(es[j].1, fs[j].1),
    decreases n,
{
    if j < n - 1 {
        lemma_entries_same_prefix(es, fs, (n - 1) as nat, j);
    }
}

fn number_equal(a: &JsonNumber, b: &JsonNumber) -> (r: bool)
    ensures
        r == number_same(*a, *b),
{
    match (a, b) {
        (JsonNumber::PosInt(x), JsonNumber::PosInt(y)) => *x == *y,
        (JsonNumber::NegInt(x), JsonNumber::NegInt(y)) => *x == *y,
        (JsonNumber::Float(x), JsonNumber::Float(y)) => str_eq(x.as_str(), y.as_str()),
        _ => false,
    }
}

/// Whether two documents are equal.
pub fn json_equal(a: &JsonValue, b: &JsonValue) -> (r: bool)
    ensures
        r == json_same(*a, *b),
    decreases *a,
{
    match a {
        JsonValue::Null => matches!(b, JsonValue::Null),
        JsonValue::Bool(x) => match b {
            JsonValue::Bool(y) => *x == *y,
            _ => false,
        },
        JsonValue::Number(x) => match b {
            JsonValue::Number(y) => number_equal(x, y),
            _ => false,
        },
        JsonValue::Str(x) => match b {
            JsonValue::Str(y) => str_eq(x.as_str(), y.as_str()),
            _ => false,
        },
        JsonValue::Array(xs) => match b {
            JsonValue::Array(ys) => {
                if xs.len() != ys.len() {
                    return false;
                }
                let mut i: usize = 0;
                while i < xs.len()
                    invariant
                        i <= xs.len(),
                        xs.len() == ys.len(),
                        *a == JsonValue::Array(*xs),
                        *b == JsonValue::Array(*ys),
                        items_same(*xs, *ys, i as nat),
                    decreases xs.len() - i,
                {
                    proof {
                        assert(decreases_to!(*a => (*a)->Array_0));
                        assert(decreases_to!(*xs => xs[i as int]));
                    }
                    if !json_equal(&xs[i], &ys[i]) {
                        proof {
                            if items_same(*xs, *ys, xs.len() as nat) {
                                lemma_items_same_prefix(*xs, *ys, xs.len() as nat, i as int);
                            }
                        }
                        return false;
                    }
                    i += 1;
                }
                true
            },
            _ => false,
        },
        JsonValue::Object(es) => match b {
            JsonValue::Object(fs) => {
                if es.len() != fs.len() {
                    return false;
                }
                let mut i: usize = 0;
                while i < es.len()
                    invariant
                        i <= es.len(),
                        es.len() == fs.len(),
                        *a == JsonValue::Object(*es),
                        *b == JsonValue::Object(*fs),
                        entries_same(*es, *fs, i as nat),
                    decreases es.len() - i,
                {
                    proof {
                        assert(decreases_to!(*a => (*a)->Object_0));
                        assert(decreases_to!(*es => es[i as int]));
                        assert(decreases_to!(es[i as int] => es[i as int].1));
                    }
                    let same_key = str_eq(es[i].0.as_str(), fs[i].0.as_str());
                    if !same_key || !json_equal(&es[i].1, &fs[i].1) {
                        proof {
                            if entries_same(*es, *fs, es.len() as nat) {
                                lemma_entries_same_prefix(*es, *fs, es.len() as nat, i as int);
                            }
                        }
                        return false;
                    }
                    i += 1;
                }
                true
            },
            _ => false,
        },
    }
}

// ---------------------------------------------------------------------------
// Canonical documents.
// ---------------------------------------------------------------------------

/// A document as `serde_json` holds one: every object's members strictly
/// ascending by key (so sorted and without a repeated key), at every depth.
/// On such documents `json_same` is `Value`'s `==`.
pub open spec fn json_canonical(v: JsonValue) -> bool
    decreases v, 0nat,
{
    match v {
        JsonValue::Array(xs) => items_canonical(xs, xs.len() as nat),
        JsonValue::Object(es) => entries_canonical(es, es.len() as nat),
        _ => true,
    }
}

/// Whether the first `n` items are canonical.
pub open spec fn items_canonical(xs: Vec<JsonValue>, n: nat) -> bool
    decreases xs, n,
{
    if n == 0 {
        true
    } else if n > xs.len() {
        false
    } else {
        items_canonical(xs, (n - 1) as nat) && json_canonical(xs[n - 1])
    }
}

/// Whether the first `n` members are canonical and strictly ascending by key.
pub open spec fn entries_canonical(es: Vec<(String, JsonValue)>, n: nat) -> bool
    decreases es, n,
{
    if n == 0 {
        true
    } else if n > es.len() {
        false
    } else {
        &&& entries_canonical(es, (n - 1) as nat)
        &&& json_canonical(es[n - 1].1)
        &&& (n >= 2 ==> lex_lt(es[n - 2].0@, es[n - 1].0@))
    }
}

/// Whether a document is canonical.
pub fn json_is_canonical(v: &JsonValue) -> (r: bool)
    ensures
        r == json_canonical(*v),
    decreases *v,
{
    match v {
        JsonValue::Array(xs) => {
            let mut i: usize = 0;
            while i < xs.len()
                invariant
                    i <= xs.len(),
                    *v == JsonValue::Array(*xs),
                    items_canonical(*xs, i as nat),
                decreases xs.len() - i,
            {
                proof {
                    assert(decreases_to!(*v => (*v)->Array_0));
                    assert(decreases_to!(*xs => xs[i as int]));
                }
                if !json_is_canonical(&xs[i]) {
                    proof {
                        if items_canonical(*xs, xs.len() as nat) {
                            lemma_items_canonical_prefix(*xs, xs.len() as nat, (i + 1) as nat);
                        }
                    }
                    return false;
                }
                i += 1;
            }
            true
        },
        JsonValue::Object(es) => {
            let mut i: usize = 0;
            while i < es.len()
                invariant
                    i <= es.len(),
                    *v == JsonValue::Object(*es),
                    entries_canonical(*es, i as nat),
                decreases es.len() - i,
            {
                proof {
                    assert(decreases_to!(*v => (*v)->Object_0));
                    assert(decreases_to!(*es => es[i as int]));
                    assert(decreases_to!(es[i as int] => es[i as int].1));
                }
                let ascending = if i == 0 {
                    true
                } else {
                    let before = chars_of(es[i - 1].0.as_str());
                    let key = chars_of(es[i].0.as_str());
                    lex_le_exec(&before, &key) && !chars_eq(&before, &key)
                };
                if !ascending || !json_is_canonical(&es[i].1) {
                    proof {
                        if entries_canonical(*es, es.len() as nat) {
                            lemma_entries_canonical_prefix(*es, es.len() as nat, (i + 1) as nat);
                        }
                    }
                    return false;
                }
                i += 1;
            }
            true
        },
        _ => true,
    }
}

proof fn lemma_items_canonical_prefix(xs: Vec<JsonValue>, n: nat, m: nat)
    requires
        items_canonical(xs, n),
        m <= n,
    ensures
        items_canonical(xs, m),
    decreases n,
{
    if m < n {
        lemma_items_canonical_prefix(xs, (n - 1) as nat, m);
    }
}

proof fn lemma_entries_canonical_prefix(es: Vec<(String, JsonValue)>, n: nat, m: nat)
    requires
        entries_canonical(es, n),
        m <= n,
    ensures
        entries_canonical(es, m),
    decreases n,
{
    if m < n {
        lemma_entries_canonical_prefix(es, (n - 1) as nat, m);
    }
}

// ---------------------------------------------------------------------------
// Reading documents.
// ---------------------------------------------------------------------------

#[verifier::external_type_specification]
#[verifier::external_body]
pub struct ExSerdeJsonValue(serde_json::Value);

/// The document `serde_json::from_slice::<serde_json::Value>` reads from the
/// bytes, in the library's form; `None` where the bytes are not one JSON document.
pub uninterp spec fn json_document(bytes: Seq<u8>) -> Option<JsonValue>;

/// `serde_json::from_slice::<serde_json::Value>`, converted member for member.
/// The contract names the outcome (`json_document`) and adds one fact the
/// crate's source shows: without the `preserve_order` feature a
/// `serde_json::Map` is a `BTreeMap<String, Value>`, so every object comes back
/// with its members ascending by key, one per key (`json_canonical`). The JSON
/// grammar `serde_json` accepts is not restated here.
#[verifier::external_body]
pub fn parse_json_document(bytes: &[u8]) -> (r: Option<JsonValue>)
    ensures
        r == json_document(bytes@),
        r matches Some(v) ==> json_canonical(v),
{
    serde_json::from_slice::<serde_json::Value>(bytes).ok().map(|value| json_from_serde(&value))
}

/// Converts a `serde_json::Value` into the library's form, one node for one
/// node, keeping the map's member order; no contract: only
/// `parse_json_document` calls it.
#[verifier::external_body]
fn json_from_serde(value: &Value) -> JsonValue {
    match value {
        Value::Null => JsonValue::Null,
        Value::Bool(b) => JsonValue::Bool(*b),
        Value::Number(n) => JsonValue::Number(match (n.as_u64(), n.as_i64()) {
            (Some(u), _) => JsonNumber::PosInt(u),
            (None, Some(i)) => JsonNumber::NegInt(i),
            _ => JsonNumber::Float(n.to_string()),
        }),
        Value::String(s) => JsonValue::Str(s.clone()),
        Value::Array(items) => JsonValue::Array(items.iter().map(json_from_serde).collect()),
        Value::Object(map) => JsonValue::Object(map.iter().map(|(k, v)| (k.clone(), json_from_serde(v))).collect()),
    }
}

// ---------------------------------------------------------------------------
// Compact canonical text (`serde_json::to_vec` / `to_string`).
// ---------------------------------------------------------------------------

/// The escape sequence `serde_json` writes for one character of a string.
pub open spec fn escape_char(c: char) -> Seq<char> {
    if c == '"' {
        seq!['\\', '"']
    } else if c == '\\' {
        seq!['\\', '\\']
    } else if c == '\u{8}' {
        seq!['\\', 'b']
    } else if c == '\t' {
        seq!['\\', 't']
    } else if c == '\n' {
        seq!['\\', 'n']
    } else if c == '\u{c}' {
        seq!['\\', 'f']
    } else if c == '\r' {
        seq!['\\', 'r']
    } else if (c as u32) < 0x20 {
        seq!['\\', 'u', '0', '0', hex_char(((c as u32) / 16) as nat), hex_char(((c as u32) % 16) as nat)]
    } else {
        seq![c]
    }
}

/// The escaped contents of a JSON string literal.
pub open spec fn escape_text(s: Seq<char>) -> Seq<char>
    decreases s.len(),
{
    if s.len() == 0 {
        Seq::empty()
    } else {
        escape_text(s.drop_last()) + escape_char(s.last())
    }
}

/// A JSON string literal.
pub open spec fn string_literal(s: Seq<char>) -> Seq<char> {
    seq!['"'] + escape_text(s) + seq!['"']
}

pub open spec fn number_text(n: JsonNumber) -> Seq<char> {
    match n {
        JsonNumber::PosInt(u) => decimal(u as nat),
        JsonNumber::NegInt(i) => signed_decimal(i as int),
        JsonNumber::Float(t) => t@,
    }
}

/// The compact text of a document, members in their stored order.
pub open spec fn json_text(v: JsonValue) -> Seq<char>
    decreases v, 0nat,
{
    match v {
        JsonValue::Null => seq!['n', 'u', 'l', 'l'],
        JsonValue::Bool(b) => if b { seq!['t', 'r', 'u', 'e'] } else { seq!['f', 'a', 'l', 's', 'e'] },
        JsonValue::Number(n) => number_text(n),
        JsonValue::Str(s) => string_literal(s@),
        JsonValue::Array(items) => seq!['['] + items_text(items, items.len() as nat) + seq![']'],
        JsonValue::Object(entries) => seq!['{'] + entries_text(entries, entries.len() as nat) + seq!['}'],
    }
}

/// The first `n` items, comma separated.
pub open spec fn items_text(items: Vec<JsonValue>, n: nat) -> Seq<char>
    decreases items, n,
{
    if n == 0 || n > items.len() {
        Seq::empty()
    } else if n == 1 {
        json_text(items[0])
    } else {
        items_text(items, (n - 1) as nat) + seq![','] + json_text(items[n - 1])
    }
}

/// The first `n` members, comma separated.
pub open spec fn entries_text(entries: Vec<(String, JsonValue)>, n: nat) -> Seq<char>
    decreases entries, n,
{
    if n == 0 || n > entries.len() {
        Seq::empty()
    } else if n == 1 {
        string_literal(entries[0].0@) + seq![':'] + json_text(entries[0].1)
    } else {
        entries_text(entries, (n - 1) as nat) + seq![','] + string_literal(entries[n - 1].0@)
            + seq![':'] + json_text(entries[n - 1].1)
    }
}

fn push_escaped_char(out: &mut Vec<char>, c: char)
    ensures
        final(out)@ == old(out)@ + escape_char(c),
{
    let code = c as u32;
    if c == '"' {
        out.push('\\');
        out.push('"');
    } else if c == '\\' {
        out.push('\\');
        out.push('\\');
    } else if c == '\u{8}' {
        out.push('\\');
        out.push('b');
    } else if c == '\t' {
        out.push('\\');
        out.push('t');
    } else if c == '\n' {
        out.push('\\');
        out.push('n');
    } else if c == '\u{c}' {
        out.push('\\');
        out.push('f');
    } else if c == '\r' {
        out.push('\\');
        out.push('r');
    } else if code < 0x20 {
        let high = (code / 16) as u8;
        let low = (code % 16) as u8;
        out.push('\\');
        out.push('u');
        out.push('0');
        out.push('0');
        out.push(hex_char_exec(high));
        out.push(hex_char_exec(low));
    } else {
        out.push(c);
    }
    assert(final(out)@ =~= old(out)@ + escape_char(c));
}

/// Appends a JSON string literal.
pub fn push_string_literal(out: &mut Vec<char>, s: &str)
    ensures
        final(out)@ == old(out)@ + string_literal(s@),
{
    let chars = chars_of(s);
    out.push('"');
    let ghost start = out@;
    let mut i: usize = 0;
    while i < chars.len()
        invariant
            i <= chars.len(),
            chars@ == s@,
            out@ == start + escape_text(chars@.take(i as int)),
        decreases chars.len() - i,
    {
        assert(chars@.take(i + 1).drop_last() =~= chars@.take(i as int));
        push_escaped_char(out, chars[i]);
        i += 1;
        assert(out@ =~= start + escape_text(chars@.take(i as int)));
    }
    assert(chars@.take(chars.len() as int) =~= chars@);
    out.push('"');
    assert(out@ =~= old(out)@ + string_literal(s@));
}

fn push_number(out: &mut Vec<char>, n: &JsonNumber)
    ensures
        final(out)@ == old(out)@ + number_text(*n),
{
    match n {
        JsonNumber::PosInt(u) => {
            let t = decimal_exec(*u);
            extend_chars(out, &t);
        },
        JsonNumber::NegInt(i) => {
            let t = signed_decimal_exec(*i);
            extend_chars(out, &t);
        },
        JsonNumber::Float(text) => {
            let t = chars_of(text.as_str());
            extend_chars(out, &t);
        },
    }
}

/// Appends the compact text of a document (`serde_json::to_writer`).
pub fn push_json(out: &mut Vec<char>, v: &JsonValue)
    ensures
        final(out)@ == old(out)@ + json_text(*v),
    decreases *v,
{
    match v {
        JsonValue::Null => {
            out.push('n');
            out.push('u');
            out.push('l');
            out.push('l');
            assert(final(out)@ =~= old(out)@ + json_text(*v));
        },
        JsonValue::Bool(b) => {
            if *b {
                out.push('t');
                out.push('r');
                out.push('u');
                out.push('e');
            } else {
                out.push('f');
                out.push('a');
                out.push('l');
                out.push('s');
                out.push('e');
            }
            assert(final(out)@ =~= old(out)@ + json_text(*v));
        },
        JsonValue::Number(n) => {
            push_number(out, n);
        },
        JsonValue::Str(s) => {
            push_string_literal(out, s.as_str());
        },
        JsonValue::Array(items) => {
            out.push('[');
            let ghost start = out@;
            let mut i: usize = 0;
            while i < items.len()
                invariant
                    i <= items.len(),
                    *v == JsonValue::Array(*items),
                    out@ == start + items_text(*items, i as nat),
                decreases items.len() - i,
            {
                if i > 0 {
                    out.push(',');
                }
                proof {
                    assert(decreases_to!(*v => (*v)->Array_0));
                    assert(decreases_to!(*items => items[i as int]));
                }
                let ghost before = out@;
                push_json(out, &items[i]);
                i += 1;
                assert(out@ =~= start + items_text(*items, i as nat));
            }
            out.push(']');
            assert(out@ =~= old(out)@ + json_text(*v));
        },
        JsonValue::Object(entries) => {
            out.push('{');
            let ghost start = out@;
            let mut i: usize = 0;
            while i < entries.len()
                invariant
                    i <= entries.len(),
                    *v == JsonValue::Object(*entries),
                    out@ == start + entries_text(*entries, i as nat),
                decreases entries.len() - i,
            {
                if i > 0 {
                    out.push(',');
                }
                push_string_literal(out, entries[i].0.as_str());
                out.push(':');
                proof {
                    assert(decreases_to!(*v => (*v)->Object_0));
                    assert(decreases_to!(*entries => entries[i as int]));
                    assert(decreases_to!(entries[i as int] => entries[i as int].1));
                }
                push_json(out, &entries[i].1);
                i += 1;
                assert(out@ =~= start + entries_text(*entries, i as nat));
            }
            out.push('}');
            assert(out@ =~= old(out)@ + json_text(*v));
        },
    }
}

/// The compact text of a document.
pub fn json_text_exec(v: &JsonValue) -> (r: Vec<char>)
    ensures
        r@ == json_text(*v),
{
    let mut out: Vec<char> = Vec::new();
    push_json(&mut out, v);
    assert(out@ =~= json_text(*v));
    out
}

// ---------------------------------------------------------------------------
// Flat documents written member by member.
// ---------------------------------------------------------------------------

/// The character views of a list of strings.
pub open spec fn string_views(v: Seq<String>) -> Seq<Seq<char>> {
    Seq::new(v.len(), |i: int| v[i]@)
}

/// Each text as a JSON string literal.
pub open spec fn literal_list(items: Seq<Seq<char>>) -> Seq<Seq<char>> {
    Seq::new(items.len(), |i: int| string_literal(items[i]))
}

/// A JSON array of strings.
pub open spec fn strings_text(items: Seq<Seq<char>>) -> Seq<char> {
    seq!['['] + join(literal_list(items), seq![',']) + seq![']']
}

/// A JSON string, or `null`.
pub open spec fn opt_string_text(o: Option<Seq<char>>) -> Seq<char> {
    match o {
        Some(s) => string_literal(s),
        None => seq!['n', 'u', 'l', 'l'],
    }
}

/// One object member: its name, a colon, and its value's text.
pub open spec fn member_text(name: Seq<char>, value: Seq<char>) -> Seq<char> {
    string_literal(name) + seq![':'] + value
}

/// A JSON object made of the given member texts.
pub open spec fn object_text(members: Seq<Seq<char>>) -> Seq<char> {
    seq!['{'] + join(members, seq![',']) + seq!['}']
}

/// A JSON string literal.
pub fn string_literal_exec(s: &str) -> (r: Vec<char>)
    ensures
        r@ == string_literal(s@),
{
    let mut out: Vec<char> = Vec::new();
    push_string_literal(&mut out, s);
    assert(out@ =~= string_literal(s@));
    out
}

/// A JSON array of strings.
pub fn strings_text_exec(items: &Vec<String>) -> (r: Vec<char>)
    ensures
        r@ == strings_text(string_views(items@)),
{
    let mut literals: Vec<Vec<char>> = Vec::new();
    let mut i: usize = 0;
    while i < items.len()
        invariant
            i <= items.len(),
            views(literals@) == literal_list(string_views(items@)).take(i as int),
        decreases items.len() - i,
    {
        let lit = string_literal_exec(items[i].as_str());
        let ghost prev = literals@;
        literals.push(lit);
        assert(views(literals@) =~= views(prev).push(string_literal(items@[i as int]@)));
        i += 1;
        assert(views(literals@) =~= literal_list(string_views(items@)).take(i as int));
    }
    assert(literal_list(string_views(items@)).take(items.len() as int) =~= literal_list(string_views(items@)));
    let mut sep: Vec<char> = Vec::new();
    sep.push(',');
    let body = join_exec(&literals, &sep);
    let mut out: Vec<char> = Vec::new();
    out.push('[');
    extend_chars(&mut out, &body);
    out.push(']');
    assert(sep@ =~= seq![',']);
    assert(out@ =~= strings_text(string_views(items@)));
    out
}

/// A JSON string, or `null`.
pub fn opt_string_text_exec(o: &Option<String>) -> (r: Vec<char>)
    ensures
        r@ == opt_string_text(match o { Some(s) => Some(s@), None => None }),
{
    match o {
        Some(s) => string_literal_exec(s.as_str()),
        None => {
            let mut out: Vec<char> = Vec::new();
            out.push('n');
            out.push('u');
            out.push('l');
            out.push('l');
            assert(out@ =~= seq!['n', 'u', 'l', 'l']);
            out
        },
    }
}

/// One object member.
pub fn member_text_exec(name: &str, value: &Vec<char>) -> (r: Vec<char>)
    ensures
        r@ == member_text(name@, value@),
{
    let mut out = string_literal_exec(name);
    out.push(':');
    extend_chars(&mut out, value);
    assert(out@ =~= member_text(name@, value@));
    out
}

/// A JSON object made of the given member texts.
pub fn object_text_exec(members: &Vec<Vec<char>>) -> (r: Vec<char>)
    ensures
        r@ == object_text(views(members@)),
{
    let mut sep: Vec<char> = Vec::new();
    sep.push(',');
    let body = join_exec(members, &sep);
    let mut out: Vec<char> = Vec::new();
    out.push('{');
    extend_chars(&mut out, &body);
    out.push('}');
    assert(sep@ =~= seq![',']);
    assert(out@ =~= object_text(views(members@)));
    out
}

} // verus!
