//! A JSON document as the library reads and builds it, its mathematical model,
//! field lookup, and the calls into serde_json that read and write JSON text.
use vstd::prelude::*;

use crate::text::{is_blank, string_push, string_push_str, trim, trim_str, str_is_blank};

verus! {

/// A JSON value. Numbers keep the text that JSON writes for them; object
/// members keep their order.
pub enum JsonValue {
    Null,
    Bool(bool),
    Number(String),
    Str(String),
    Array(Vec<JsonValue>),
    Object(Vec<(String, JsonValue)>),
}

/// The model of a JSON value: strings as character sequences.
pub enum Json {
    Null,
    Bool(bool),
    Number(Seq<char>),
    Str(Seq<char>),
    Array(Seq<Json>),
    Object(Seq<(Seq<char>, Json)>),
}

/// Why JSON text could not be read or written.
pub struct JsonError {
    pub message: String,
}

impl JsonValue {
    /// The model of this value.
    pub open spec fn model(self) -> Json
        decreases self,
    {
        match self {
            JsonValue::Null => Json::Null,
            JsonValue::Bool(b) => Json::Bool(b),
            JsonValue::Number(n) => Json::Number(n@),
            JsonValue::Str(s) => Json::Str(s@),
            JsonValue::Array(items) => Json::Array(
                Seq::new(
                    items@.len(),
                    |i: int|
                        if 0 <= i < items@.len() {
                            items@[i].model()
                        } else {
                            Json::Null
                        },
                ),
            ),
            JsonValue::Object(entries) => Json::Object(
                Seq::new(
                    entries@.len(),
                    |i: int|
                        if 0 <= i < entries@.len() {
                            (entries@[i].0@, entries@[i].1.model())
                        } else {
                            (Seq::empty(), Json::Null)
                        },
                ),
            ),
        }
    }
}

/// The value of the first member of `entries` named `key`.
pub open spec fn lookup(entries: Seq<(Seq<char>, Json)>, key: Seq<char>) -> Option<Json>
    decreases entries.len(),
{
    if entries.len() == 0 {
        None
    } else if entries[0].0 == key {
        Some(entries[0].1)
    } else {
        lookup(entries.drop_first(), key)
    }
}

/// `value[key]` where `value` is an object (`serde_json::Value::get` with a
/// string key): `None` for a missing member and for any non-object.
pub open spec fn json_get(value: Json, key: Seq<char>) -> Option<Json> {
    match value {
        Json::Object(entries) => lookup(entries, key),
        _ => None,
    }
}

/// The string held by `value`, if it is a string (`Value::as_str`).
pub open spec fn json_str(value: Option<Json>) -> Option<Seq<char>> {
    match value {
        Some(Json::Str(s)) => Some(s),
        _ => None,
    }
}

/// The items held by `value`, if it is an array (`Value::as_array`).
pub open spec fn json_items(value: Option<Json>) -> Option<Seq<Json>> {
    match value {
        Some(Json::Array(items)) => Some(items),
        _ => None,
    }
}

/// `value` is an object.
pub open spec fn is_object(value: Option<Json>) -> bool {
    match value {
        Some(Json::Object(_)) => true,
        _ => false,
    }
}

/// What `serde_json::from_slice::<serde_json::Value>` reads from `bytes`:
/// `None` where it reports an error.
pub uninterp spec fn json_parse(bytes: Seq<u8>) -> Option<Json>;

/// What `serde_json::to_string` writes for a value with model `value`:
/// `None` where it reports an error.
pub uninterp spec fn json_text(value: Json) -> Option<Seq<char>>;

proof fn lemma_lookup_step(entries: Seq<(Seq<char>, Json)>, key: Seq<char>, i: int)
    requires
        0 <= i < entries.len(),
        forall|j: int| 0 <= j < i ==> #[trigger] entries[j].0 != key,
    ensures
        lookup(entries, key) == lookup(entries.subrange(i, entries.len() as int), key),
    decreases i,
{
    if i > 0 {
        assert(entries.drop_first().subrange(i - 1, entries.drop_first().len() as int)
            =~= entries.subrange(i, entries.len() as int));
        assert forall|j: int| 0 <= j < i - 1 implies #[trigger] entries.drop_first()[j].0
            != key by {
            assert(entries.drop_first()[j] == entries[j + 1]);
        }
        lemma_lookup_step(entries.drop_first(), key, i - 1);
    } else {
        assert(entries.subrange(0, entries.len() as int) =~= entries);
    }
}

/// Looking a key up in object members finds the first member with that key.
pub proof fn lemma_lookup_at(es: Seq<(Seq<char>, Json)>, key: Seq<char>, i: int)
    requires
        0 <= i < es.len(),
        es[i].0 == key,
        forall|j: int| 0 <= j < i ==> #[trigger] es[j].0 != key,
    ensures
        lookup(es, key) == Some(es[i].1),
    decreases i,
{
    if i > 0 {
        assert forall|j: int| 0 <= j < i - 1 implies #[trigger] es.drop_first()[j].0 != key by {
            assert(es.drop_first()[j] == es[j + 1]);
        }
        lemma_lookup_at(es.drop_first(), key, i - 1);
    }
}

/// Looking a key up after a member is added finds the earlier member with
/// that key, else the added one.
pub proof fn lemma_lookup_push(es: Seq<(Seq<char>, Json)>, k: Seq<char>, v: Json, key: Seq<char>)
    ensures
        lookup(es.push((k, v)), key) == (if lookup(es, key) is Some {
            lookup(es, key)
        } else if k == key {
            Some(v)
        } else {
            None
        }),
    decreases es.len(),
{
    let p = es.push((k, v));
    if es.len() > 0 {
        assert(p[0] == es[0]);
        assert(p.drop_first() =~= es.drop_first().push((k, v)));
        lemma_lookup_push(es.drop_first(), k, v, key);
        assert(lookup(p, key) == (if p[0].0 == key {
            Some(p[0].1)
        } else {
            lookup(p.drop_first(), key)
        }));
        assert(lookup(es, key) == (if es[0].0 == key {
            Some(es[0].1)
        } else {
            lookup(es.drop_first(), key)
        }));
    } else {
        assert(p[0] == (k, v));
        assert(p.drop_first() =~= Seq::<(Seq<char>, Json)>::empty());
        assert(lookup(p.drop_first(), key) is None);
        assert(lookup(es, key) is None);
    }
}

/// A key that no member has is not found.
pub proof fn lemma_lookup_absent(es: Seq<(Seq<char>, Json)>, key: Seq<char>)
    requires
        forall|j: int| 0 <= j < es.len() ==> #[trigger] es[j].0 != key,
    ensures
        lookup(es, key) is None,
{
    lemma_lookup_none(es, key);
}

proof fn lemma_lookup_none(entries: Seq<(Seq<char>, Json)>, key: Seq<char>)
    requires
        forall|j: int| 0 <= j < entries.len() ==> #[trigger] entries[j].0 != key,
    ensures
        lookup(entries, key) is None,
    decreases entries.len(),
{
    if entries.len() > 0 {
        assert forall|j: int| 0 <= j < entries.len() - 1 implies #[trigger] entries.drop_first()[j].0
            != key by {
            assert(entries.drop_first()[j] == entries[j + 1]);
        }
        lemma_lookup_none(entries.drop_first(), key);
    }
}

impl JsonValue {
    /// A copy of this value.
    pub fn deep_copy(&self) -> (res: JsonValue)
        ensures
            res.model() == self.model(),
        decreases self,
    {
        match self {
            JsonValue::Null => JsonValue::Null,
            JsonValue::Bool(b) => JsonValue::Bool(*b),
            JsonValue::Number(n) => JsonValue::Number(n.clone()),
            JsonValue::Str(s) => JsonValue::Str(s.clone()),
            JsonValue::Array(items) => {
                let mut out: Vec<JsonValue> = Vec::new();
                let mut i: usize = 0;
                while i < items.len()
                    invariant
                        i <= items@.len(),
                        *self == JsonValue::Array(*items),
                        out@.len() == i,
                        forall|j: int| 0 <= j < i ==> (#[trigger] out@[j]).model() == items@[j].model(),
                    decreases items.len() - i,
                {
                    proof {
                        let ghost v: JsonValue = *self;
                        assert(decreases_to!(v => v->Array_0));
                        assert(decreases_to!(v->Array_0 => v->Array_0@));
                        assert(decreases_to!(v->Array_0@ => v->Array_0@[i as int]));
                        assert(v->Array_0@[i as int] == items@[i as int]);
                    }
                    let item = items[i].deep_copy();
                    out.push(item);
                    i = i + 1;
                }
                let res = JsonValue::Array(out);
                proof {
                    let m = match res.model() {
                        Json::Array(ms) => ms,
                        _ => Seq::empty(),
                    };
                    let n = match self.model() {
                        Json::Array(ms) => ms,
                        _ => Seq::empty(),
                    };
                    assert(m =~= n);
                }
                res
            },
            JsonValue::Object(entries) => {
                let mut out: Vec<(String, JsonValue)> = Vec::new();
                let mut i: usize = 0;
                while i < entries.len()
                    invariant
                        i <= entries@.len(),
                        *self == JsonValue::Object(*entries),
                        out@.len() == i,
                        forall|j: int|
                            0 <= j < i ==> (#[trigger] out@[j]).0@ == entries@[j].0@ && out@[j].1.model()
                                == entries@[j].1.model(),
                    decreases entries.len() - i,
                {
                    proof {
                        let ghost v: JsonValue = *self;
                        assert(decreases_to!(v => v->Object_0));
                        assert(decreases_to!(v->Object_0 => v->Object_0@));
                        assert(decreases_to!(v->Object_0@ => v->Object_0@[i as int]));
                        assert(decreases_to!(v->Object_0@[i as int] => v->Object_0@[i as int].1));
                        assert(v->Object_0@[i as int].1 == entries@[i as int].1);
                    }
                    let value = entries[i].1.deep_copy();
                    let key = entries[i].0.clone();
                    out.push((key, value));
                    i = i + 1;
                }
                let res = JsonValue::Object(out);
                proof {
                    let m = match res.model() {
                        Json::Object(ms) => ms,
                        _ => Seq::empty(),
                    };
                    let n = match self.model() {
                        Json::Object(ms) => ms,
                        _ => Seq::empty(),
                    };
                    assert(m =~= n);
                }
                res
            },
        }
    }

    /// The member named `key` when this value is an object.
    pub fn get(&self, key: &str) -> (res: Option<&JsonValue>)
        ensures
            match res {
                Some(v) => json_get(self.model(), key@) == Some(v.model()),
                None => json_get(self.model(), key@) is None,
            },
    {
        match self {
            JsonValue::Object(entries) => {
                let ghost model_entries = match self.model() {
                    Json::Object(es) => es,
                    _ => Seq::empty(),
                };
                assert(model_entries.len() == entries@.len());
                assert(json_get(self.model(), key@) == lookup(model_entries, key@));
                let mut i: usize = 0;
                while i < entries.len()
                    invariant
                        i <= entries@.len() == model_entries.len(),
                        json_get(self.model(), key@) == lookup(model_entries, key@),
                        forall|j: int| 0 <= j < model_entries.len() ==> #[trigger] model_entries[j] == (
                        entries@[j].0@, entries@[j].1.model()),
                        forall|j: int| 0 <= j < i ==> #[trigger] model_entries[j].0 != key@,
                    decreases entries.len() - i,
                {
                    let name = crate::text::chars_of(entries[i].0.as_str());
                    if crate::text::chars_eq_str(&name, key) {
                        proof {
                            lemma_lookup_step(model_entries, key@, i as int);
                            let rest = model_entries.subrange(i as int, model_entries.len() as int);
                            assert(rest[0] == model_entries[i as int]);
                            assert(model_entries[i as int].0 == key@);
                            assert(lookup(rest, key@) == Some(rest[0].1));
                            assert(json_get(self.model(), key@) == lookup(model_entries, key@));
                            assert(rest[0].1 == entries@[i as int].1.model());
                        }
                        return Some(&entries[i].1);
                    }
                    i = i + 1;
                }
                proof {
                    lemma_lookup_none(model_entries, key@);
                }
                None
            },
            _ => None,
        }
    }

    /// The string held by this value (`Value::as_str`).
    pub fn as_str(&self) -> (res: Option<&String>)
        ensures
            match res {
                Some(s) => json_str(Some(self.model())) == Some(s@),
                None => json_str(Some(self.model())) is None,
            },
    {
        match self {
            JsonValue::Str(s) => Some(s),
            _ => None,
        }
    }

    /// The items held by this value (`Value::as_array`).
    pub fn as_array(&self) -> (res: Option<&Vec<JsonValue>>)
        ensures
            match res {
                Some(items) => json_items(Some(self.model())) == Some(
                    Seq::new(items@.len(), |i: int| items@[i].model()),
                ),
                None => json_items(Some(self.model())) is None,
            },
    {
        match self {
            JsonValue::Array(items) => {
                proof {
                    assert(json_items(Some(self.model())).unwrap() =~= Seq::new(
                        items@.len(),
                        |i: int| items@[i].model(),
                    ));
                }
                Some(items)
            },
            _ => None,
        }
    }

    /// This value is an object (`Value::is_object`).
    pub fn is_object(&self) -> (res: bool)
        ensures
            res == is_object(Some(self.model())),
    {
        match self {
            JsonValue::Object(_) => true,
            _ => false,
        }
    }
}

/// The decimal digits of `n`, as JSON and `Display` write an unsigned integer.
pub open spec fn decimal(n: nat) -> Seq<char>
    decreases n,
{
    if n < 10 {
        seq![digit_char(n)]
    } else {
        decimal(n / 10).push(digit_char(n % 10))
    }
}

/// The ASCII digit for `d < 10`.
pub open spec fn digit_char(d: nat) -> char {
    ((d + 48) as u32) as char
}

fn digit(d: u64) -> (c: char)
    requires
        d < 10,
    ensures
        c == digit_char(d as nat),
{
    let b: u8 = (d + 48) as u8;
    assert(b as u32 == d + 48);
    b as char
}

/// The decimal text of `n`.
pub fn decimal_string(n: u64) -> (res: String)
    ensures
        res@ == decimal(n as nat),
    decreases n,
{
    if n < 10 {
        let mut out = String::new();
        string_push(&mut out, digit(n));
        assert(out@ =~= decimal(n as nat));
        out
    } else {
        let mut out = decimal_string(n / 10);
        string_push(&mut out, digit(n % 10));
        out
    }
}

/// A JSON number holding the unsigned integer `n`.
pub fn json_uint(n: u64) -> (res: JsonValue)
    ensures
        res.model() == Json::Number(decimal(n as nat)),
{
    JsonValue::Number(decimal_string(n))
}

/// A JSON string.
pub fn json_string(s: &str) -> (res: JsonValue)
    ensures
        res.model() == Json::Str(s@),
{
    JsonValue::Str(s.to_owned())
}

/// The decimal text of a signed integer.
pub open spec fn signed_decimal(n: int) -> Seq<char> {
    if n < 0 {
        seq!['-'] + decimal((-n) as nat)
    } else {
        decimal(n as nat)
    }
}

/// The decimal text of an `i32`.
pub fn i32_string(n: i32) -> (res: String)
    ensures
        res@ == signed_decimal(n as int),
{
    if n < 0 {
        let magnitude: u64 = (0 - (n as i64)) as u64;
        let mut out = String::new();
        string_push(&mut out, '-');
        let digits = decimal_string(magnitude);
        string_push_str(&mut out, digits.as_str());
        out
    } else {
        decimal_string(n as u64)
    }
}

/// A JSON number holding the signed integer `n`.
pub fn json_i32(n: i32) -> (res: JsonValue)
    ensures
        res.model() == Json::Number(signed_decimal(n as int)),
{
    JsonValue::Number(i32_string(n))
}

/// Reads JSON text (`serde_json::from_slice`) into a `JsonValue`. Nothing is
/// promised of the error message.
#[verifier::external_body]
pub(crate) fn decode_json(bytes: &[u8]) -> (res: Result<JsonValue, JsonError>)
    ensures
        res is Ok <==> json_parse(bytes@) is Some,
        res matches Ok(v) ==> json_parse(bytes@) == Some(v.model()),
{
    serde_json::from_slice::<serde_json::Value>(bytes).map(json_from_serde).map_err(
        |error| JsonError { message: error.to_string() },
    )
}

/// Writes a value as compact JSON text (`serde_json::to_string`).
#[verifier::external_body]
pub(crate) fn encode_json_text(value: &JsonValue) -> (res: Result<String, JsonError>)
    ensures
        res is Ok <==> json_text(value.model()) is Some,
        res matches Ok(s) ==> json_text(value.model()) == Some(s@),
{
    let converted = json_to_serde(value).map_err(|message| JsonError { message })?;
    serde_json::to_string(&converted).map_err(|error| JsonError { message: error.to_string() })
}

#[verifier::external_type_specification]
#[verifier::external_body]
pub struct ExValue(serde_json::Value);

/// Changes a `serde_json::Value` into a `JsonValue`, variant for variant.
#[verifier::external_body]
fn json_from_serde(value: serde_json::Value) -> JsonValue {
    match value {
        serde_json::Value::Null => JsonValue::Null,
        serde_json::Value::Bool(b) => JsonValue::Bool(b),
        serde_json::Value::Number(n) => JsonValue::Number(n.to_string()),
        serde_json::Value::String(s) => JsonValue::Str(s),
        serde_json::Value::Array(items) => JsonValue::Array(items.into_iter().map(json_from_serde).collect()),
        serde_json::Value::Object(map) => JsonValue::Object(map.into_iter().map(|(k, v)| (k, json_from_serde(v))).collect()),
    }
}

/// Changes a `JsonValue` into a `serde_json::Value`, variant for variant; a
/// number whose text `serde_json::Number` does not read is an error.
#[verifier::external_body]
fn json_to_serde(value: &JsonValue) -> Result<serde_json::Value, String> {
    Ok(match value {
        JsonValue::Null => serde_json::Value::Null,
        JsonValue::Bool(b) => serde_json::Value::Bool(*b),
        JsonValue::Number(n) => serde_json::Value::Number(n.parse().map_err(|e: serde_json::Error| e.to_string())?),
        JsonValue::Str(s) => serde_json::Value::String(s.clone()),
        JsonValue::Array(items) => serde_json::Value::Array(items.iter().map(json_to_serde).collect::<Result<_, _>>()?),
        JsonValue::Object(entries) => serde_json::Value::Object(entries.iter().map(|(k, v)| Ok((k.clone(), json_to_serde(v)?))).collect::<Result<_, String>>()?),
    })
}

/// The models of `items`.
pub open spec fn models(items: Seq<JsonValue>) -> Seq<Json> {
    Seq::new(items.len(), |i: int| items[i].model())
}

/// The trimmed `"text"` members of `items` that are strings and not blank,
/// in order.
pub open spec fn text_pieces(items: Seq<Json>) -> Seq<Seq<char>>
    decreases items.len(),
{
    if items.len() == 0 {
        Seq::empty()
    } else {
        let rest = text_pieces(items.drop_last());
        match json_str(json_get(items.last(), "text"@)) {
            Some(t) => if is_blank(t) {
                rest
            } else {
                rest.push(trim(t))
            },
            None => rest,
        }
    }
}

/// `pieces` joined with `sep` between consecutive pieces (`join`).
pub open spec fn join(pieces: Seq<Seq<char>>, sep: Seq<char>) -> Seq<char>
    decreases pieces.len(),
{
    if pieces.len() == 0 {
        Seq::empty()
    } else if pieces.len() == 1 {
        pieces[0]
    } else {
        join(pieces.drop_last(), sep) + sep + pieces.last()
    }
}

/// The trimmed, non-blank `"text"` strings of `items`, joined with `sep`.
pub fn join_item_texts(items: &Vec<JsonValue>, sep: &str) -> (res: String)
    ensures
        res@ == join(text_pieces(models(items@)), sep@),
{
    let mut out = String::new();
    let mut count: usize = 0;
    let mut i: usize = 0;
    while i < items.len()
        invariant
            i <= items@.len(),
            count as int == text_pieces(models(items@).take(i as int)).len(),
            out@ == join(text_pieces(models(items@).take(i as int)), sep@),
            count <= i,
        decreases items.len() - i,
    {
        let ghost before = text_pieces(models(items@).take(i as int));
        proof {
            assert(models(items@).take(i + 1).drop_last() =~= models(items@).take(i as int));
            assert(models(items@).take(i + 1).last() == items@[i as int].model());
        }
        match items[i].get("text") {
            Some(field) => match field.as_str() {
                Some(t) => {
                    if !str_is_blank(t.as_str()) {
                        let piece = trim_str(t.as_str());
                        if count > 0 {
                            string_push_str(&mut out, sep);
                        }
                        string_push_str(&mut out, piece.as_str());
                        count = count + 1;
                        proof {
                            let after = before.push(trim(t@));
                            assert(after.drop_last() =~= before);
                            if before.len() == 0 {
                                assert(out@ =~= join(after, sep@));
                            }
                        }
                    }
                },
                None => {},
            },
            None => {},
        }
        i = i + 1;
    }
    proof {
        assert(models(items@).take(i as int) =~= models(items@));
    }
    out
}

} // verus!
