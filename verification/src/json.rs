//! JSON documents and values: reading a parsed document as a value, writing a value as a
//! document, and unescaping text.
use vstd::prelude::*;

use crate::errors::{fail, outcome};
use crate::hashmaps::{insert_entry, map_insert};
use crate::printer::push_char;
use crate::values::{
    lemma_vals_push, vals, view_entries, ErrorKind, SVal, StahlErr, StahlHashMap, StahlVal,
};

verus! {

broadcast use crate::values::group_vals;

/// A JSON document. A number read from text is `Float`, the bit pattern of a double;
/// `Int` is what an integer value writes as.
#[derive(Debug)]
pub enum JsonValue {
    Null,
    Bool(bool),
    Int(isize),
    Float(u64),
    Str(String),
    Array(Vec<JsonValue>),
    Object(Vec<(String, JsonValue)>),
}

/// The mathematical view of a JSON document.
pub enum SJson {
    Null,
    Bool(bool),
    Int(int),
    Float(u64),
    Str(Seq<char>),
    Array(Seq<SJson>),
    Object(Seq<(Seq<char>, SJson)>),
}

pub open spec fn view_json(j: JsonValue) -> SJson
    decreases j,
{
    match j {
        JsonValue::Null => SJson::Null,
        JsonValue::Bool(b) => SJson::Bool(b),
        JsonValue::Int(i) => SJson::Int(i as int),
        JsonValue::Float(f) => SJson::Float(f),
        JsonValue::Str(s) => SJson::Str(s@),
        JsonValue::Array(items) => SJson::Array(items_view(items@)),
        JsonValue::Object(fields) => SJson::Object(fields_view(fields@)),
    }
}

/// The views of documents.
pub open spec fn items_view(items: Seq<JsonValue>) -> Seq<SJson>
    decreases items,
{
    Seq::new(
        items.len(),
        |i: int|
            if 0 <= i < items.len() {
                view_json(items[i])
            } else {
                SJson::Null
            },
    )
}

/// The views of the fields of an object.
pub open spec fn fields_view(fields: Seq<(String, JsonValue)>) -> Seq<(Seq<char>, SJson)>
    decreases fields,
{
    Seq::new(
        fields.len(),
        |i: int|
            if 0 <= i < fields.len() {
                (fields[i].0@, view_json(fields[i].1))
            } else {
                (Seq::empty(), SJson::Null)
            },
    )
}

pub proof fn lemma_items_view(items: Seq<JsonValue>, i: int)
    requires
        0 <= i < items.len(),
    ensures
        items_view(items)[i] == view_json(items[i]),
        items_view(items).len() == items.len(),
{
}

pub proof fn lemma_fields_view(fields: Seq<(String, JsonValue)>, i: int)
    requires
        0 <= i < fields.len(),
    ensures
        fields_view(fields)[i] == (fields[i].0@, view_json(fields[i].1)),
        fields_view(fields).len() == fields.len(),
{
}

impl View for JsonValue {
    type V = SJson;

    open spec fn view(&self) -> SJson {
        view_json(*self)
    }
}

/// The value a JSON document reads as: `null` as nothing, numbers as floating-point numbers,
/// arrays as lists, and objects as maps from symbols (one per key) to values.
pub open spec fn json_value(j: SJson) -> SVal
    decreases j, 1nat,
{
    match j {
        SJson::Null => SVal::Void,
        SJson::Bool(b) => SVal::Bool(b),
        SJson::Int(i) => SVal::Int(i),
        SJson::Float(f) => SVal::Num(f),
        SJson::Str(s) => SVal::Str(s),
        SJson::Array(items) => SVal::List(json_values(items)),
        SJson::Object(fields) => SVal::HashMap(json_fields(fields)),
    }
}

pub open spec fn json_values(items: Seq<SJson>) -> Seq<SVal>
    decreases items, 0nat,
{
    if items.len() == 0 {
        Seq::empty()
    } else {
        json_values(items.drop_last()).push(json_value(items.last()))
    }
}

/// The map of the fields of an object, bound in order, a later key replacing an earlier one.
pub open spec fn json_fields(fields: Seq<(Seq<char>, SJson)>) -> Seq<SVal>
    decreases fields, 0nat,
{
    if fields.len() == 0 {
        Seq::empty()
    } else {
        map_insert(
            json_fields(fields.drop_last()),
            SVal::Sym(fields.last().0),
            json_value(fields.last().1),
        )
    }
}

#[verifier::external_type_specification]
#[verifier::external_body]
pub struct ExJsonDocument(serde_json::Value);

/// What `serde_json::from_str::<serde_json::Value>` reads from `text`: the document, or
/// `None` when the text is no JSON.
pub uninterp spec fn json_parse(text: Seq<char>) -> Option<SJson>;

/// A `serde_json::Value` in the library's form, one arm for each kind of JSON value: a
/// number becomes the bit pattern of `serde_json::Number::as_f64`, the elements of an array
/// and the fields of an object (in the order `serde_json::Map` gives them) are converted in
/// turn. Nothing is stated of the result.
#[verifier::external_body]
fn document_of(value: serde_json::Value) -> JsonValue {
    match value {
        serde_json::Value::Null => JsonValue::Null,
        serde_json::Value::Bool(b) => JsonValue::Bool(b),
        serde_json::Value::Number(n) => JsonValue::Float(n.as_f64().unwrap().to_bits()),
        serde_json::Value::String(s) => JsonValue::Str(s),
        serde_json::Value::Array(items) => JsonValue::Array(items.into_iter().map(document_of).collect()),
        serde_json::Value::Object(map) => JsonValue::Object(map.into_iter().map(|(k, v)| (k, document_of(v))).collect()),
    }
}

/// Calls `serde_json::from_str::<serde_json::Value>` on `text` and converts the document
/// with `document_of`. The contract claims only that the result is a function of the text
/// alone, named `json_parse`: `None` exactly for text that is no JSON.
#[verifier::external_body]
fn parse_json(text: &str) -> (r: Option<JsonValue>)
    ensures
        match r {
            Some(j) => json_parse(text@) == Some(j@),
            None => json_parse(text@) is None,
        },
{
    match serde_json::from_str::<serde_json::Value>(text) {
        Ok(v) => Some(document_of(v)),
        Err(_) => None,
    }
}

/// `string->jsexpr`: reads JSON text as a value; text that is no JSON is an error.
pub fn string_to_jsexpr(text: &str) -> (r: Result<StahlVal, StahlErr>)
    ensures
        match json_parse(text@) {
            Some(j) => outcome(r) == Ok::<SVal, ErrorKind>(json_value(j)),
            None => outcome(r) == Err::<SVal, ErrorKind>(ErrorKind::Generic),
        },
{
    match parse_json(text) {
        Some(j) => Ok(json_to_value(&j)),
        None => fail(ErrorKind::Generic, "string->jsexpr failed"),
    }
}

/// Reads a JSON document as a value.
pub fn json_to_value(j: &JsonValue) -> (v: StahlVal)
    ensures
        v@ == json_value(j@),
    decreases j, 1nat,
{
    match j {
        JsonValue::Null => StahlVal::Void,
        JsonValue::Bool(b) => StahlVal::BoolV(*b),
        JsonValue::Int(i) => StahlVal::IntV(*i),
        JsonValue::Float(f) => StahlVal::NumV(*f),
        JsonValue::Str(s) => StahlVal::StringV(s.clone()),
        JsonValue::Array(items) => StahlVal::ListV(json_items_to_values(items)),
        JsonValue::Object(fields) => StahlVal::HashMapV(StahlHashMap { entries: json_fields_to_entries(fields) }),
    }
}

fn json_items_to_values(items: &Vec<JsonValue>) -> (out: Vec<StahlVal>)
    ensures
        vals(out@) == json_values(items_view(items@)),
    decreases items, 0nat,
{
    let ghost js = items_view(items@);
    let mut out: Vec<StahlVal> = Vec::new();
    let mut i: usize = 0;
    assert(vals(out@) =~= json_values(js.take(0)));
    while i < items.len()
        invariant
            i <= items.len(),
            js == items_view(items@),
            vals(out@) == json_values(js.take(i as int)),
        decreases items.len() - i,
    {
        proof {
            lemma_items_view(items@, i as int);
            assert(decreases_to!(items => items@[i as int]));
        }
        let v = json_to_value(&items[i]);
        proof {
            lemma_vals_push(out@, v);
        }
        out.push(v);
        assert(js.take(i + 1).drop_last() =~= js.take(i as int));
        i = i + 1;
    }
    assert(js.take(items@.len() as int) =~= js) by {
        if items@.len() > 0 {
            lemma_items_view(items@, 0);
        }
    }
    out
}

fn json_fields_to_entries(fields: &Vec<(String, JsonValue)>) -> (es: Vec<(StahlVal, StahlVal)>)
    ensures
        view_entries(es@) == json_fields(fields_view(fields@)),
    decreases fields, 0nat,
{
    let ghost fs = fields_view(fields@);
    let mut es: Vec<(StahlVal, StahlVal)> = Vec::new();
    let mut i: usize = 0;
    assert(view_entries(es@) =~= json_fields(fs.take(0)));
    while i < fields.len()
        invariant
            i <= fields.len(),
            fs == fields_view(fields@),
            view_entries(es@) == json_fields(fs.take(i as int)),
        decreases fields.len() - i,
    {
        proof {
            lemma_fields_view(fields@, i as int);
            assert(decreases_to!(fields => fields@[i as int]));
            assert(decreases_to!(fields@[i as int] => fields@[i as int].1));
        }
        let key = StahlVal::SymbolV(fields[i].0.clone());
        let v = json_to_value(&fields[i].1);
        insert_entry(&mut es, key, v);
        assert(fs.take(i + 1).drop_last() =~= fs.take(i as int));
        i = i + 1;
    }
    assert(fs.take(fields@.len() as int) =~= fs) by {
        if fields@.len() > 0 {
            lemma_fields_view(fields@, 0);
        }
    }
    es
}

/// Whether a double's bit pattern is a finite number: not an infinity and not NaN.
pub open spec fn finite_bits(f: u64) -> bool {
    (f >> 52u64) & 0x7ffu64 != 0x7ffu64
}

/// The position of the last field with the key `key`.
pub open spec fn find_field(fields: Seq<(Seq<char>, SJson)>, key: Seq<char>) -> Option<int>
    decreases fields.len(),
{
    if fields.len() == 0 {
        None
    } else if fields.last().0 == key {
        Some(fields.len() - 1)
    } else {
        find_field(fields.drop_last(), key)
    }
}

/// The fields of an object with `key` bound to `value`: the field of the same key is
/// replaced in place, else the field is added at the end.
pub open spec fn field_insert(fields: Seq<(Seq<char>, SJson)>, key: Seq<char>, value: SJson) -> Seq<(Seq<char>, SJson)> {
    match find_field(fields, key) {
        Some(i) => fields.update(i, (key, value)),
        None => fields.push((key, value)),
    }
}

/// The JSON document a value writes as, or the kind of the error: strings, symbols and
/// characters write as strings, lists, vectors and sets as arrays, maps as objects whose keys
/// must be strings or symbols; nothing and other kinds of values cannot be written.
pub open spec fn value_json(v: SVal) -> Result<SJson, ErrorKind>
    decreases v, 1nat,
{
    match v {
        SVal::Bool(b) => Ok(SJson::Bool(b)),
        SVal::Num(f) => Ok(SJson::Float(f)),
        SVal::Int(i) => Ok(SJson::Int(i)),
        SVal::Char(c) => Ok(SJson::Str(seq![c])),
        SVal::List(items) => match values_json(items) {
            Ok(js) => Ok(SJson::Array(js)),
            Err(k) => Err(k),
        },
        SVal::Vector(items) => match values_json(items) {
            Ok(js) => Ok(SJson::Array(js)),
            Err(k) => Err(k),
        },
        SVal::Str(s) => Ok(SJson::Str(s)),
        SVal::Sym(s) => Ok(SJson::Str(s)),
        SVal::HashMap(es) => match entries_json(es) {
            Ok(fs) => Ok(SJson::Object(fs)),
            Err(k) => Err(k),
        },
        SVal::HashSet(items) => match values_json(items) {
            Ok(js) => Ok(SJson::Array(js)),
            Err(k) => Err(k),
        },
        _ => Err(ErrorKind::Generic),
    }
}

/// The documents of `items`, or the kind of the first error.
pub open spec fn values_json(items: Seq<SVal>) -> Result<Seq<SJson>, ErrorKind>
    decreases items, 0nat,
{
    if items.len() == 0 {
        Ok(Seq::empty())
    } else {
        match values_json(items.drop_last()) {
            Err(k) => Err(k),
            Ok(js) => match value_json(items.last()) {
                Ok(j) => Ok(js.push(j)),
                Err(k) => Err(k),
            },
        }
    }
}

/// The key of a map entry as object key text: strings and symbols only.
pub open spec fn key_text(k: SVal) -> Result<Seq<char>, ErrorKind> {
    match k {
        SVal::Str(s) => Ok(s),
        SVal::Sym(s) => Ok(s),
        _ => Err(ErrorKind::ConversionError),
    }
}

/// The fields of the entries of a map, in order, or the kind of the first error.
pub open spec fn entries_json(es: Seq<SVal>) -> Result<Seq<(Seq<char>, SJson)>, ErrorKind>
    decreases es, 0nat,
{
    if es.len() == 0 {
        Ok(Seq::empty())
    } else {
        match entries_json(es.drop_last()) {
            Err(k) => Err(k),
            Ok(fs) => match es.last() {
                SVal::Pair(k, v) => match key_text(*k) {
                    Err(e) => Err(e),
                    Ok(key) => match value_json(*v) {
                        Err(e) => Err(e),
                        Ok(j) => Ok(field_insert(fs, key, j)),
                    },
                },
                _ => Err(ErrorKind::Generic),
            },
        }
    }
}

/// What writing a value gives: the document, or the kind of the error.
pub open spec fn json_outcome(r: Result<JsonValue, StahlErr>) -> Result<SJson, ErrorKind> {
    match r {
        Ok(j) => Ok(j@),
        Err(e) => Err(e.kind),
    }
}


/// Whether writing a value reaches a floating-point number that is not finite, which no JSON
/// document can hold, before any error: the parts of a value are written in order, and
/// writing stops at the first that fails.
pub open spec fn json_stops(v: SVal) -> bool
    decreases v, 1nat,
{
    match v {
        SVal::Num(f) => !finite_bits(f),
        SVal::List(items) => values_stop(items),
        SVal::Vector(items) => values_stop(items),
        SVal::HashSet(items) => values_stop(items),
        SVal::HashMap(es) => entries_stop(es),
        _ => false,
    }
}

pub open spec fn values_stop(items: Seq<SVal>) -> bool
    decreases items, 0nat,
{
    if items.len() == 0 {
        false
    } else {
        values_stop(items.drop_last()) || (values_json(items.drop_last()) is Ok && json_stops(
            items.last(),
        ))
    }
}

pub open spec fn entries_stop(es: Seq<SVal>) -> bool
    decreases es, 0nat,
{
    if es.len() == 0 {
        false
    } else {
        entries_stop(es.drop_last()) || (entries_json(es.drop_last()) is Ok && match es.last() {
            SVal::Pair(k, v) => key_text(*k) is Ok && json_stops(*v),
            _ => false,
        })
    }
}

/// Whether every number of a document is finite.
pub open spec fn finite_doc(j: SJson) -> bool
    decreases j, 1nat,
{
    match j {
        SJson::Float(f) => finite_bits(f),
        SJson::Array(items) => finite_docs(items),
        SJson::Object(fields) => finite_fields(fields),
        _ => true,
    }
}

pub open spec fn finite_docs(items: Seq<SJson>) -> bool
    decreases items, 0nat,
{
    if items.len() == 0 {
        true
    } else {
        finite_docs(items.drop_last()) && finite_doc(items.last())
    }
}

pub open spec fn finite_fields(fields: Seq<(Seq<char>, SJson)>) -> bool
    decreases fields, 0nat,
{
    if fields.len() == 0 {
        true
    } else {
        finite_fields(fields.drop_last()) && finite_doc(fields.last().1)
    }
}

proof fn lemma_finite_fields(fields: Seq<(Seq<char>, SJson)>)
    ensures
        finite_fields(fields) <==> forall|i: int| 0 <= i < fields.len() ==> #[trigger] finite_doc(fields[i].1),
    decreases fields.len(),
{
    if fields.len() > 0 {
        let d = fields.drop_last();
        lemma_finite_fields(d);
        assert forall|i: int| 0 <= i < d.len() implies #[trigger] fields[i] == d[i] by {}
        if finite_fields(fields) {
            assert forall|i: int| 0 <= i < fields.len() implies #[trigger] finite_doc(fields[i].1) by {
                if i < d.len() {
                    assert(fields[i] == d[i]);
                }
            }
        }
        if forall|i: int| 0 <= i < fields.len() ==> #[trigger] finite_doc(fields[i].1) {
            assert forall|i: int| 0 <= i < d.len() implies #[trigger] finite_doc(d[i].1) by {
                assert(fields[i] == d[i]);
            }
            assert(finite_doc(fields[fields.len() - 1].1));
        }
    }
}

proof fn lemma_finite_field_insert(fields: Seq<(Seq<char>, SJson)>, key: Seq<char>, value: SJson)
    requires
        finite_fields(fields),
        finite_doc(value),
    ensures
        finite_fields(field_insert(fields, key, value)),
{
    lemma_finite_fields(fields);
    lemma_find_field(fields, key);
    let g = field_insert(fields, key, value);
    lemma_finite_fields(g);
    assert forall|i: int| 0 <= i < g.len() implies #[trigger] finite_doc(g[i].1) by {
        if i < fields.len() && g[i] == fields[i] {
            assert(finite_doc(fields[i].1));
        }
    }
}

proof fn lemma_find_field(fields: Seq<(Seq<char>, SJson)>, key: Seq<char>)
    ensures
        find_field(fields, key) matches Some(i) ==> 0 <= i < fields.len(),
    decreases fields.len(),
{
    if fields.len() > 0 {
        lemma_find_field(fields.drop_last(), key);
    }
}


proof fn lemma_items_view_push(s: Seq<JsonValue>, x: JsonValue)
    ensures
        items_view(s.push(x)) == items_view(s).push(view_json(x)),
{
    assert forall|k: int| 0 <= k < s.len() + 1 implies #[trigger] items_view(s.push(x))[k] == items_view(s).push(view_json(x))[k] by {
        lemma_items_view(s.push(x), k);
        if k < s.len() {
            lemma_items_view(s, k);
        }
    }
    assert(items_view(s.push(x)).len() == s.len() + 1);
    assert(items_view(s.push(x)) =~= items_view(s).push(view_json(x)));
}

proof fn lemma_values_settled(a: Seq<SVal>, n: nat)
    requires
        n <= a.len(),
    ensures
        values_stop(a.take(n as int)) ==> values_stop(a),
        values_json(a.take(n as int)) is Err ==> values_json(a) == values_json(a.take(n as int))
            && values_stop(a) == values_stop(a.take(n as int)),
    decreases a.len() - n,
{
    if n < a.len() {
        assert(a.take(n + 1 as int).drop_last() =~= a.take(n as int));
        lemma_values_settled(a, n + 1);
    } else {
        assert(a.take(n as int) =~= a);
    }
}

proof fn lemma_entries_settled(a: Seq<SVal>, n: nat)
    requires
        n <= a.len(),
    ensures
        entries_stop(a.take(n as int)) ==> entries_stop(a),
        entries_json(a.take(n as int)) is Err ==> entries_json(a) == entries_json(a.take(n as int))
            && entries_stop(a) == entries_stop(a.take(n as int)),
    decreases a.len() - n,
{
    if n < a.len() {
        assert(a.take(n + 1 as int).drop_last() =~= a.take(n as int));
        lemma_entries_settled(a, n + 1);
    } else {
        assert(a.take(n as int) =~= a);
    }
}

/// The position of the last field of `fields` with the key `key`.
fn find_field_index(fields: &Vec<(String, JsonValue)>, key: &String) -> (r: Option<usize>)
    ensures
        match r {
            Some(i) => find_field(fields_view(fields@), key@) == Some(i as int) && i < fields@.len(),
            None => find_field(fields_view(fields@), key@) is None,
        },
{
    let ghost f = fields_view(fields@);
    let mut j: usize = fields.len();
    assert(f.take(j as int) =~= f) by {
        if fields@.len() > 0 {
            lemma_fields_view(fields@, 0);
        }
    }
    while j > 0
        invariant
            j <= fields.len(),
            f == fields_view(fields@),
            find_field(f, key@) == find_field(f.take(j as int), key@),
        decreases j,
    {
        proof {
            lemma_fields_view(fields@, j - 1);
        }
        assert(f.take(j as int).drop_last() =~= f.take(j - 1));
        assert(f.take(j as int).last() == f[j - 1]);
        if fields[j - 1].0 == *key {
            return Some(j - 1);
        }
        j = j - 1;
    }
    None
}

/// Binds `key` to `value` among the fields of an object.
fn insert_field(fields: &mut Vec<(String, JsonValue)>, key: String, value: JsonValue)
    ensures
        fields_view(final(fields)@) == field_insert(fields_view(old(fields)@), key@, value@),
{
    let ghost f = fields_view(fields@);
    let ghost e = (key@, value@);
    match find_field_index(fields, &key) {
        Some(i) => {
            fields.set(i, (key, value));
            assert(fields_view(fields@) =~= f.update(i as int, e)) by {
                assert forall|k: int| 0 <= k < fields@.len() implies #[trigger] fields_view(fields@)[k] == f.update(i as int, e)[k] by {
                    lemma_fields_view(fields@, k);
                    lemma_fields_view(old(fields)@, k);
                }
            }
        },
        None => {
            fields.push((key, value));
            assert(fields_view(fields@) =~= f.push(e)) by {
                assert forall|k: int| 0 <= k < fields@.len() implies #[trigger] fields_view(fields@)[k] == f.push(e)[k] by {
                    lemma_fields_view(fields@, k);
                    if k < old(fields)@.len() {
                        lemma_fields_view(old(fields)@, k);
                    }
                }
            }
        },
    }
}

/// How writing went: a result, an error, or a number that is not finite.
enum Attempt<T> {
    Written(T),
    Refused(StahlErr),
    NotFinite,
}

fn write_value(v: &StahlVal) -> (r: Attempt<JsonValue>)
    ensures
        r is NotFinite <==> json_stops(v@),
        r matches Attempt::Written(j) ==> value_json(v@) == Ok::<SJson, ErrorKind>(j@),
        r matches Attempt::Refused(e) ==> value_json(v@) == Err::<SJson, ErrorKind>(e.kind),
        r matches Attempt::Written(j) ==> finite_doc(j@),
    decreases v, 1nat,
{
    match v {
        StahlVal::BoolV(b) => Attempt::Written(JsonValue::Bool(*b)),
        StahlVal::NumV(f) => {
            if (*f >> 52u64) & 0x7ffu64 == 0x7ffu64 {
                Attempt::NotFinite
            } else {
                Attempt::Written(JsonValue::Float(*f))
            }
        },
        StahlVal::IntV(i) => Attempt::Written(JsonValue::Int(*i)),
        StahlVal::CharV(c) => {
            let mut s = String::new();
            push_char(&mut s, *c);
            assert(s@ =~= seq![*c]);
            Attempt::Written(JsonValue::Str(s))
        },
        StahlVal::ListV(items) => match write_values(items) {
            Attempt::Written(js) => Attempt::Written(JsonValue::Array(js)),
            Attempt::Refused(e) => Attempt::Refused(e),
            Attempt::NotFinite => Attempt::NotFinite,
        },
        StahlVal::VectorV(items) => match write_values(items) {
            Attempt::Written(js) => Attempt::Written(JsonValue::Array(js)),
            Attempt::Refused(e) => Attempt::Refused(e),
            Attempt::NotFinite => Attempt::NotFinite,
        },
        StahlVal::StringV(s) => Attempt::Written(JsonValue::Str(s.clone())),
        StahlVal::SymbolV(s) => Attempt::Written(JsonValue::Str(s.clone())),
        StahlVal::HashMapV(m) => match write_entries(&m.entries) {
            Attempt::Written(fs) => Attempt::Written(JsonValue::Object(fs)),
            Attempt::Refused(e) => Attempt::Refused(e),
            Attempt::NotFinite => Attempt::NotFinite,
        },
        StahlVal::HashSetV(h) => match write_values(&h.elems) {
            Attempt::Written(js) => Attempt::Written(JsonValue::Array(js)),
            Attempt::Refused(e) => Attempt::Refused(e),
            Attempt::NotFinite => Attempt::NotFinite,
        },
        StahlVal::Void => Attempt::Refused(StahlErr::new(ErrorKind::Generic, String::from_str("void not serializable"))),
        _ => Attempt::Refused(StahlErr::new(ErrorKind::Generic, String::from_str("type not serializable"))),
    }
}

fn write_values(items: &Vec<StahlVal>) -> (r: Attempt<Vec<JsonValue>>)
    ensures
        r is NotFinite <==> values_stop(vals(items@)),
        r matches Attempt::Written(js) ==> values_json(vals(items@)) == Ok::<Seq<SJson>, ErrorKind>(
            items_view(js@),
        ),
        r matches Attempt::Refused(e) ==> values_json(vals(items@)) == Err::<Seq<SJson>, ErrorKind>(
            e.kind,
        ),
        r matches Attempt::Written(js) ==> finite_docs(items_view(js@)),
    decreases items, 0nat,
{
    let ghost a = vals(items@);
    let mut out: Vec<JsonValue> = Vec::new();
    let mut i: usize = 0;
    assert(items_view(out@) =~= Seq::<SJson>::empty());
    assert(a.take(0) =~= Seq::<SVal>::empty());
    while i < items.len()
        invariant
            i <= items.len(),
            a == vals(items@),
            values_json(a.take(i as int)) == Ok::<Seq<SJson>, ErrorKind>(items_view(out@)),
            !values_stop(a.take(i as int)),
            finite_docs(items_view(out@)),
        decreases items.len() - i,
    {
        proof {
            assert(decreases_to!(items => items@[i as int]));
        }
        assert(a.take(i + 1).drop_last() =~= a.take(i as int));
        assert(a.take(i + 1).last() == items@[i as int]@);
        match write_value(&items[i]) {
            Attempt::Written(j) => {
                proof {
                    lemma_items_view_push(out@, j);
                    assert(items_view(out@).push(j@).drop_last() =~= items_view(out@));
                }
                out.push(j);
            },
            Attempt::Refused(e) => {
                proof {
                    lemma_values_settled(a, (i + 1) as nat);
                }
                return Attempt::Refused(e);
            },
            Attempt::NotFinite => {
                proof {
                    lemma_values_settled(a, (i + 1) as nat);
                }
                return Attempt::NotFinite;
            },
        }
        i = i + 1;
    }
    assert(a.take(items@.len() as int) =~= a);
    Attempt::Written(out)
}

fn write_entries(es: &Vec<(StahlVal, StahlVal)>) -> (r: Attempt<Vec<(String, JsonValue)>>)
    ensures
        r is NotFinite <==> entries_stop(view_entries(es@)),
        r matches Attempt::Written(fs) ==> entries_json(view_entries(es@)) == Ok::<
            Seq<(Seq<char>, SJson)>,
            ErrorKind,
        >(fields_view(fs@)),
        r matches Attempt::Refused(e) ==> entries_json(view_entries(es@)) == Err::<
            Seq<(Seq<char>, SJson)>,
            ErrorKind,
        >(e.kind),
        r matches Attempt::Written(fs) ==> finite_fields(fields_view(fs@)),
    decreases es, 0nat,
{
    let ghost a = view_entries(es@);
    let mut out: Vec<(String, JsonValue)> = Vec::new();
    let mut i: usize = 0;
    assert(fields_view(out@) =~= Seq::<(Seq<char>, SJson)>::empty());
    assert(a.take(0) =~= Seq::<SVal>::empty());
    while i < es.len()
        invariant
            i <= es.len(),
            a == view_entries(es@),
            entries_json(a.take(i as int)) == Ok::<Seq<(Seq<char>, SJson)>, ErrorKind>(fields_view(out@)),
            !entries_stop(a.take(i as int)),
            finite_fields(fields_view(out@)),
        decreases es.len() - i,
    {
        proof {
            assert(decreases_to!(es => es@[i as int]));
            assert(decreases_to!(es@[i as int] => es@[i as int].1));
        }
        assert(a.take(i + 1).drop_last() =~= a.take(i as int));
        assert(a.take(i + 1).last() == a[i as int]);
        let key = match &es[i].0 {
            StahlVal::StringV(s) => s.clone(),
            StahlVal::SymbolV(s) => s.clone(),
            _ => {
                proof {
                    lemma_entries_settled(a, (i + 1) as nat);
                }
                return Attempt::Refused(StahlErr::new(ErrorKind::ConversionError, String::from_str("Expected string")));
            },
        };
        match write_value(&es[i].1) {
            Attempt::Written(j) => {
                proof {
                    lemma_finite_field_insert(fields_view(out@), key@, j@);
                }
                insert_field(&mut out, key, j);
            },
            Attempt::Refused(e) => {
                proof {
                    lemma_entries_settled(a, (i + 1) as nat);
                }
                return Attempt::Refused(e);
            },
            Attempt::NotFinite => {
                proof {
                    lemma_entries_settled(a, (i + 1) as nat);
                }
                return Attempt::NotFinite;
            },
        }
        i = i + 1;
    }
    assert(a.take(es@.len() as int) =~= a);
    Attempt::Written(out)
}

/// `value->jsexpr-string`, before the text: writes a value as a JSON document.
pub fn value_to_json(v: &StahlVal) -> (r: Result<JsonValue, StahlErr>)
    requires
        !json_stops(v@),
    ensures
        json_outcome(r) == value_json(v@),
        r matches Ok(j) ==> finite_doc(j@),
{
    match write_value(v) {
        Attempt::Written(j) => Ok(j),
        Attempt::Refused(e) => Err(e),
        Attempt::NotFinite => {
            proof {
                assert(false);
            }
            Err(StahlErr::new(ErrorKind::Generic, String::from_str("number not serializable")))
        },
    }
}

/// Writes any value as a JSON document: `None` when writing reaches a number that is not
/// finite, else what [`value_to_json`] gives.
pub fn try_value_to_json(v: &StahlVal) -> (r: Option<Result<JsonValue, StahlErr>>)
    ensures
        r is None <==> json_stops(v@),
        r matches Some(x) ==> json_outcome(x) == value_json(v@),
{
    match write_value(v) {
        Attempt::Written(j) => Some(Ok(j)),
        Attempt::Refused(e) => Some(Err(e)),
        Attempt::NotFinite => None,
    }
}

/// The character that the escape `\c` stands for: the control characters of `b`, `f`, `n`,
/// `r` and `t`, else `c` itself.
pub open spec fn escaped(c: char) -> char {
    if c == 'b' {
        '\x08'
    } else if c == 'f' {
        '\x0c'
    } else if c == 'n' {
        '\n'
    } else if c == 'r' {
        '\r'
    } else if c == 't' {
        '\t'
    } else {
        c
    }
}

/// The text `s` with each escape, a backslash and the character after it, replaced by the
/// character it stands for.
pub open spec fn unescaped(s: Seq<char>) -> Seq<char>
    decreases s.len(),
{
    if s.len() == 0 {
        Seq::empty()
    } else if s[0] != '\\' {
        seq![s[0]] + unescaped(s.drop_first())
    } else if s.len() >= 2 {
        seq![escaped(s[1])] + unescaped(s.skip(2))
    } else {
        Seq::empty()
    }
}

/// Whether every backslash of `s` has a character after it to escape.
pub open spec fn escapes_complete(s: Seq<char>) -> bool
    decreases s.len(),
{
    if s.len() == 0 {
        true
    } else if s[0] != '\\' {
        escapes_complete(s.drop_first())
    } else {
        s.len() >= 2 && escapes_complete(s.skip(2))
    }
}

/// Replaces each escape of `s` by the character it stands for.
pub fn unescape(s: &str) -> (r: String)
    requires
        escapes_complete(s@),
    ensures
        r@ == unescaped(s@),
{
    let n = s.unicode_len();
    let mut result = String::new();
    let mut i: usize = 0;
    assert(s@.skip(0) =~= s@);
    while i < n
        invariant
            n == s@.len(),
            i <= n,
            escapes_complete(s@.skip(i as int)),
            result@ + unescaped(s@.skip(i as int)) == unescaped(s@),
        decreases n - i,
    {
        let ch = s.get_char(i);
        let ghost rest = s@.skip(i as int);
        assert(rest[0] == ch);
        if ch != '\\' {
            push_char(&mut result, ch);
            assert(rest.drop_first() =~= s@.skip(i + 1));
            assert(result@ + unescaped(s@.skip(i + 1)) =~= unescaped(s@));
            i = i + 1;
        } else {
            let next = s.get_char(i + 1);
            assert(rest[1] == next);
            let c = if next == 'b' {
                '\x08'
            } else if next == 'f' {
                '\x0c'
            } else if next == 'n' {
                '\n'
            } else if next == 'r' {
                '\r'
            } else if next == 't' {
                '\t'
            } else {
                next
            };
            push_char(&mut result, c);
            assert(rest.skip(2) =~= s@.skip(i + 2));
            assert(result@ + unescaped(s@.skip(i + 2)) =~= unescaped(s@));
            i = i + 2;
        }
    }
    assert(s@.skip(n as int) =~= Seq::<char>::empty());
    assert(result@ =~= unescaped(s@));
    result
}

/// Whether a value is a boolean, an integer, a floating-point number or a string: a value
/// that JSON writes and reads back unchanged.
pub open spec fn plain_json_value(v: SVal) -> bool {
    v is Bool || v is Int || v is Num || v is Str
}

/// A JSON boolean reads as the same boolean, and so do JSON integers, numbers and strings;
/// and each such value, written as JSON and read back, is itself again.
pub proof fn lemma_json_scalars(b: bool, i: int, f: u64, t: Seq<char>, v: SVal)
    ensures
        json_value(SJson::Bool(b)) == SVal::Bool(b),
        json_value(SJson::Int(i)) == SVal::Int(i),
        json_value(SJson::Float(f)) == SVal::Num(f),
        json_value(SJson::Str(t)) == SVal::Str(t),
        plain_json_value(v) ==> (value_json(v) matches Ok(j) && json_value(j) == v),
{
}

/// A list of booleans, integers, floating-point numbers and strings, written as JSON and
/// read back, is the same list.
pub proof fn lemma_json_list_round_trip(items: Seq<SVal>)
    requires
        forall|k: int| 0 <= k < items.len() ==> plain_json_value(#[trigger] items[k]),
    ensures
        values_json(items) matches Ok(js) && json_values(js) == items,
        value_json(SVal::List(items)) matches Ok(j) && json_value(j) == SVal::List(items),
    decreases items.len(),
{
    if items.len() > 0 {
        let d = items.drop_last();
        assert forall|k: int| 0 <= k < d.len() implies plain_json_value(#[trigger] d[k]) by {
            assert(d[k] == items[k]);
        }
        lemma_json_list_round_trip(d);
        lemma_json_scalars(false, 0, 0, Seq::empty(), items.last());
        let js = values_json(d)->Ok_0;
        let j = value_json(items.last())->Ok_0;
        assert(js.push(j).drop_last() =~= js);
        assert(json_values(js.push(j)) =~= items);
    } else {
        assert(json_values(Seq::<SJson>::empty()) =~= items);
    }
}

} // verus!
