use stahl_core::json::{json_to_value, string_to_jsexpr, try_value_to_json, unescape, value_to_json, JsonValue};
use stahl_core::values::{StahlHashMap, StahlVal};

#[test]
fn test_string_to_jsexpr() {
    let json_expr = r#"{"a":"applesauce","b":"bananas"}"#;
    let result = string_to_jsexpr(json_expr);
    let expected = StahlVal::HashMapV(StahlHashMap {
        entries: vec![
            (StahlVal::SymbolV("a".into()), StahlVal::StringV("applesauce".into())),
            (StahlVal::SymbolV("b".into()), StahlVal::StringV("bananas".into())),
        ],
    });
    assert_eq!(result.unwrap(), expected);
}

#[test]
fn json_arrays_become_lists() {
    let result = string_to_jsexpr("[1, true, null]").unwrap();
    let expected = StahlVal::ListV(vec![
        StahlVal::NumV(1.0f64.to_bits()),
        StahlVal::BoolV(true),
        StahlVal::Void,
    ]);
    assert_eq!(result, expected);
}

#[test]
fn writing_then_reading_a_map() {
    let value = StahlVal::HashMapV(StahlHashMap {
        entries: vec![(StahlVal::SymbolV("k".into()), StahlVal::IntV(3))],
    });
    let json = value_to_json(&value).unwrap();
    match &json {
        JsonValue::Object(fields) => {
            assert_eq!(fields.len(), 1);
            assert_eq!(fields[0].0, "k");
        }
        _ => panic!("expected an object"),
    }
    assert_eq!(json_to_value(&json), value);
}

#[test]
fn unescape_replaces_escapes() {
    assert_eq!(unescape("a\\nb\\\"c"), "a\nb\"c");
}

#[test]
fn writing_stops_at_the_first_problem() {
    let nan = StahlVal::NumV(f64::NAN.to_bits());
    let void_first = StahlVal::ListV(vec![StahlVal::Void, nan.clone()]);
    let err = try_value_to_json(&void_first).unwrap().unwrap_err();
    assert_eq!(err.message, "void not serializable");
    let nan_first = StahlVal::ListV(vec![nan, StahlVal::Void]);
    assert!(try_value_to_json(&nan_first).is_none());
    let fine = StahlVal::VectorV(vec![StahlVal::NumV(2.5f64.to_bits()), StahlVal::CharV('c')]);
    match try_value_to_json(&fine).unwrap().unwrap() {
        JsonValue::Array(items) => assert_eq!(items.len(), 2),
        _ => panic!("expected an array"),
    }
}

fn to_serde(j: JsonValue) -> serde_json::Value {
    match j {
        JsonValue::Null => serde_json::Value::Null,
        JsonValue::Bool(b) => serde_json::Value::Bool(b),
        JsonValue::Int(i) => serde_json::Value::Number(serde_json::Number::from(i)),
        JsonValue::Float(f) => serde_json::Value::Number(serde_json::Number::from_f64(f64::from_bits(f)).unwrap()),
        JsonValue::Str(s) => serde_json::Value::String(s),
        JsonValue::Array(a) => serde_json::Value::Array(a.into_iter().map(to_serde).collect()),
        JsonValue::Object(fields) => {
            let mut map = serde_json::Map::new();
            for (k, v) in fields {
                map.insert(k, to_serde(v));
            }
            serde_json::Value::Object(map)
        }
    }
}

#[test]
fn documented_json_examples() {
    let read = string_to_jsexpr("{\"foo\": [3]}").unwrap();
    let expected = StahlVal::HashMapV(StahlHashMap {
        entries: vec![(StahlVal::SymbolV("foo".into()), StahlVal::ListV(vec![StahlVal::NumV(3.0f64.to_bits())]))],
    });
    assert_eq!(read, expected);
    let value = StahlVal::ListV(vec![StahlVal::HashMapV(StahlHashMap {
        entries: vec![(StahlVal::StringV("foo".into()), StahlVal::BoolV(true))],
    })]);
    let written = to_serde(value_to_json(&value).unwrap()).to_string();
    assert_eq!(written, "[{\"foo\":true}]");
}

#[test]
fn text_that_is_no_json_is_an_error() {
    let err = string_to_jsexpr("{not json").unwrap_err();
    assert_eq!(err.kind, stahl_core::values::ErrorKind::Generic);
}
