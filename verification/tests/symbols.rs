use stahl_core::symbols::{symbol_equals, SymbolOperations};
use stahl_core::values::{ErrorKind, StahlVal};

fn sym(s: &str) -> StahlVal {
    StahlVal::SymbolV(s.to_string())
}

#[test]
fn concat_symbols_normal() {
    let args = vec![sym("foo"), sym("bar"), sym("baz")];
    let result = SymbolOperations::concat_symbols(&args);
    let expected = sym("foobarbaz");
    assert_eq!(result.unwrap(), expected);
}

#[test]
fn symbol_to_string_normal() {
    let args = vec![sym("foo")];
    let result = SymbolOperations::symbol_to_string(&args);
    let expected = StahlVal::StringV("foo".into());
    assert_eq!(result.unwrap(), expected);
}

#[test]
fn concat_symbols_rejects_a_string() {
    let args = vec![sym("foo"), StahlVal::StringV("bar".into())];
    let err = SymbolOperations::concat_symbols(&args).unwrap_err();
    assert_eq!(err.kind, ErrorKind::TypeMismatch);
}

#[test]
fn symbol_to_string_of_a_list_prints_it() {
    let args = vec![StahlVal::ListV(vec![sym("a"), StahlVal::IntV(-12), StahlVal::BoolV(true)])];
    let result = SymbolOperations::symbol_to_string(&args).unwrap();
    assert_eq!(result, StahlVal::StringV("(a -12 #true)".into()));
}

#[test]
fn symbol_to_string_arity() {
    let err = SymbolOperations::symbol_to_string(&[]).unwrap_err();
    assert_eq!(err.kind, ErrorKind::ArityMismatch);
}

#[test]
fn symbol_equals_compares_names() {
    assert_eq!(symbol_equals(&[sym("a"), sym("a"), sym("a")]).unwrap(), StahlVal::BoolV(true));
    assert_eq!(symbol_equals(&[sym("a"), sym("b"), StahlVal::IntV(1)]).unwrap(), StahlVal::BoolV(false));
    assert_eq!(symbol_equals(&[sym("a"), StahlVal::IntV(1)]).unwrap_err().kind, ErrorKind::ConversionError);
    assert_eq!(symbol_equals(&[]).unwrap_err().kind, ErrorKind::ArityMismatch);
}
