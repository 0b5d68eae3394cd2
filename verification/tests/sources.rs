use stahl_core::conversions::{FromStahlVal, IntoStahlVal};
use stahl_core::sources::{InterierSources, SourceId};
use stahl_core::values::{ErrorKind, StahlVal};

#[test]
fn sources_get_ids_in_order() {
    let mut table = InterierSources::new();
    let a = table.add_source("(define x 1)".to_string(), None);
    let b = table.add_source("(define y 2)".to_string(), Some("lib/y.scm".to_string()));
    assert_eq!(a, SourceId(0));
    assert_eq!(b, SourceId(1));
    assert_eq!(table.get(a).unwrap(), "(define x 1)");
    assert_eq!(table.get_path(&a), None);
    assert_eq!(table.get_path(&b), Some("lib/y.scm".to_string()));
    assert!(table.get(SourceId(2)).is_none());
}

#[test]
fn a_path_read_again_keeps_its_id() {
    let mut table = InterierSources::new();
    let first = table.add_source("old".to_string(), Some("main.scm".to_string()));
    let other = table.add_source("other".to_string(), Some("other.scm".to_string()));
    let again = table.add_source("new".to_string(), Some("main.scm".to_string()));
    assert_eq!(first, again);
    assert_ne!(first, other);
    assert_eq!(table.get(first).unwrap(), "new");
    assert_eq!(table.get_id(&"main.scm".to_string()), Some(first));
    assert_eq!(table.get_id(&"missing.scm".to_string()), None);
}

#[test]
fn source_ids_as_values() {
    let id = SourceId(7);
    let v = id.into_stahlval().unwrap();
    assert_eq!(v, StahlVal::IntV(7));
    let back = SourceId::from_stahlval(&v).unwrap();
    assert_eq!(back, id);
    let bad = StahlVal::BoolV(true);
    let err = SourceId::from_stahlval(&bad).unwrap_err();
    assert_eq!(err.kind, ErrorKind::TypeMismatch);
}
