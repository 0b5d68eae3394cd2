use stahl_core::cache::MemoizationTable;
use stahl_core::errors::{error_with_src_loc, raise_error_from_error};
use stahl_core::http::{
    body_offset, headers, method, path, resp_headers, try_parse_http_response, try_parse_request, version,
};
use stahl_core::printer::{decimal_text, display_text};
use stahl_core::primitives::equality_primitive;
use stahl_core::values::{ErrorKind, StahlErr, StahlHashMap, StahlVal};

fn s(x: &str) -> StahlVal {
    StahlVal::StringV(x.to_string())
}

#[test]
fn maps_are_equal_whatever_their_order() {
    let a = StahlVal::HashMapV(StahlHashMap { entries: vec![(s("x"), StahlVal::IntV(1)), (s("y"), StahlVal::IntV(2))] });
    let b = StahlVal::HashMapV(StahlHashMap { entries: vec![(s("y"), StahlVal::IntV(2)), (s("x"), StahlVal::IntV(1))] });
    assert_eq!(a, b);
    assert_eq!(b, a);
    assert_eq!(equality_primitive(&[a.clone(), b.clone(), a.clone()]).unwrap(), StahlVal::BoolV(true));
    assert_eq!(equality_primitive(&[a, s("x")]).unwrap(), StahlVal::BoolV(false));
    assert_eq!(equality_primitive(&[]).unwrap(), StahlVal::BoolV(true));
}

#[test]
fn memo_table_reads_back_a_recorded_call() {
    let mut table = MemoizationTable::new();
    let f = StahlVal::SymbolV("f".into());
    assert!(table.get(f.clone(), vec![StahlVal::IntV(1)]).is_none());
    table.insert(f.clone(), vec![StahlVal::IntV(1)], StahlVal::IntV(10));
    table.insert(f.clone(), vec![StahlVal::IntV(2)], StahlVal::IntV(20));
    table.insert(f.clone(), vec![StahlVal::IntV(1)], StahlVal::IntV(11));
    assert_eq!(table.get(f.clone(), vec![StahlVal::IntV(1)]), Some(StahlVal::IntV(11)));
    assert_eq!(table.get(f, vec![StahlVal::IntV(2)]), Some(StahlVal::IntV(20)));
}

#[test]
fn printing_values() {
    assert_eq!(decimal_text(-1234), "-1234");
    assert_eq!(decimal_text(0), "0");
    let v = StahlVal::VectorV(vec![StahlVal::CharV('a'), s("b"), StahlVal::BoolV(false)]);
    assert_eq!(display_text(&v), "#(#\\a \"b\" #false)");
}

#[test]
fn error_with_span_builds_the_message() {
    let span = StahlVal::ListV(vec![StahlVal::IntV(1), StahlVal::IntV(4), StahlVal::BoolV(false)]);
    let err = error_with_src_loc(&[span, s("bad"), StahlVal::IntV(3)]).unwrap_err();
    assert_eq!(err.kind, ErrorKind::Generic);
    assert_eq!(err.message, " bad 3");
    let span = err.span.unwrap();
    assert_eq!((span.start, span.end, span.source_id), (1, 4, None));
    assert_eq!(error_with_src_loc(&[s("x")]).unwrap_err().kind, ErrorKind::ArityMismatch);
}

#[test]
fn raising_an_error_object() {
    let obj = StahlVal::ErrorV(Box::new(StahlErr::new(ErrorKind::TypeMismatch, "oops".to_string())));
    let err = raise_error_from_error(&[obj]).unwrap_err();
    assert_eq!(err.kind, ErrorKind::TypeMismatch);
    assert_eq!(err.message, "oops");
    assert_eq!(raise_error_from_error(&[StahlVal::IntV(1)]).unwrap_err().kind, ErrorKind::ConversionError);
}

#[test]
fn parsing_an_http_request() {
    let bytes = b"GET /index.html HTTP/1.1\r\nHost: example.com\r\n\r\n";
    let request = try_parse_request(bytes).unwrap().unwrap();
    assert_eq!(method(&request).unwrap(), s("GET"));
    assert_eq!(path(&request).unwrap(), s("/index.html"));
    assert_eq!(version(&request).unwrap(), s("1"));
    assert_eq!(body_offset(&request).unwrap(), StahlVal::IntV(bytes.len() as isize));
    let expected = StahlVal::HashMapV(StahlHashMap {
        entries: vec![(s("Host"), StahlVal::ByteVector(b"example.com".to_vec()))],
    });
    assert_eq!(headers(&request).unwrap(), expected);
}

#[test]
fn partial_and_invalid_http_requests() {
    let partial = try_parse_request(b"GET / HTTP/1.1\r\nHost: a").unwrap().unwrap();
    assert_eq!(partial, StahlVal::BoolV(false));
    assert!(try_parse_request(b"\x01\x02 not http\r\n\r\n").is_none());
    assert_eq!(method(&StahlVal::IntV(1)).unwrap_err().kind, ErrorKind::ConversionError);
}

#[test]
fn parsing_an_http_response() {
    let bytes = b"HTTP/1.1 404 Not Found\r\nContent-Length: 0\r\nX-A: 1\r\nX-A: 2\r\n\r\n".to_vec();
    let response = try_parse_http_response(&bytes).unwrap().unwrap();
    match &response {
        StahlVal::ResponseV(r) => {
            assert_eq!(r.version, 1);
            assert_eq!(r.code, 404);
            assert_eq!(r.reason, "Not Found");
            assert_eq!(r.body_offset, bytes.len());
            assert_eq!(r.headers.len(), 3);
        }
        _ => panic!("expected a response"),
    }
    let expected = StahlVal::HashMapV(StahlHashMap {
        entries: vec![
            (s("Content-Length"), StahlVal::ByteVector(b"0".to_vec())),
            (s("X-A"), StahlVal::ByteVector(b"2".to_vec())),
        ],
    });
    assert_eq!(resp_headers(&response).unwrap(), expected);
    assert!(try_parse_http_response(&b"garbage\r\n\r\n".to_vec()).is_none());
}

#[test]
fn memo_table_keeps_other_calls() {
    let mut table = MemoizationTable::new();
    let f = StahlVal::SymbolV("f".into());
    let g = StahlVal::SymbolV("g".into());
    table.insert(f.clone(), vec![StahlVal::IntV(1)], StahlVal::IntV(10));
    table.insert(g.clone(), vec![StahlVal::IntV(1)], StahlVal::IntV(20));
    assert_eq!(table.get(f, vec![StahlVal::IntV(1)]), Some(StahlVal::IntV(10)));
    assert_eq!(table.get(g, vec![StahlVal::IntV(1)]), Some(StahlVal::IntV(20)));
}

#[test]
fn a_line_read_loses_its_trailing_white_space() {
    assert_eq!(stahl_core::printer::line_value("hello  \r\n"), s("hello"));
    assert_eq!(stahl_core::printer::line_value("  a b\u{3000}"), s("  a b"));
    assert_eq!(stahl_core::printer::line_value(""), s(""));
}
