//! HTTP messages: parsing requests and responses from bytes, and reading their parts.
use vstd::prelude::*;

use crate::errors::{fail, outcome};
use crate::hashmaps::{insert_entry, map_insert};
use crate::printer::{decimal, decimal_text};
use crate::values::{
    clone_bytes, view_entries, view_headers, ErrorKind, Header, SHeader, SVal, StahlErr,
    StahlHashMap, StahlRequest, StahlResponse, StahlVal,
};

verus! {

/// What the HTTP parser makes of a buffer holding a request: an invalid request, a request
/// that needs more bytes, or the parts of a complete request with the contents of every
/// header slot after the parse.
pub enum SParsedRequest {
    Invalid,
    Partial,
    Complete(Seq<char>, Seq<char>, u8, nat, Seq<SHeader>),
}

/// What the HTTP parser makes of a buffer holding a response.
pub enum SParsedResponse {
    Invalid,
    Partial,
    Complete(u8, u16, Seq<char>, nat, Seq<SHeader>),
}

/// The result of parsing a request, as the parser returned it.
pub enum ParsedRequest {
    Invalid,
    Partial,
    Complete { method: String, path: String, version: u8, body_offset: usize, slots: Vec<Header> },
}

/// The result of parsing a response, as the parser returned it.
pub enum ParsedResponse {
    Invalid,
    Partial,
    Complete { version: u8, code: u16, reason: String, body_offset: usize, slots: Vec<Header> },
}

impl View for ParsedRequest {
    type V = SParsedRequest;

    open spec fn view(&self) -> SParsedRequest {
        match self {
            ParsedRequest::Invalid => SParsedRequest::Invalid,
            ParsedRequest::Partial => SParsedRequest::Partial,
            ParsedRequest::Complete { method, path, version, body_offset, slots } => SParsedRequest::Complete(
                method@,
                path@,
                *version,
                *body_offset as nat,
                view_headers(slots@),
            ),
        }
    }
}

impl View for ParsedResponse {
    type V = SParsedResponse;

    open spec fn view(&self) -> SParsedResponse {
        match self {
            ParsedResponse::Invalid => SParsedResponse::Invalid,
            ParsedResponse::Partial => SParsedResponse::Partial,
            ParsedResponse::Complete { version, code, reason, body_offset, slots } => SParsedResponse::Complete(
                *version,
                *code,
                reason@,
                *body_offset as nat,
                view_headers(slots@),
            ),
        }
    }
}

/// What `httparse` makes of `buf` as a request, parsed into 16 header slots.
pub uninterp spec fn http_request_parse(buf: Seq<u8>) -> SParsedRequest;

/// What `httparse` makes of `buf` as a response, parsed into 64 header slots.
pub uninterp spec fn http_response_parse(buf: Seq<u8>) -> SParsedResponse;

/// Calls `httparse::Request::parse` on `buf` with 16 empty header slots. An error of the
/// parser gives `Invalid`, an incomplete request `Partial`; a complete one gives its method,
/// path and minor version (which the parser always sets on a complete request), the offset of
/// the body, and all 16 slots, those the parser did not fill still empty. The contract claims
/// that the result is a function of the bytes alone, with 16 slots and an offset within the
/// buffer.
#[verifier::external_body]
fn parse_request_raw(buf: &[u8]) -> (r: ParsedRequest)
    ensures
        r@ == http_request_parse(buf@),
        r matches ParsedRequest::Complete { slots, body_offset, .. } ==> slots@.len() == 16
            && body_offset <= buf@.len(),
{
    let mut headers = [httparse::EMPTY_HEADER; 16];
    let mut req = httparse::Request::new(&mut headers);
    let (method, path, version, body_offset) = match req.parse(buf) {
        Ok(httparse::Status::Complete(n)) => (req.method.unwrap().to_string(), req.path.unwrap().to_string(), req.version.unwrap(), n),
        Ok(httparse::Status::Partial) => return ParsedRequest::Partial,
        Err(_) => return ParsedRequest::Invalid,
    };
    let slots = headers.iter().map(|h| Header { name: h.name.to_string(), value: h.value.to_vec() }).collect();
    ParsedRequest::Complete { method, path, version, body_offset, slots }
}

/// Calls `httparse::Response::parse` on `buf` with 64 empty header slots. An error of the
/// parser gives `Invalid`, an incomplete response `Partial`; a complete one gives its minor
/// version, status code and reason phrase (which the parser always sets on a complete
/// response), the offset of the body, and all 64 slots. The contract claims that the result
/// is a function of the bytes alone, with 64 slots and an offset within the buffer.
#[verifier::external_body]
fn parse_response_raw(buf: &[u8]) -> (r: ParsedResponse)
    ensures
        r@ == http_response_parse(buf@),
        r matches ParsedResponse::Complete { slots, body_offset, .. } ==> slots@.len() == 64
            && body_offset <= buf@.len(),
{
    let mut headers = [httparse::EMPTY_HEADER; 64];
    let mut resp = httparse::Response::new(&mut headers);
    let (version, code, reason, body_offset) = match resp.parse(buf) {
        Ok(httparse::Status::Complete(n)) => (resp.version.unwrap(), resp.code.unwrap(), resp.reason.unwrap().to_string(), n),
        Ok(httparse::Status::Partial) => return ParsedResponse::Partial,
        Err(_) => return ParsedResponse::Invalid,
    };
    let slots = headers.iter().map(|h| Header { name: h.name.to_string(), value: h.value.to_vec() }).collect();
    ParsedResponse::Complete { version, code, reason, body_offset, slots }
}

/// Whether a header slot was left empty: no name and no value.
pub open spec fn empty_slot(h: SHeader) -> bool {
    h.name.len() == 0 && h.value.len() == 0
}

/// The headers of the slots that are not empty, in order.
pub open spec fn filled(slots: Seq<SHeader>) -> Seq<SHeader>
    decreases slots.len(),
{
    if slots.len() == 0 {
        Seq::empty()
    } else if empty_slot(slots.last()) {
        filled(slots.drop_last())
    } else {
        filled(slots.drop_last()).push(slots.last())
    }
}

/// The headers of the slots that are not empty.
fn filled_headers(slots: &Vec<Header>) -> (r: Vec<Header>)
    ensures
        view_headers(r@) == filled(view_headers(slots@)),
{
    let ghost s = view_headers(slots@);
    let mut r: Vec<Header> = Vec::new();
    let mut i: usize = 0;
    assert(view_headers(r@) =~= filled(s.take(0)));
    while i < slots.len()
        invariant
            i <= slots.len(),
            s == view_headers(slots@),
            view_headers(r@) == filled(s.take(i as int)),
        decreases slots.len() - i,
    {
        assert(s.take(i + 1).drop_last() =~= s.take(i as int));
        assert(s.take(i + 1).last() == s[i as int]);
        if !(slots[i].name.as_str().unicode_len() == 0 && slots[i].value.len() == 0) {
            let ghost before = view_headers(r@);
            let h = Header { name: slots[i].name.clone(), value: clone_bytes(&slots[i].value) };
            r.push(h);
            assert(view_headers(r@) =~= before.push(s[i as int]));
        }
        i = i + 1;
    }
    assert(s.take(slots@.len() as int) =~= s);
    r
}

/// The view of the request a complete parse gives.
pub open spec fn request_view(p: SParsedRequest) -> SVal {
    match p {
        SParsedRequest::Complete(method, path, version, body_offset, slots) => SVal::Request(
            method,
            path,
            decimal(version as int),
            body_offset,
            filled(slots),
        ),
        _ => SVal::Bool(false),
    }
}

/// The view of the response a complete parse gives.
pub open spec fn response_view(p: SParsedResponse) -> SVal {
    match p {
        SParsedResponse::Complete(version, code, reason, body_offset, slots) => SVal::Response(
            version,
            code,
            reason,
            filled(slots),
            body_offset,
        ),
        _ => SVal::Bool(false),
    }
}

/// Parses an HTTP request: the request, or false when the bytes do not hold all of it yet.
pub fn parse_request(buf: &[u8]) -> (r: Result<StahlVal, StahlErr>)
    requires
        !(http_request_parse(buf@) is Invalid),
    ensures
        outcome(r) == Ok::<SVal, ErrorKind>(request_view(http_request_parse(buf@))),
{
    match parse_request_raw(buf) {
        ParsedRequest::Complete { method, path, version, body_offset, slots } => {
            let headers = filled_headers(&slots);
            let request = StahlRequest {
                method,
                path,
                version: decimal_text(version as i128),
                body_offset,
                headers,
            };
            Ok(StahlVal::RequestV(Box::new(request)))
        },
        _ => Ok(StahlVal::BoolV(false)),
    }
}

/// Parses an HTTP response: the response, or false when the bytes do not hold all of it yet.
pub fn parse_response(buf: &[u8]) -> (r: Result<StahlVal, StahlErr>)
    requires
        !(http_response_parse(buf@) is Invalid),
    ensures
        outcome(r) == Ok::<SVal, ErrorKind>(response_view(http_response_parse(buf@))),
{
    match parse_response_raw(buf) {
        ParsedResponse::Complete { version, code, reason, body_offset, slots } => {
            let headers = filled_headers(&slots);
            let response = StahlResponse { version, code, reason, headers, body_offset };
            Ok(StahlVal::ResponseV(Box::new(response)))
        },
        _ => Ok(StahlVal::BoolV(false)),
    }
}

/// `http-parse-request` on the bytes of a byte vector.
pub fn parse_http_request(vector: &Vec<u8>) -> (r: Result<StahlVal, StahlErr>)
    requires
        !(http_request_parse(vector@) is Invalid),
    ensures
        outcome(r) == Ok::<SVal, ErrorKind>(request_view(http_request_parse(vector@))),
{
    parse_request(vector.as_slice())
}

/// `http-parse-response` on the bytes of a byte vector.
pub fn parse_http_response(vector: &Vec<u8>) -> (r: Result<StahlVal, StahlErr>)
    requires
        !(http_response_parse(vector@) is Invalid),
    ensures
        outcome(r) == Ok::<SVal, ErrorKind>(response_view(http_response_parse(vector@))),
{
    parse_response(vector.as_slice())
}

/// Parses an HTTP request from any bytes: `None` when they are not a valid request, else
/// what [`parse_request`] gives.
pub fn try_parse_request(buf: &[u8]) -> (r: Option<Result<StahlVal, StahlErr>>)
    ensures
        http_request_parse(buf@) is Invalid ==> r is None,
        !(http_request_parse(buf@) is Invalid) ==> (r matches Some(x) && outcome(x) == Ok::<
            SVal,
            ErrorKind,
        >(request_view(http_request_parse(buf@)))),
{
    match parse_request_raw(buf) {
        ParsedRequest::Invalid => None,
        _ => Some(parse_request(buf)),
    }
}

/// Parses an HTTP response from any bytes: `None` when they are not a valid response, else
/// what [`parse_response`] gives.
pub fn try_parse_response(buf: &[u8]) -> (r: Option<Result<StahlVal, StahlErr>>)
    ensures
        http_response_parse(buf@) is Invalid ==> r is None,
        !(http_response_parse(buf@) is Invalid) ==> (r matches Some(x) && outcome(x) == Ok::<
            SVal,
            ErrorKind,
        >(response_view(http_response_parse(buf@)))),
{
    match parse_response_raw(buf) {
        ParsedResponse::Invalid => None,
        _ => Some(parse_response(buf)),
    }
}

/// `http-parse-request` on any byte vector: `None` when its bytes are not a valid request,
/// else what [`parse_http_request`] gives.
pub fn try_parse_http_request(vector: &Vec<u8>) -> (r: Option<Result<StahlVal, StahlErr>>)
    ensures
        http_request_parse(vector@) is Invalid ==> r is None,
        !(http_request_parse(vector@) is Invalid) ==> (r matches Some(x) && outcome(x) == Ok::<
            SVal,
            ErrorKind,
        >(request_view(http_request_parse(vector@)))),
{
    match parse_request_raw(vector.as_slice()) {
        ParsedRequest::Invalid => None,
        _ => Some(parse_http_request(vector)),
    }
}

/// `http-parse-response` on any byte vector: `None` when its bytes are not a valid response,
/// else what [`parse_http_response`] gives.
pub fn try_parse_http_response(vector: &Vec<u8>) -> (r: Option<Result<StahlVal, StahlErr>>)
    ensures
        http_response_parse(vector@) is Invalid ==> r is None,
        !(http_response_parse(vector@) is Invalid) ==> (r matches Some(x) && outcome(x) == Ok::<
            SVal,
            ErrorKind,
        >(response_view(http_response_parse(vector@)))),
{
    match parse_response_raw(vector.as_slice()) {
        ParsedResponse::Invalid => None,
        _ => Some(parse_http_response(vector)),
    }
}

/// `http-request-method`.
pub fn method(value: &StahlVal) -> (r: Result<StahlVal, StahlErr>)
    ensures
        outcome(r) == match value@ {
            SVal::Request(m, _, _, _, _) => Ok::<SVal, ErrorKind>(SVal::Str(m)),
            _ => Err(ErrorKind::ConversionError),
        },
{
    match value {
        StahlVal::RequestV(q) => Ok(StahlVal::StringV(q.method.clone())),
        _ => fail(ErrorKind::ConversionError, "expected an http request"),
    }
}

/// `http-request-path`.
pub fn path(value: &StahlVal) -> (r: Result<StahlVal, StahlErr>)
    ensures
        outcome(r) == match value@ {
            SVal::Request(_, p, _, _, _) => Ok::<SVal, ErrorKind>(SVal::Str(p)),
            _ => Err(ErrorKind::ConversionError),
        },
{
    match value {
        StahlVal::RequestV(q) => Ok(StahlVal::StringV(q.path.clone())),
        _ => fail(ErrorKind::ConversionError, "expected an http request"),
    }
}

/// `http-request-version`.
pub fn version(value: &StahlVal) -> (r: Result<StahlVal, StahlErr>)
    ensures
        outcome(r) == match value@ {
            SVal::Request(_, _, v, _, _) => Ok::<SVal, ErrorKind>(SVal::Str(v)),
            _ => Err(ErrorKind::ConversionError),
        },
{
    match value {
        StahlVal::RequestV(q) => Ok(StahlVal::StringV(q.version.clone())),
        _ => fail(ErrorKind::ConversionError, "expected an http request"),
    }
}

/// `http-request-body-offset`.
pub fn body_offset(value: &StahlVal) -> (r: Result<StahlVal, StahlErr>)
    requires
        value@ matches SVal::Request(_, _, _, offset, _) ==> offset <= isize::MAX,
    ensures
        outcome(r) == match value@ {
            SVal::Request(_, _, _, offset, _) => Ok::<SVal, ErrorKind>(SVal::Int(offset as int)),
            _ => Err(ErrorKind::ConversionError),
        },
{
    match value {
        StahlVal::RequestV(q) => Ok(StahlVal::IntV(q.body_offset as isize)),
        _ => fail(ErrorKind::ConversionError, "expected an http request"),
    }
}

/// The map of header names (as strings) to header values (as byte vectors): a later header
/// of the same name replaces an earlier one.
pub open spec fn header_map(hs: Seq<SHeader>) -> Seq<SVal>
    decreases hs.len(),
{
    if hs.len() == 0 {
        Seq::empty()
    } else {
        map_insert(header_map(hs.drop_last()), SVal::Str(hs.last().name), SVal::Bytes(hs.last().value))
    }
}

fn headers_to_map(hs: &Vec<Header>) -> (r: StahlVal)
    ensures
        r@ == SVal::HashMap(header_map(view_headers(hs@))),
{
    let ghost s = view_headers(hs@);
    let mut es: Vec<(StahlVal, StahlVal)> = Vec::new();
    let mut i: usize = 0;
    assert(view_entries(es@) =~= header_map(s.take(0)));
    while i < hs.len()
        invariant
            i <= hs.len(),
            s == view_headers(hs@),
            view_entries(es@) == header_map(s.take(i as int)),
        decreases hs.len() - i,
    {
        assert(s.take(i + 1).drop_last() =~= s.take(i as int));
        assert(s.take(i + 1).last() == s[i as int]);
        let k = StahlVal::StringV(hs[i].name.clone());
        let v = StahlVal::ByteVector(clone_bytes(&hs[i].value));
        insert_entry(&mut es, k, v);
        i = i + 1;
    }
    assert(s.take(hs@.len() as int) =~= s);
    StahlVal::HashMapV(StahlHashMap { entries: es })
}

/// `http-request-headers`: the headers of a request as a map from names to byte vectors.
pub fn headers(value: &StahlVal) -> (r: Result<StahlVal, StahlErr>)
    ensures
        outcome(r) == match value@ {
            SVal::Request(_, _, _, _, hs) => Ok::<SVal, ErrorKind>(SVal::HashMap(header_map(hs))),
            _ => Err(ErrorKind::ConversionError),
        },
{
    match value {
        StahlVal::RequestV(q) => Ok(headers_to_map(&q.headers)),
        _ => fail(ErrorKind::ConversionError, "expected an http request"),
    }
}

/// `http-response-headers`: the headers of a response as a map from names to byte vectors.
pub fn resp_headers(value: &StahlVal) -> (r: Result<StahlVal, StahlErr>)
    ensures
        outcome(r) == match value@ {
            SVal::Response(_, _, _, hs, _) => Ok::<SVal, ErrorKind>(SVal::HashMap(header_map(hs))),
            _ => Err(ErrorKind::ConversionError),
        },
{
    match value {
        StahlVal::ResponseV(q) => Ok(headers_to_map(&q.headers)),
        _ => fail(ErrorKind::ConversionError, "expected an http response"),
    }
}

} // verus!
