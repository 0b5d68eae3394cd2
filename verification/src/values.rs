//! Runtime values, errors and their mathematical views.
use vstd::prelude::*;

use crate::heap::HeapRef;
use crate::transducers::{Reducer, ReducerFunc};
use crate::lazy_stream::LazyStream;

verus! {

/// The category of an error raised by a primitive.
#[derive(Clone, Copy, Debug, PartialEq, Eq, Structural)]
pub enum ErrorKind {
    ArityMismatch,
    TypeMismatch,
    ContractViolation,
    Generic,
    ConversionError,
    BadSyntax,
    UnexpectedToken,
    Io,
}

/// A source span: byte offsets into a source, and the source it belongs to.
#[derive(Clone, Copy, Debug, PartialEq, Eq, Structural)]
pub struct Span {
    pub start: usize,
    pub end: usize,
    pub source_id: Option<u32>,
}

/// An error raised by a primitive: its kind, a message, and optionally where it happened.
#[derive(Clone, Debug)]
pub struct StahlErr {
    pub kind: ErrorKind,
    pub message: String,
    pub span: Option<Span>,
}

/// A cons cell.
#[derive(Debug)]
pub struct Pair {
    pub car: StahlVal,
    pub cdr: StahlVal,
}

/// An immutable hash map. Keys are unique up to [`equiv`]; entries keep insertion order.
#[derive(Clone, Debug)]
pub struct StahlHashMap {
    pub entries: Vec<(StahlVal, StahlVal)>,
}

/// An immutable hash set. Elements are unique up to [`equiv`]; they keep insertion order.
#[derive(Clone, Debug)]
pub struct StahlHashSet {
    pub elems: Vec<StahlVal>,
}

/// A header of an HTTP message: its name and its raw value.
#[derive(Debug)]
pub struct Header {
    pub name: String,
    pub value: Vec<u8>,
}

/// A parsed HTTP request.
#[derive(Debug)]
pub struct StahlRequest {
    pub method: String,
    pub path: String,
    pub version: String,
    /// Where the body starts in the buffer the request was parsed from.
    pub body_offset: usize,
    pub headers: Vec<Header>,
}

/// A parsed HTTP response.
#[derive(Debug)]
pub struct StahlResponse {
    /// The minor version, such as `1` for `HTTP/1.1`.
    pub version: u8,
    /// The status code, such as `200`.
    pub code: u16,
    /// The reason phrase, such as `OK`; empty when there is none.
    pub reason: String,
    pub headers: Vec<Header>,
    /// Where the body starts in the buffer the response was parsed from.
    pub body_offset: usize,
}

/// The view of a header.
pub struct SHeader {
    pub name: Seq<char>,
    pub value: Seq<u8>,
}

/// The views of headers.
pub open spec fn view_headers(hs: Seq<Header>) -> Seq<SHeader> {
    Seq::new(hs.len(), |i: int| SHeader { name: hs[i].name@, value: hs[i].value@ })
}

/// A runtime value of the language.
///
/// `NumV` holds the bit pattern of an IEEE-754 double; no arithmetic on it happens here.
/// `MutableVector` and `HeapAllocated` are handles into a [`crate::heap::Heap`].
#[derive(Debug)]
pub enum StahlVal {
    Void,
    BoolV(bool),
    IntV(isize),
    NumV(u64),
    CharV(char),
    StringV(String),
    SymbolV(String),
    ListV(Vec<StahlVal>),
    VectorV(Vec<StahlVal>),
    Pair(Box<Pair>),
    HashMapV(StahlHashMap),
    HashSetV(StahlHashSet),
    ByteVector(Vec<u8>),
    MutableVector(HeapRef),
    HeapAllocated(HeapRef),
    ReducerV(Box<Reducer>),
    StreamV(Box<LazyStream>),
    ErrorV(Box<StahlErr>),
    RequestV(Box<StahlRequest>),
    ResponseV(Box<StahlResponse>),
    BigNum(BigNumber),
    Rational(i32, i32),
    BigRational(BigNumber, BigNumber),
}

/// An integer of any size: a sign, and its magnitude in base 2^32, least significant digit
/// first.
#[derive(Debug)]
pub struct BigNumber {
    pub negative: bool,
    pub digits: Vec<u32>,
}

/// The value of digits in base 2^32, least significant first.
pub open spec fn digits_value(digits: Seq<u32>) -> nat
    decreases digits.len(),
{
    if digits.len() == 0 {
        0
    } else {
        digits[0] as nat + 0x1_0000_0000 * digits_value(digits.drop_first())
    }
}

/// The integer a sign and digits stand for.
pub open spec fn big_value(negative: bool, digits: Seq<u32>) -> int {
    if negative {
        -(digits_value(digits) as int)
    } else {
        digits_value(digits) as int
    }
}

impl View for BigNumber {
    type V = int;

    open spec fn view(&self) -> int {
        big_value(self.negative, self.digits@)
    }
}

/// The mathematical view of a reducer.
pub enum SReducer {
    Sum,
    Multiply,
    Max,
    Min,
    Count,
    Nth(nat),
    List,
    Vector,
    HashMap,
    HashSet,
    String,
    Last,
    ForEach(Box<SVal>),
    Generic(Box<SVal>, Box<SVal>),
}

/// The mathematical view of a runtime value.
pub enum SVal {
    Void,
    Bool(bool),
    Int(int),
    Num(u64),
    Char(char),
    Str(Seq<char>),
    Sym(Seq<char>),
    List(Seq<SVal>),
    Vector(Seq<SVal>),
    Pair(Box<SVal>, Box<SVal>),
    HashMap(Seq<SVal>),
    HashSet(Seq<SVal>),
    Bytes(Seq<u8>),
    MutVector(nat),
    Boxed(nat),
    Reducer(SReducer),
    Stream(Box<SVal>, Box<SVal>, bool),
    Error(ErrorKind, Seq<char>, Option<Span>),
    Request(Seq<char>, Seq<char>, Seq<char>, nat, Seq<SHeader>),
    Response(u8, u16, Seq<char>, Seq<SHeader>, nat),
    BigNum(int),
    Rational(int, int),
    BigRational(int, int),
}

pub open spec fn view_seq(s: Seq<StahlVal>) -> Seq<SVal>
    decreases s,
{
    Seq::new(s.len(), |i: int| if 0 <= i < s.len() { view_val(s[i]) } else { SVal::Void })
}

/// The entries of a map, each viewed as the pair of its key and its value.
pub open spec fn view_entries(s: Seq<(StahlVal, StahlVal)>) -> Seq<SVal>
    decreases s,
{
    Seq::new(
        s.len(),
        |i: int|
            if 0 <= i < s.len() {
                SVal::Pair(Box::new(view_val(s[i].0)), Box::new(view_val(s[i].1)))
            } else {
                SVal::Void
            },
    )
}

pub open spec fn view_reducer(r: Reducer) -> SReducer
    decreases r,
{
    match r {
        Reducer::Sum => SReducer::Sum,
        Reducer::Multiply => SReducer::Multiply,
        Reducer::Max => SReducer::Max,
        Reducer::Min => SReducer::Min,
        Reducer::Count => SReducer::Count,
        Reducer::Nth(n) => SReducer::Nth(n as nat),
        Reducer::List => SReducer::List,
        Reducer::Vector => SReducer::Vector,
        Reducer::HashMap => SReducer::HashMap,
        Reducer::HashSet => SReducer::HashSet,
        Reducer::String => SReducer::String,
        Reducer::Last => SReducer::Last,
        Reducer::ForEach(f) => SReducer::ForEach(Box::new(view_val(f))),
        Reducer::Generic(g) => SReducer::Generic(
            Box::new(view_val(g.initial_value)),
            Box::new(view_val(g.function)),
        ),
    }
}

pub open spec fn view_val(v: StahlVal) -> SVal
    decreases v,
{
    match v {
        StahlVal::Void => SVal::Void,
        StahlVal::BoolV(b) => SVal::Bool(b),
        StahlVal::IntV(i) => SVal::Int(i as int),
        StahlVal::NumV(n) => SVal::Num(n),
        StahlVal::CharV(c) => SVal::Char(c),
        StahlVal::StringV(s) => SVal::Str(s@),
        StahlVal::SymbolV(s) => SVal::Sym(s@),
        StahlVal::ListV(l) => SVal::List(view_seq(l@)),
        StahlVal::VectorV(l) => SVal::Vector(view_seq(l@)),
        StahlVal::Pair(p) => SVal::Pair(Box::new(view_val(p.car)), Box::new(view_val(p.cdr))),
        StahlVal::HashMapV(m) => SVal::HashMap(view_entries(m.entries@)),
        StahlVal::HashSetV(s) => SVal::HashSet(view_seq(s.elems@)),
        StahlVal::ByteVector(b) => SVal::Bytes(b@),
        StahlVal::MutableVector(r) => SVal::MutVector(r.index as nat),
        StahlVal::HeapAllocated(r) => SVal::Boxed(r.index as nat),
        StahlVal::ReducerV(r) => SVal::Reducer(view_reducer(*r)),
        StahlVal::StreamV(s) => SVal::Stream(
            Box::new(view_val(s.initial_value)),
            Box::new(view_val(s.stream_thunk)),
            s.empty_stream,
        ),
        StahlVal::ErrorV(e) => SVal::Error(e.kind, e.message@, e.span),
        StahlVal::RequestV(q) => SVal::Request(
            q.method@,
            q.path@,
            q.version@,
            q.body_offset as nat,
            view_headers(q.headers@),
        ),
        StahlVal::ResponseV(q) => SVal::Response(
            q.version,
            q.code,
            q.reason@,
            view_headers(q.headers@),
            q.body_offset as nat,
        ),
        StahlVal::BigNum(b) => SVal::BigNum(b@),
        StahlVal::Rational(n, d) => SVal::Rational(n as int, d as int),
        StahlVal::BigRational(n, d) => SVal::BigRational(n@, d@),
    }
}

impl View for StahlVal {
    type V = SVal;

    open spec fn view(&self) -> SVal {
        view_val(*self)
    }
}

impl View for StahlHashMap {
    type V = Seq<SVal>;

    /// The entries, in insertion order, each as the pair of its key and its value.
    open spec fn view(&self) -> Seq<SVal> {
        view_entries(self.entries@)
    }
}

impl View for StahlHashSet {
    type V = Seq<SVal>;

    open spec fn view(&self) -> Seq<SVal> {
        view_seq(self.elems@)
    }
}

/// Equality of reducers: same variant, with equal payloads.
pub open spec fn reducer_equiv(a: SReducer, b: SReducer) -> bool
    decreases a, 0nat, 0nat,
{
    match a {
        SReducer::ForEach(f) => match b {
            SReducer::ForEach(g) => equiv(*f, *g),
            _ => false,
        },
        SReducer::Generic(i, f) => match b {
            SReducer::Generic(j, g) => equiv(*i, *j) && equiv(*f, *g),
            _ => false,
        },
        _ => a == b,
    }
}

/// Whether `x` and `y` have the same length and are equal position by position.
pub open spec fn seq_equiv(x: Seq<SVal>, y: Seq<SVal>) -> bool
    decreases x, 0nat, 0nat,
{
    if x.len() == 0 {
        y.len() == 0
    } else {
        y.len() == x.len() && seq_equiv(x.drop_last(), y.drop_last()) && equiv(x.last(), y.last())
    }
}

/// Whether `a` is equal to some element of `ys`.
pub open spec fn has_equal_in(a: SVal, ys: Seq<SVal>) -> bool
    decreases a, 1nat, ys.len(),
{
    if ys.len() == 0 {
        false
    } else {
        has_equal_in(a, ys.drop_last()) || equiv(a, ys.last())
    }
}

/// Whether some element of `xs` is equal to `b`.
pub open spec fn has_equal_from(xs: Seq<SVal>, b: SVal) -> bool
    decreases xs, 1nat, 0nat,
{
    if xs.len() == 0 {
        false
    } else {
        has_equal_from(xs.drop_last(), b) || equiv(xs.last(), b)
    }
}

/// Whether every element of `x` has an equal element in `y`.
pub open spec fn covers(x: Seq<SVal>, y: Seq<SVal>) -> bool
    decreases x, 2nat, 0nat,
{
    if x.len() == 0 {
        true
    } else {
        covers(x.drop_last(), y) && has_equal_in(x.last(), y)
    }
}

/// Whether every element of `y` has an equal element in `x`.
pub open spec fn covered(x: Seq<SVal>, y: Seq<SVal>) -> bool
    decreases x, 3nat, y.len(),
{
    if y.len() == 0 {
        true
    } else {
        covered(x, y.drop_last()) && has_equal_from(x, y.last())
    }
}

/// Equality of values, as `equal?` decides it.
///
/// Lists, vectors, pairs, streams and reducers are equal when their parts are equal in order.
/// Hash sets are equal when they have as many elements and each element of either has an
/// equal element in the other; hash maps likewise, entry by entry (equal key and equal value).
/// Every other value is equal only to an identical value.
pub open spec fn equiv(a: SVal, b: SVal) -> bool
    decreases a, 0nat, 0nat,
{
    match a {
        SVal::List(x) => match b {
            SVal::List(y) => seq_equiv(x, y),
            _ => false,
        },
        SVal::Vector(x) => match b {
            SVal::Vector(y) => seq_equiv(x, y),
            _ => false,
        },
        SVal::Pair(x1, x2) => match b {
            SVal::Pair(y1, y2) => equiv(*x1, *y1) && equiv(*x2, *y2),
            _ => false,
        },
        SVal::HashSet(x) => match b {
            SVal::HashSet(y) => x.len() == y.len() && covers(x, y) && covered(x, y),
            _ => false,
        },
        SVal::HashMap(x) => match b {
            SVal::HashMap(y) => x.len() == y.len() && covers(x, y) && covered(x, y),
            _ => false,
        },
        SVal::Reducer(r) => match b {
            SVal::Reducer(q) => reducer_equiv(r, q),
            _ => false,
        },
        SVal::Stream(x1, x2, e) => match b {
            SVal::Stream(y1, y2, f) => equiv(*x1, *y1) && equiv(*x2, *y2) && e == f,
            _ => false,
        },
        _ => a == b,
    }
}

/// Copies a sequence of values element by element.
pub fn clone_vals(v: &Vec<StahlVal>) -> (r: Vec<StahlVal>)
    ensures
        view_seq(r@) == view_seq(v@),
    decreases v,
{
    let mut r: Vec<StahlVal> = Vec::new();
    let mut i: usize = 0;
    while i < v.len()
        invariant
            i <= v.len(),
            r@.len() == i,
            forall|j: int| 0 <= j < i ==> view_val(#[trigger] r@[j]) == view_val(v@[j]),
        decreases v.len() - i,
    {
        proof {
            assert(decreases_to!(v => v@[i as int]));
        }
        let c = v[i].clone();
        r.push(c);
        i = i + 1;
    }
    assert(view_seq(r@) =~= view_seq(v@));
    r
}

impl Clone for StahlVal {
    fn clone(&self) -> (r: Self)
        ensures
            r@ == self@,
        decreases self,
    {
        match self {
            StahlVal::Void => StahlVal::Void,
            StahlVal::BoolV(b) => StahlVal::BoolV(*b),
            StahlVal::IntV(i) => StahlVal::IntV(*i),
            StahlVal::NumV(n) => StahlVal::NumV(*n),
            StahlVal::CharV(c) => StahlVal::CharV(*c),
            StahlVal::StringV(s) => StahlVal::StringV(s.clone()),
            StahlVal::SymbolV(s) => StahlVal::SymbolV(s.clone()),
            StahlVal::ListV(l) => StahlVal::ListV(clone_vals(l)),
            StahlVal::VectorV(l) => StahlVal::VectorV(clone_vals(l)),
            StahlVal::Pair(p) => StahlVal::Pair(Box::new(Pair { car: p.car.clone(), cdr: p.cdr.clone() })),
            StahlVal::HashMapV(m) => StahlVal::HashMapV(StahlHashMap { entries: clone_entries(&m.entries) }),
            StahlVal::HashSetV(h) => StahlVal::HashSetV(StahlHashSet { elems: clone_vals(&h.elems) }),
            StahlVal::ByteVector(b) => StahlVal::ByteVector(clone_bytes(b)),
            StahlVal::MutableVector(r) => StahlVal::MutableVector(*r),
            StahlVal::HeapAllocated(r) => StahlVal::HeapAllocated(*r),
            StahlVal::ReducerV(r) => StahlVal::ReducerV(Box::new(clone_reducer(r))),
            StahlVal::StreamV(st) => StahlVal::StreamV(Box::new(LazyStream {
                initial_value: st.initial_value.clone(),
                stream_thunk: st.stream_thunk.clone(),
                empty_stream: st.empty_stream,
            })),
            StahlVal::ErrorV(e) => StahlVal::ErrorV(Box::new(StahlErr {
                kind: e.kind,
                message: e.message.clone(),
                span: e.span,
            })),
            StahlVal::RequestV(q) => StahlVal::RequestV(Box::new(StahlRequest {
                method: q.method.clone(),
                path: q.path.clone(),
                version: q.version.clone(),
                body_offset: q.body_offset,
                headers: clone_headers(&q.headers),
            })),
            StahlVal::ResponseV(q) => StahlVal::ResponseV(Box::new(StahlResponse {
                version: q.version,
                code: q.code,
                reason: q.reason.clone(),
                headers: clone_headers(&q.headers),
                body_offset: q.body_offset,
            })),
            StahlVal::BigNum(b) => StahlVal::BigNum(crate::bignum::big_copy(b)),
            StahlVal::Rational(n, d) => StahlVal::Rational(*n, *d),
            StahlVal::BigRational(n, d) => StahlVal::BigRational(crate::bignum::big_copy(n), crate::bignum::big_copy(d)),
        }
    }
}

/// Copies a reducer.
pub fn clone_reducer(r: &Reducer) -> (c: Reducer)
    ensures
        view_reducer(c) == view_reducer(*r),
    decreases r,
{
    match r {
        Reducer::Sum => Reducer::Sum,
        Reducer::Multiply => Reducer::Multiply,
        Reducer::Max => Reducer::Max,
        Reducer::Min => Reducer::Min,
        Reducer::Count => Reducer::Count,
        Reducer::Nth(n) => Reducer::Nth(*n),
        Reducer::List => Reducer::List,
        Reducer::Vector => Reducer::Vector,
        Reducer::HashMap => Reducer::HashMap,
        Reducer::HashSet => Reducer::HashSet,
        Reducer::String => Reducer::String,
        Reducer::Last => Reducer::Last,
        Reducer::ForEach(f) => Reducer::ForEach(f.clone()),
        Reducer::Generic(g) => Reducer::Generic(ReducerFunc {
            initial_value: g.initial_value.clone(),
            function: g.function.clone(),
        }),
    }
}

/// Copies headers.
pub fn clone_headers(hs: &Vec<Header>) -> (r: Vec<Header>)
    ensures
        view_headers(r@) == view_headers(hs@),
{
    let mut r: Vec<Header> = Vec::new();
    let mut i: usize = 0;
    while i < hs.len()
        invariant
            i <= hs.len(),
            r@.len() == i,
            forall|j: int|
                0 <= j < i ==> (#[trigger] r@[j]).name@ == hs@[j].name@ && r@[j].value@
                    == hs@[j].value@,
        decreases hs.len() - i,
    {
        let h = Header { name: hs[i].name.clone(), value: clone_bytes(&hs[i].value) };
        r.push(h);
        i = i + 1;
    }
    assert(view_headers(r@) =~= view_headers(hs@));
    r
}

/// Copies a byte sequence.
pub fn clone_bytes(b: &Vec<u8>) -> (r: Vec<u8>)
    ensures
        r@ == b@,
{
    let mut r: Vec<u8> = Vec::new();
    let mut i: usize = 0;
    while i < b.len()
        invariant
            i <= b.len(),
            r@ == b@.subrange(0, i as int),
        decreases b.len() - i,
    {
        r.push(b[i]);
        i = i + 1;
        assert(r@ =~= b@.subrange(0, i as int));
    }
    assert(b@.subrange(0, b@.len() as int) =~= b@);
    r
}

/// Copies the entries of a hash map.
pub fn clone_entries(v: &Vec<(StahlVal, StahlVal)>) -> (r: Vec<(StahlVal, StahlVal)>)
    ensures
        view_entries(r@) == view_entries(v@),
    decreases v,
{
    let mut r: Vec<(StahlVal, StahlVal)> = Vec::new();
    let mut i: usize = 0;
    while i < v.len()
        invariant
            i <= v.len(),
            r@.len() == i,
            forall|j: int|
                0 <= j < i ==> view_val(#[trigger] r@[j].0) == view_val(v@[j].0) && view_val(
                    r@[j].1,
                ) == view_val(v@[j].1),
        decreases v.len() - i,
    {
        proof {
            assert(decreases_to!(v => v@[i as int]));
            assert(decreases_to!(v@[i as int] => v@[i as int].0));
            assert(decreases_to!(v@[i as int] => v@[i as int].1));
        }
        let k = v[i].0.clone();
        let x = v[i].1.clone();
        r.push((k, x));
        i = i + 1;
    }
    assert(view_entries(r@) =~= view_entries(v@));
    r
}

/// The view of a sequence of runtime values.
pub open spec fn vals(s: Seq<StahlVal>) -> Seq<SVal> {
    view_seq(s)
}

/// Each element of the view of a sequence is the view of the element.
pub broadcast proof fn lemma_vals_index(s: Seq<StahlVal>, i: int)
    requires
        0 <= i < s.len(),
    ensures
        #[trigger] view_seq(s)[i] == view_val(s[i]),
{
}

pub broadcast proof fn lemma_vals_len(s: Seq<StahlVal>)
    ensures
        #[trigger] view_seq(s).len() == s.len(),
{
}

pub broadcast proof fn lemma_entries_index(s: Seq<(StahlVal, StahlVal)>, i: int)
    requires
        0 <= i < s.len(),
    ensures
        #[trigger] view_entries(s)[i] == SVal::Pair(Box::new(view_val(s[i].0)), Box::new(view_val(s[i].1))),
{
}

pub broadcast proof fn lemma_entries_len(s: Seq<(StahlVal, StahlVal)>)
    ensures
        #[trigger] view_entries(s).len() == s.len(),
{
}

pub broadcast group group_vals {
    lemma_vals_index,
    lemma_vals_len,
    lemma_entries_index,
    lemma_entries_len,
}

pub proof fn lemma_vals_push(a: Seq<StahlVal>, x: StahlVal)
    ensures
        vals(a.push(x)) == vals(a).push(x@),
{
    assert(vals(a.push(x)) =~= vals(a).push(x@));
}

pub proof fn lemma_vals_add(a: Seq<StahlVal>, b: Seq<StahlVal>)
    ensures
        vals(a + b) == vals(a) + vals(b),
{
    assert(vals(a + b) =~= vals(a) + vals(b));
}

pub proof fn lemma_vals_update(a: Seq<StahlVal>, i: int, x: StahlVal)
    requires
        0 <= i < a.len(),
    ensures
        vals(a.update(i, x)) == vals(a).update(i, x@),
{
    assert(vals(a.update(i, x)) =~= vals(a).update(i, x@));
}

/// Copies the values at positions `start .. end` of `v`.
pub fn copy_range(v: &Vec<StahlVal>, start: usize, end: usize) -> (r: Vec<StahlVal>)
    requires
        start <= end <= v.len(),
    ensures
        vals(r@) == vals(v@).subrange(start as int, end as int),
{
    let mut r: Vec<StahlVal> = Vec::new();
    let mut i: usize = start;
    while i < end
        invariant
            start <= i <= end,
            end <= v.len(),
            vals(r@) == vals(v@).subrange(start as int, i as int),
        decreases end - i,
    {
        let c = v[i].clone();
        proof {
            lemma_vals_push(r@, c);
        }
        r.push(c);
        i = i + 1;
        assert(vals(r@) =~= vals(v@).subrange(start as int, i as int));
    }
    r
}

/// Appends copies of the values of `v` to `r`.
pub fn extend_vals(r: &mut Vec<StahlVal>, v: &Vec<StahlVal>)
    ensures
        vals(final(r)@) == vals(old(r)@) + vals(v@),
{
    let ghost r0 = r@;
    let mut i: usize = 0;
    while i < v.len()
        invariant
            i <= v.len(),
            vals(r@) == vals(r0) + vals(v@).subrange(0, i as int),
        decreases v.len() - i,
    {
        let c = v[i].clone();
        proof {
            lemma_vals_push(r@, c);
        }
        r.push(c);
        i = i + 1;
        assert(vals(r@) =~= vals(r0) + vals(v@).subrange(0, i as int));
    }
    assert(vals(v@).subrange(0, v@.len() as int) =~= vals(v@));
}

} // verus!
