//! Conversions between runtime values and Rust values.
use vstd::prelude::*;

use crate::errors::{fail, outcome};
use crate::values::{vals, ErrorKind, SVal, StahlErr, StahlVal};

verus! {

broadcast use crate::values::group_vals;

/// Whether a value counts as true: every value but `#false` does.
pub open spec fn truthy(v: SVal) -> bool {
    v != SVal::Bool(false)
}

/// A Rust value that can be read out of a runtime value.
pub trait FromStahlVal: Sized {
    /// What a Rust value of this type stands for.
    type Model;

    spec fn model(&self) -> Self::Model;

    /// The Rust value that a runtime value converts to, or the kind of the error.
    spec fn decode(v: SVal) -> Result<Self::Model, ErrorKind>;

    fn from_stahlval(val: &StahlVal) -> (r: Result<Self, StahlErr>)
        ensures
            match r {
                Ok(x) => Self::decode(val@) == Ok::<Self::Model, ErrorKind>(x.model()),
                Err(e) => Self::decode(val@) == Err::<Self::Model, ErrorKind>(e.kind),
            },
    ;
}

/// A Rust value that can be turned into a runtime value.
pub trait IntoStahlVal: Sized {
    /// The runtime value this converts to, or the kind of the error.
    spec fn encode(&self) -> Result<SVal, ErrorKind>;

    fn into_stahlval(self) -> (r: Result<StahlVal, StahlErr>)
        ensures
            outcome(r) == self.encode(),
    ;
}

impl FromStahlVal for StahlVal {
    type Model = SVal;

    open spec fn model(&self) -> SVal {
        self@
    }

    open spec fn decode(v: SVal) -> Result<SVal, ErrorKind> {
        Ok(v)
    }

    fn from_stahlval(val: &StahlVal) -> (r: Result<Self, StahlErr>) {
        Ok(val.clone())
    }
}

impl IntoStahlVal for StahlVal {
    open spec fn encode(&self) -> Result<SVal, ErrorKind> {
        Ok(self@)
    }

    fn into_stahlval(self) -> (r: Result<StahlVal, StahlErr>) {
        Ok(self)
    }
}

impl FromStahlVal for char {
    type Model = char;

    open spec fn model(&self) -> char {
        *self
    }

    open spec fn decode(v: SVal) -> Result<char, ErrorKind> {
        match v {
            SVal::Char(c) => Ok(c),
            _ => Err(ErrorKind::ConversionError),
        }
    }

    fn from_stahlval(val: &StahlVal) -> (r: Result<Self, StahlErr>) {
        match val {
            StahlVal::CharV(c) => Ok(*c),
            _ => Err(StahlErr::new(ErrorKind::ConversionError, String::from_str("Expected character"))),
        }
    }
}

/// The character `c` as a value.
fn char_value(c: char) -> (v: StahlVal)
    ensures
        v@ == SVal::Char(c),
{
    StahlVal::CharV(c)
}

impl IntoStahlVal for char {
    open spec fn encode(&self) -> Result<SVal, ErrorKind> {
        Ok(SVal::Char(*self))
    }

    fn into_stahlval(self) -> (r: Result<StahlVal, StahlErr>) {
        Ok(char_value(self))
    }
}

impl FromStahlVal for bool {
    type Model = bool;

    open spec fn model(&self) -> bool {
        *self
    }

    open spec fn decode(v: SVal) -> Result<bool, ErrorKind> {
        match v {
            SVal::Bool(b) => Ok(b),
            _ => Err(ErrorKind::ConversionError),
        }
    }

    fn from_stahlval(val: &StahlVal) -> (r: Result<Self, StahlErr>) {
        match val {
            StahlVal::BoolV(b) => Ok(*b),
            _ => Err(StahlErr::new(ErrorKind::ConversionError, String::from_str("Cannot convert stahl value to boolean"))),
        }
    }
}

impl IntoStahlVal for bool {
    open spec fn encode(&self) -> Result<SVal, ErrorKind> {
        Ok(SVal::Bool(*self))
    }

    fn into_stahlval(self) -> (r: Result<StahlVal, StahlErr>) {
        Ok(StahlVal::BoolV(self))
    }
}

impl FromStahlVal for () {
    type Model = ();

    open spec fn model(&self) -> () {
        ()
    }

    open spec fn decode(v: SVal) -> Result<(), ErrorKind> {
        match v {
            SVal::Void => Ok(()),
            _ => Err(ErrorKind::ConversionError),
        }
    }

    fn from_stahlval(val: &StahlVal) -> (r: Result<Self, StahlErr>) {
        match val {
            StahlVal::Void => Ok(()),
            _ => Err(StahlErr::new(ErrorKind::ConversionError, String::from_str("could not convert value to unit type"))),
        }
    }
}

impl IntoStahlVal for () {
    open spec fn encode(&self) -> Result<SVal, ErrorKind> {
        Ok(SVal::Void)
    }

    fn into_stahlval(self) -> (r: Result<StahlVal, StahlErr>) {
        Ok(StahlVal::Void)
    }
}

impl FromStahlVal for String {
    type Model = Seq<char>;

    open spec fn model(&self) -> Seq<char> {
        self@
    }

    /// Strings and symbols both convert to their text.
    open spec fn decode(v: SVal) -> Result<Seq<char>, ErrorKind> {
        match v {
            SVal::Str(s) => Ok(s),
            SVal::Sym(s) => Ok(s),
            _ => Err(ErrorKind::ConversionError),
        }
    }

    fn from_stahlval(val: &StahlVal) -> (r: Result<Self, StahlErr>) {
        match val {
            StahlVal::StringV(s) => Ok(s.clone()),
            StahlVal::SymbolV(s) => Ok(s.clone()),
            _ => Err(StahlErr::new(ErrorKind::ConversionError, String::from_str("Expected string"))),
        }
    }
}

impl IntoStahlVal for String {
    open spec fn encode(&self) -> Result<SVal, ErrorKind> {
        Ok(SVal::Str(self@))
    }

    fn into_stahlval(self) -> (r: Result<StahlVal, StahlErr>) {
        Ok(StahlVal::StringV(self))
    }
}

impl<'a> IntoStahlVal for &'a str {
    open spec fn encode(&self) -> Result<SVal, ErrorKind> {
        Ok(SVal::Str((*self)@))
    }

    fn into_stahlval(self) -> (r: Result<StahlVal, StahlErr>) {
        Ok(StahlVal::StringV(String::from_str(self)))
    }
}

impl FromStahlVal for u8 {
    type Model = int;

    open spec fn model(&self) -> int {
        *self as int
    }

    /// Integers from 0 to 255.
    open spec fn decode(v: SVal) -> Result<int, ErrorKind> {
        match v {
            SVal::Int(i) => if 0 <= i <= 255 {
                Ok(i)
            } else {
                Err(ErrorKind::ConversionError)
            },
            _ => Err(ErrorKind::ConversionError),
        }
    }

    fn from_stahlval(val: &StahlVal) -> (r: Result<Self, StahlErr>) {
        match val {
            StahlVal::IntV(v) => {
                if 0 <= *v && *v <= 255 {
                    Ok(*v as u8)
                } else {
                    Err(StahlErr::new(ErrorKind::ConversionError, String::from_str("Unable to convert isize to u8")))
                }
            },
            _ => Err(StahlErr::new(ErrorKind::ConversionError, String::from_str("Unable to convert stahlval to u8"))),
        }
    }
}

impl FromStahlVal for i64 {
    type Model = int;

    open spec fn model(&self) -> int {
        *self as int
    }

    open spec fn decode(v: SVal) -> Result<int, ErrorKind> {
        match v {
            SVal::Int(i) => Ok(i),
            _ => Err(ErrorKind::ConversionError),
        }
    }

    fn from_stahlval(val: &StahlVal) -> (r: Result<Self, StahlErr>) {
        match val {
            StahlVal::IntV(v) => Ok(*v as i64),
            _ => Err(StahlErr::new(ErrorKind::ConversionError, String::from_str("Unable to convert stahlval to isize"))),
        }
    }
}

impl FromStahlVal for isize {
    type Model = int;

    open spec fn model(&self) -> int {
        *self as int
    }

    open spec fn decode(v: SVal) -> Result<int, ErrorKind> {
        match v {
            SVal::Int(i) => Ok(i),
            _ => Err(ErrorKind::ConversionError),
        }
    }

    fn from_stahlval(val: &StahlVal) -> (r: Result<Self, StahlErr>) {
        match val {
            StahlVal::IntV(v) => Ok(*v),
            _ => Err(StahlErr::new(ErrorKind::ConversionError, String::from_str("Expected number"))),
        }
    }
}

impl FromStahlVal for i32 {
    type Model = int;

    open spec fn model(&self) -> int {
        *self as int
    }

    /// An integer, cut to 32 bits as `as` does.
    open spec fn decode(v: SVal) -> Result<int, ErrorKind> {
        match v {
            SVal::Int(i) => Ok((i as isize) as i32 as int),
            _ => Err(ErrorKind::ConversionError),
        }
    }

    fn from_stahlval(val: &StahlVal) -> (r: Result<Self, StahlErr>) {
        match val {
            StahlVal::IntV(v) => Ok(*v as i32),
            _ => Err(StahlErr::new(ErrorKind::ConversionError, String::from_str("Expected number"))),
        }
    }
}

impl FromStahlVal for i16 {
    type Model = int;

    open spec fn model(&self) -> int {
        *self as int
    }

    /// An integer, cut to 16 bits as `as` does.
    open spec fn decode(v: SVal) -> Result<int, ErrorKind> {
        match v {
            SVal::Int(i) => Ok((i as isize) as i16 as int),
            _ => Err(ErrorKind::ConversionError),
        }
    }

    fn from_stahlval(val: &StahlVal) -> (r: Result<Self, StahlErr>) {
        match val {
            StahlVal::IntV(v) => Ok(*v as i16),
            _ => Err(StahlErr::new(ErrorKind::ConversionError, String::from_str("Expected number"))),
        }
    }
}

impl FromStahlVal for i8 {
    type Model = int;

    open spec fn model(&self) -> int {
        *self as int
    }

    /// An integer, cut to 8 bits as `as` does.
    open spec fn decode(v: SVal) -> Result<int, ErrorKind> {
        match v {
            SVal::Int(i) => Ok((i as isize) as i8 as int),
            _ => Err(ErrorKind::ConversionError),
        }
    }

    fn from_stahlval(val: &StahlVal) -> (r: Result<Self, StahlErr>) {
        match val {
            StahlVal::IntV(v) => Ok(*v as i8),
            _ => Err(StahlErr::new(ErrorKind::ConversionError, String::from_str("Expected number"))),
        }
    }
}

impl FromStahlVal for u16 {
    type Model = int;

    open spec fn model(&self) -> int {
        *self as int
    }

    /// An integer, cut to 16 unsigned bits as `as` does.
    open spec fn decode(v: SVal) -> Result<int, ErrorKind> {
        match v {
            SVal::Int(i) => Ok((i as isize) as u16 as int),
            _ => Err(ErrorKind::ConversionError),
        }
    }

    fn from_stahlval(val: &StahlVal) -> (r: Result<Self, StahlErr>) {
        match val {
            StahlVal::IntV(v) => Ok(*v as u16),
            _ => Err(StahlErr::new(ErrorKind::ConversionError, String::from_str("Expected number"))),
        }
    }
}

impl FromStahlVal for u32 {
    type Model = int;

    open spec fn model(&self) -> int {
        *self as int
    }

    /// An integer, cut to 32 unsigned bits as `as` does.
    open spec fn decode(v: SVal) -> Result<int, ErrorKind> {
        match v {
            SVal::Int(i) => Ok((i as isize) as u32 as int),
            _ => Err(ErrorKind::ConversionError),
        }
    }

    fn from_stahlval(val: &StahlVal) -> (r: Result<Self, StahlErr>) {
        match val {
            StahlVal::IntV(v) => Ok(*v as u32),
            _ => Err(StahlErr::new(ErrorKind::ConversionError, String::from_str("Expected number"))),
        }
    }
}

impl FromStahlVal for u64 {
    type Model = int;

    open spec fn model(&self) -> int {
        *self as int
    }

    /// An integer, read as 64 unsigned bits as `as` does.
    open spec fn decode(v: SVal) -> Result<int, ErrorKind> {
        match v {
            SVal::Int(i) => Ok((i as isize) as u64 as int),
            _ => Err(ErrorKind::ConversionError),
        }
    }

    fn from_stahlval(val: &StahlVal) -> (r: Result<Self, StahlErr>) {
        match val {
            StahlVal::IntV(v) => Ok(*v as u64),
            _ => Err(StahlErr::new(ErrorKind::ConversionError, String::from_str("Expected number"))),
        }
    }
}

impl FromStahlVal for usize {
    type Model = int;

    open spec fn model(&self) -> int {
        *self as int
    }

    /// An integer, read as an unsigned machine word as `as` does.
    open spec fn decode(v: SVal) -> Result<int, ErrorKind> {
        match v {
            SVal::Int(i) => Ok((i as isize) as usize as int),
            _ => Err(ErrorKind::ConversionError),
        }
    }

    fn from_stahlval(val: &StahlVal) -> (r: Result<Self, StahlErr>) {
        match val {
            StahlVal::IntV(v) => Ok(*v as usize),
            _ => Err(StahlErr::new(ErrorKind::ConversionError, String::from_str("Expected number"))),
        }
    }
}

impl IntoStahlVal for i32 {
    open spec fn encode(&self) -> Result<SVal, ErrorKind> {
        Ok(SVal::Int(*self as int))
    }

    fn into_stahlval(self) -> (r: Result<StahlVal, StahlErr>) {
        Ok(StahlVal::IntV(self as isize))
    }
}

impl IntoStahlVal for i16 {
    open spec fn encode(&self) -> Result<SVal, ErrorKind> {
        Ok(SVal::Int(*self as int))
    }

    fn into_stahlval(self) -> (r: Result<StahlVal, StahlErr>) {
        Ok(StahlVal::IntV(self as isize))
    }
}

impl IntoStahlVal for i8 {
    open spec fn encode(&self) -> Result<SVal, ErrorKind> {
        Ok(SVal::Int(*self as int))
    }

    fn into_stahlval(self) -> (r: Result<StahlVal, StahlErr>) {
        Ok(StahlVal::IntV(self as isize))
    }
}

impl IntoStahlVal for u8 {
    open spec fn encode(&self) -> Result<SVal, ErrorKind> {
        Ok(SVal::Int(*self as int))
    }

    fn into_stahlval(self) -> (r: Result<StahlVal, StahlErr>) {
        Ok(StahlVal::IntV(self as isize))
    }
}

impl IntoStahlVal for u16 {
    open spec fn encode(&self) -> Result<SVal, ErrorKind> {
        Ok(SVal::Int(*self as int))
    }

    fn into_stahlval(self) -> (r: Result<StahlVal, StahlErr>) {
        Ok(StahlVal::IntV(self as isize))
    }
}

impl IntoStahlVal for u32 {
    /// The integer, as a machine word: values past the signed range wrap as `as` does.
    open spec fn encode(&self) -> Result<SVal, ErrorKind> {
        Ok(SVal::Int((*self as isize) as int))
    }

    fn into_stahlval(self) -> (r: Result<StahlVal, StahlErr>) {
        Ok(StahlVal::IntV(self as isize))
    }
}

impl IntoStahlVal for u64 {
    /// The integer, as a machine word: values past the signed range wrap as `as` does.
    open spec fn encode(&self) -> Result<SVal, ErrorKind> {
        Ok(SVal::Int((*self as isize) as int))
    }

    fn into_stahlval(self) -> (r: Result<StahlVal, StahlErr>) {
        Ok(StahlVal::IntV(self as isize))
    }
}

impl IntoStahlVal for isize {
    open spec fn encode(&self) -> Result<SVal, ErrorKind> {
        Ok(SVal::Int(*self as int))
    }

    fn into_stahlval(self) -> (r: Result<StahlVal, StahlErr>) {
        Ok(StahlVal::IntV(self))
    }
}

impl<T: IntoStahlVal> IntoStahlVal for Option<T> {
    /// A value converts as itself; no value converts to `#false`.
    open spec fn encode(&self) -> Result<SVal, ErrorKind> {
        match self {
            Some(x) => x.encode(),
            None => Ok(SVal::Bool(false)),
        }
    }

    fn into_stahlval(self) -> (r: Result<StahlVal, StahlErr>) {
        match self {
            Some(x) => x.into_stahlval(),
            None => Ok(StahlVal::BoolV(false)),
        }
    }
}

impl<T: FromStahlVal> FromStahlVal for Option<T> {
    type Model = Option<T::Model>;

    open spec fn model(&self) -> Option<T::Model> {
        match self {
            Some(x) => Some(x.model()),
            None => None,
        }
    }

    /// `#false` converts to no value; any other value converts as the inner type does.
    open spec fn decode(v: SVal) -> Result<Option<T::Model>, ErrorKind> {
        if truthy(v) {
            match T::decode(v) {
                Ok(m) => Ok(Some(m)),
                Err(k) => Err(k),
            }
        } else {
            Ok(None)
        }
    }

    fn from_stahlval(val: &StahlVal) -> (r: Result<Self, StahlErr>) {
        let falsy = match val {
            StahlVal::BoolV(b) => !*b,
            _ => false,
        };
        if falsy {
            Ok(None)
        } else {
            match T::from_stahlval(val) {
                Ok(x) => Ok(Some(x)),
                Err(e) => Err(e),
            }
        }
    }
}

/// Whether every element converts.
pub open spec fn all_encode<T: IntoStahlVal>(xs: Seq<T>) -> bool {
    forall|i: int| 0 <= i < xs.len() ==> (#[trigger] xs[i].encode()) is Ok
}

/// The list of the converted elements; a conversion error if one fails.
pub open spec fn vec_encode<T: IntoStahlVal>(xs: Seq<T>) -> Result<SVal, ErrorKind> {
    if all_encode(xs) {
        Ok(SVal::List(Seq::new(xs.len(), |i: int| xs[i].encode()->Ok_0)))
    } else {
        Err(ErrorKind::ConversionError)
    }
}

fn vec_into_stahlval<T: IntoStahlVal>(items: Vec<T>) -> (r: Result<StahlVal, StahlErr>)
    ensures
        outcome(r) == vec_encode(items@),
{
    let ghost xs = items@;
    let mut pending = items;
    let n = pending.len();
    let mut rev: Vec<T> = Vec::new();
    while pending.len() > 0
        invariant
            pending@.len() + rev@.len() == n,
            n == xs.len(),
            xs == items@,
            pending@ == xs.take(pending@.len() as int),
            forall|j: int| 0 <= j < rev@.len() ==> #[trigger] rev@[j] == xs[n - 1 - j],
        decreases pending@.len(),
    {
        let x = pending.pop().unwrap();
        rev.push(x);
    }
    let mut out: Vec<StahlVal> = Vec::new();
    let mut i: usize = 0;
    while rev.len() > 0
        invariant
            rev@.len() + i == n,
            n == xs.len(),
            xs == items@,
            forall|j: int| 0 <= j < rev@.len() ==> #[trigger] rev@[j] == xs[n - 1 - j],
            forall|j: int| 0 <= j < i ==> (#[trigger] xs[j].encode()) is Ok,
            out@.len() == i,
            forall|j: int| 0 <= j < i ==> Ok::<SVal, ErrorKind>(#[trigger] vals(out@)[j]) == xs[j].encode(),
        decreases rev@.len(),
    {
        let x = rev.pop().unwrap();
        assert(x == xs[i as int]);
        match x.into_stahlval() {
            Ok(converted) => {
                let ghost before = out@;
                proof {
                    crate::values::lemma_vals_push(out@, converted);
                }
                out.push(converted);
                assert forall|j: int| 0 <= j < i + 1 implies Ok::<SVal, ErrorKind>(#[trigger] vals(out@)[j]) == xs[j].encode() by {
                    if j < i {
                        assert(vals(out@)[j] == vals(before)[j]);
                    }
                }
            },
            Err(_) => {
                assert((xs[i as int].encode()) is Err);
                assert(!all_encode(xs));
                return fail(ErrorKind::ConversionError, "Could not convert vector of values to StahlVal list");
            },
        }
        i = i + 1;
    }
    assert(vals(out@) =~= Seq::new(xs.len(), |j: int| xs[j].encode()->Ok_0));
    assert(all_encode(xs));
    Ok(StahlVal::ListV(out))
}

impl<T: IntoStahlVal> IntoStahlVal for Vec<T> {
    open spec fn encode(&self) -> Result<SVal, ErrorKind> {
        vec_encode(self@)
    }

    fn into_stahlval(self) -> (r: Result<StahlVal, StahlErr>) {
        vec_into_stahlval(self)
    }
}

/// Whether every element converts to the element type.
pub open spec fn all_decode<T: FromStahlVal>(items: Seq<SVal>) -> bool {
    forall|i: int| 0 <= i < items.len() ==> (#[trigger] T::decode(items[i])) is Ok
}

impl<T: FromStahlVal> FromStahlVal for Vec<T> {
    type Model = Seq<T::Model>;

    open spec fn model(&self) -> Seq<T::Model> {
        Seq::new(self@.len(), |i: int| self@[i].model())
    }

    /// The converted elements of a list or an immutable vector; a conversion error for any
    /// other value, or when an element fails.
    open spec fn decode(v: SVal) -> Result<Seq<T::Model>, ErrorKind> {
        match v {
            SVal::List(items) | SVal::Vector(items) => if all_decode::<T>(items) {
                Ok(Seq::new(items.len(), |i: int| T::decode(items[i])->Ok_0))
            } else {
                Err(ErrorKind::ConversionError)
            },
            _ => Err(ErrorKind::ConversionError),
        }
    }

    fn from_stahlval(val: &StahlVal) -> (r: Result<Self, StahlErr>) {
        let items = match val {
            StahlVal::ListV(l) => l,
            StahlVal::VectorV(v) => v,
            _ => {
                return Err(StahlErr::new(ErrorKind::ConversionError, String::from_str("Could not convert StahlVal list to Vector of values")));
            },
        };
        let ghost a = vals(items@);
        assert(val@ == SVal::List(a) || val@ == SVal::Vector(a));
        let mut out: Vec<T> = Vec::new();
        let mut i: usize = 0;
        while i < items.len()
            invariant
                i <= items.len(),
                a == vals(items@),
                val@ == SVal::List(a) || val@ == SVal::Vector(a),
                out@.len() == i,
                forall|j: int| 0 <= j < i ==> (#[trigger] T::decode(a[j])) is Ok,
                forall|j: int| 0 <= j < i ==> Ok::<T::Model, ErrorKind>(#[trigger] out@[j].model()) == T::decode(a[j]),
            decreases items.len() - i,
        {
            match T::from_stahlval(&items[i]) {
                Ok(x) => {
                    assert(a[i as int] == items@[i as int]@);
                    out.push(x);
                },
                Err(_) => {
                    assert(a[i as int] == items@[i as int]@);
                    assert((T::decode(a[i as int])) is Err);
                    assert(!all_decode::<T>(a));
                    return Err(StahlErr::new(ErrorKind::ConversionError, String::from_str("Could not convert StahlVal list to Vector of values")));
                },
            }
            i = i + 1;
        }
        assert(Seq::new(out@.len(), |j: int| out@[j].model()) =~= Seq::new(a.len(), |j: int| T::decode(a[j])->Ok_0));
        Ok(out)
    }
}

/// `Vec::into_boxed_slice`: the same elements as a boxed slice.
#[verifier::external_body]
fn boxed_slice<T>(v: Vec<T>) -> (b: Box<[T]>)
    ensures
        b@ == v@,
{
    v.into_boxed_slice()
}

impl<T: FromStahlVal> FromStahlVal for Box<[T]> {
    type Model = Seq<T::Model>;

    open spec fn model(&self) -> Seq<T::Model> {
        Seq::new((**self)@.len(), |i: int| (**self)@[i].model())
    }

    /// As for a `Vec` of the element type.
    open spec fn decode(v: SVal) -> Result<Seq<T::Model>, ErrorKind> {
        <Vec<T> as FromStahlVal>::decode(v)
    }

    fn from_stahlval(val: &StahlVal) -> (r: Result<Self, StahlErr>) {
        match <Vec<T> as FromStahlVal>::from_stahlval(val) {
            Ok(items) => {
                let b = boxed_slice(items);
                assert(b.model() =~= items.model());
                Ok(b)
            },
            Err(e) => Err(e),
        }
    }
}

impl<A: IntoStahlVal, B: IntoStahlVal> IntoStahlVal for (A, B) {
    /// The list of the two converted components; the first failure otherwise.
    open spec fn encode(&self) -> Result<SVal, ErrorKind> {
        match (self.0.encode(), self.1.encode()) {
            (Ok(x), Ok(y)) => Ok(SVal::List(seq![x, y])),
            (Err(k), _) => Err(k),
            (_, Err(k)) => Err(k),
        }
    }

    fn into_stahlval(self) -> (r: Result<StahlVal, StahlErr>) {
        let (a, b) = self;
        let x = match a.into_stahlval() {
            Ok(x) => x,
            Err(e) => {
                return Err(e);
            },
        };
        let y = match b.into_stahlval() {
            Ok(y) => y,
            Err(e) => {
                return Err(e);
            },
        };
        let mut items: Vec<StahlVal> = Vec::new();
        items.push(x);
        items.push(y);
        assert(vals(items@) =~= seq![x@, y@]);
        Ok(StahlVal::ListV(items))
    }
}

impl<A: FromStahlVal, B: FromStahlVal> FromStahlVal for (A, B) {
    type Model = (A::Model, B::Model);

    open spec fn model(&self) -> (A::Model, B::Model) {
        (self.0.model(), self.1.model())
    }

    /// A list of exactly two elements, converted in turn; a conversion error for any other
    /// value.
    open spec fn decode(v: SVal) -> Result<(A::Model, B::Model), ErrorKind> {
        match v {
            SVal::List(items) => if items.len() != 2 {
                Err(ErrorKind::ConversionError)
            } else {
                match (A::decode(items[0]), B::decode(items[1])) {
                    (Ok(x), Ok(y)) => Ok((x, y)),
                    (Err(k), _) => Err(k),
                    (_, Err(k)) => Err(k),
                }
            },
            _ => Err(ErrorKind::ConversionError),
        }
    }

    fn from_stahlval(val: &StahlVal) -> (r: Result<Self, StahlErr>) {
        match val {
            StahlVal::ListV(l) => {
                assert(vals(l@).len() == l@.len());
                if l.len() != 2 {
                    return Err(StahlErr::new(ErrorKind::ConversionError, String::from_str("Could not convert stahlval to (A, B): list was not length of 2")));
                }
                let a = match A::from_stahlval(&l[0]) {
                    Ok(a) => a,
                    Err(e) => {
                        return Err(e);
                    },
                };
                let b = match B::from_stahlval(&l[1]) {
                    Ok(b) => b,
                    Err(e) => {
                        return Err(e);
                    },
                };
                Ok((a, b))
            },
            _ => Err(StahlErr::new(ErrorKind::ConversionError, String::from_str("Could not convert StahlVal to (A, B)"))),
        }
    }
}

} // verus!

verus! {

impl From<char> for StahlVal {
    fn from(val: char) -> (r: StahlVal) {
        StahlVal::CharV(val)
    }
}

impl vstd::std_specs::convert::FromSpecImpl<char> for StahlVal {
    open spec fn obeys_from_spec() -> bool {
        true
    }

    open spec fn from_spec(val: char) -> StahlVal {
        StahlVal::CharV(val)
    }
}

impl From<bool> for StahlVal {
    fn from(val: bool) -> (r: StahlVal) {
        StahlVal::BoolV(val)
    }
}

impl vstd::std_specs::convert::FromSpecImpl<bool> for StahlVal {
    open spec fn obeys_from_spec() -> bool {
        true
    }

    open spec fn from_spec(val: bool) -> StahlVal {
        StahlVal::BoolV(val)
    }
}

impl From<String> for StahlVal {
    fn from(val: String) -> (r: StahlVal) {
        StahlVal::StringV(val)
    }
}

impl vstd::std_specs::convert::FromSpecImpl<String> for StahlVal {
    open spec fn obeys_from_spec() -> bool {
        true
    }

    open spec fn from_spec(val: String) -> StahlVal {
        StahlVal::StringV(val)
    }
}

impl From<()> for StahlVal {
    fn from(val: ()) -> (r: StahlVal) {
        StahlVal::Void
    }
}

impl vstd::std_specs::convert::FromSpecImpl<()> for StahlVal {
    open spec fn obeys_from_spec() -> bool {
        true
    }

    open spec fn from_spec(val: ()) -> StahlVal {
        StahlVal::Void
    }
}

impl TryFrom<StahlVal> for String {
    type Error = StahlErr;

    /// The text of a string or a symbol.
    fn try_from(value: StahlVal) -> (r: Result<String, StahlErr>)
        ensures
            match value@ {
                SVal::Str(s) | SVal::Sym(s) => r matches Ok(t) && t@ == s,
                _ => r matches Err(e) && e.kind == ErrorKind::ConversionError,
            },
    {
        match value {
            StahlVal::StringV(x) => Ok(x),
            StahlVal::SymbolV(x) => Ok(x),
            _ => Err(StahlErr::new(ErrorKind::ConversionError, String::from_str("Expected string"))),
        }
    }
}

impl<'a> TryFrom<&'a StahlVal> for String {
    type Error = StahlErr;

    /// The text of a string or a symbol.
    fn try_from(value: &'a StahlVal) -> (r: Result<String, StahlErr>)
        ensures
            match value@ {
                SVal::Str(s) | SVal::Sym(s) => r matches Ok(t) && t@ == s,
                _ => r matches Err(e) && e.kind == ErrorKind::ConversionError,
            },
    {
        match value {
            StahlVal::StringV(x) => Ok(x.clone()),
            StahlVal::SymbolV(x) => Ok(x.clone()),
            _ => Err(StahlErr::new(ErrorKind::ConversionError, String::from_str("Expected string"))),
        }
    }
}


impl vstd::std_specs::convert::TryFromSpecImpl<StahlVal> for String {
    /// The contract of `try_from` itself states what it gives.
    open spec fn obeys_try_from_spec() -> bool {
        false
    }

    open spec fn try_from_spec(value: StahlVal) -> Result<String, StahlErr> {
        arbitrary()
    }
}

impl<'a> vstd::std_specs::convert::TryFromSpecImpl<&'a StahlVal> for String {
    /// The contract of `try_from` itself states what it gives.
    open spec fn obeys_try_from_spec() -> bool {
        false
    }

    open spec fn try_from_spec(value: &'a StahlVal) -> Result<String, StahlErr> {
        arbitrary()
    }
}

} // verus!
