//! Borrowing the payload of a runtime value as a Rust value of the right kind.
use vstd::prelude::*;

use crate::printer::display_text;
use crate::values::{ErrorKind, SVal, StahlErr, StahlHashMap, StahlHashSet, StahlVal};

verus! {

/// A Rust value that can be borrowed out of a runtime value of one kind.
pub trait PrimitiveAsRef<'a>: Sized {
    /// Whether a runtime value holds a payload of this type.
    spec fn holds(v: SVal) -> bool;

    /// The runtime value a payload was borrowed from.
    spec fn as_value(&self) -> SVal;

    /// The kind of the error for a value that holds no such payload.
    spec fn refusal() -> ErrorKind;

    fn primitive_as_ref(val: &'a StahlVal) -> (r: Result<Self, StahlErr>)
        ensures
            r is Ok <==> Self::holds(val@),
            r matches Ok(x) ==> x.as_value() == val@,
            r matches Err(e) ==> e.kind == Self::refusal(),
    ;

    fn maybe_primitive_as_ref(val: &'a StahlVal) -> (r: Option<Self>)
        ensures
            r is Some <==> Self::holds(val@),
            r matches Some(x) ==> x.as_value() == val@,
    ;
}

/// The error for a value that cannot be borrowed: `prefix`, the value printed, then `suffix`.
fn refused(kind: ErrorKind, prefix: &str, val: &StahlVal, suffix: &str) -> (e: StahlErr)
    ensures
        e.kind == kind,
{
    let mut message = String::from_str(prefix);
    let text = display_text(val);
    message.append(text.as_str());
    message.append(suffix);
    StahlErr::new(kind, message)
}

/// One of two kinds of payload: the first that the value holds.
pub enum Either<L, R> {
    Left(L),
    Right(R),
}

impl<'a, L: PrimitiveAsRef<'a>, R: PrimitiveAsRef<'a>> PrimitiveAsRef<'a> for Either<L, R> {
    open spec fn holds(v: SVal) -> bool {
        L::holds(v) || R::holds(v)
    }

    open spec fn as_value(&self) -> SVal {
        match self {
            Either::Left(l) => l.as_value(),
            Either::Right(r) => r.as_value(),
        }
    }

    open spec fn refusal() -> ErrorKind {
        ErrorKind::ConversionError
    }

    fn primitive_as_ref(val: &'a StahlVal) -> (r: Result<Self, StahlErr>) {
        match Self::maybe_primitive_as_ref(val) {
            Some(x) => Ok(x),
            None => Err(
                refused(
                    ErrorKind::ConversionError,
                    "Cannot convert stahl value to the specified type: ",
                    val,
                    "",
                ),
            ),
        }
    }

    fn maybe_primitive_as_ref(val: &'a StahlVal) -> (r: Option<Self>)
        ensures
            r matches Some(Either::Left(_)) <==> L::holds(val@),
    {
        match L::maybe_primitive_as_ref(val) {
            Some(l) => Some(Either::Left(l)),
            None => match R::maybe_primitive_as_ref(val) {
                Some(r) => Some(Either::Right(r)),
                None => None,
            },
        }
    }
}

impl<'a> PrimitiveAsRef<'a> for &'a StahlVal {
    open spec fn holds(v: SVal) -> bool {
        true
    }

    open spec fn as_value(&self) -> SVal {
        (**self)@
    }

    open spec fn refusal() -> ErrorKind {
        ErrorKind::ConversionError
    }

    fn primitive_as_ref(val: &'a StahlVal) -> (r: Result<Self, StahlErr>) {
        Ok(val)
    }

    fn maybe_primitive_as_ref(val: &'a StahlVal) -> (r: Option<Self>) {
        Some(val)
    }
}

impl<'a> PrimitiveAsRef<'a> for char {
    open spec fn holds(v: SVal) -> bool {
        v is Char
    }

    open spec fn as_value(&self) -> SVal {
        SVal::Char(*self)
    }

    open spec fn refusal() -> ErrorKind {
        ErrorKind::ConversionError
    }

    fn primitive_as_ref(val: &'a StahlVal) -> (r: Result<Self, StahlErr>) {
        if let StahlVal::CharV(c) = val {
            Ok(*c)
        } else {
            Err(refused(ErrorKind::ConversionError, "Cannot convert stahl value: ", val, " to stahl character"))
        }
    }

    fn maybe_primitive_as_ref(val: &'a StahlVal) -> (r: Option<Self>) {
        if let StahlVal::CharV(c) = val {
            Some(*c)
        } else {
            None
        }
    }
}

impl<'a> PrimitiveAsRef<'a> for &'a char {
    open spec fn holds(v: SVal) -> bool {
        v is Char
    }

    open spec fn as_value(&self) -> SVal {
        SVal::Char(**self)
    }

    open spec fn refusal() -> ErrorKind {
        ErrorKind::ConversionError
    }

    fn primitive_as_ref(val: &'a StahlVal) -> (r: Result<Self, StahlErr>) {
        if let StahlVal::CharV(c) = val {
            Ok(c)
        } else {
            Err(refused(ErrorKind::ConversionError, "Cannot convert stahl value: ", val, " to stahl character"))
        }
    }

    fn maybe_primitive_as_ref(val: &'a StahlVal) -> (r: Option<Self>) {
        if let StahlVal::CharV(c) = val {
            Some(c)
        } else {
            None
        }
    }
}

impl<'a> PrimitiveAsRef<'a> for isize {
    open spec fn holds(v: SVal) -> bool {
        v is Int
    }

    open spec fn as_value(&self) -> SVal {
        SVal::Int(*self as int)
    }

    open spec fn refusal() -> ErrorKind {
        ErrorKind::ConversionError
    }

    fn primitive_as_ref(val: &'a StahlVal) -> (r: Result<Self, StahlErr>) {
        if let StahlVal::IntV(i) = val {
            Ok(*i)
        } else {
            Err(refused(ErrorKind::ConversionError, "Cannot convert stahl value: ", val, " to stahl int"))
        }
    }

    fn maybe_primitive_as_ref(val: &'a StahlVal) -> (r: Option<Self>) {
        if let StahlVal::IntV(i) = val {
            Some(*i)
        } else {
            None
        }
    }
}

impl<'a> PrimitiveAsRef<'a> for &'a String {
    open spec fn holds(v: SVal) -> bool {
        v is Str
    }

    open spec fn as_value(&self) -> SVal {
        SVal::Str((**self)@)
    }

    open spec fn refusal() -> ErrorKind {
        ErrorKind::TypeMismatch
    }

    fn primitive_as_ref(val: &'a StahlVal) -> (r: Result<Self, StahlErr>) {
        if let StahlVal::StringV(s) = val {
            Ok(s)
        } else {
            Err(refused(ErrorKind::TypeMismatch, "Cannot convert stahl value: ", val, " to stahl string"))
        }
    }

    fn maybe_primitive_as_ref(val: &'a StahlVal) -> (r: Option<Self>) {
        if let StahlVal::StringV(s) = val {
            Some(s)
        } else {
            None
        }
    }
}

/// The name of a symbol, borrowed from the value.
pub struct StahlSymbol<'a>(pub &'a String);

impl<'a> PrimitiveAsRef<'a> for StahlSymbol<'a> {
    open spec fn holds(v: SVal) -> bool {
        v is Sym
    }

    open spec fn as_value(&self) -> SVal {
        SVal::Sym((*self.0)@)
    }

    open spec fn refusal() -> ErrorKind {
        ErrorKind::ConversionError
    }

    fn primitive_as_ref(val: &'a StahlVal) -> (r: Result<Self, StahlErr>) {
        if let StahlVal::SymbolV(sym) = val {
            Ok(StahlSymbol(sym))
        } else {
            Err(refused(ErrorKind::ConversionError, "Cannot convert stahl value: ", val, " to stahl symbol"))
        }
    }

    fn maybe_primitive_as_ref(val: &'a StahlVal) -> (r: Option<Self>) {
        if let StahlVal::SymbolV(sym) = val {
            Some(StahlSymbol(sym))
        } else {
            None
        }
    }
}

impl<'a> PrimitiveAsRef<'a> for &'a StahlHashMap {
    open spec fn holds(v: SVal) -> bool {
        v is HashMap
    }

    open spec fn as_value(&self) -> SVal {
        SVal::HashMap((**self)@)
    }

    open spec fn refusal() -> ErrorKind {
        ErrorKind::ConversionError
    }

    fn primitive_as_ref(val: &'a StahlVal) -> (r: Result<Self, StahlErr>) {
        if let StahlVal::HashMapV(hm) = val {
            Ok(hm)
        } else {
            Err(refused(ErrorKind::ConversionError, "Cannot convert stahl value: ", val, " to hashmap"))
        }
    }

    fn maybe_primitive_as_ref(val: &'a StahlVal) -> (r: Option<Self>) {
        if let StahlVal::HashMapV(hm) = val {
            Some(hm)
        } else {
            None
        }
    }
}

impl<'a> PrimitiveAsRef<'a> for &'a StahlHashSet {
    open spec fn holds(v: SVal) -> bool {
        v is HashSet
    }

    open spec fn as_value(&self) -> SVal {
        SVal::HashSet((**self)@)
    }

    open spec fn refusal() -> ErrorKind {
        ErrorKind::ConversionError
    }

    fn primitive_as_ref(val: &'a StahlVal) -> (r: Result<Self, StahlErr>) {
        if let StahlVal::HashSetV(p) = val {
            Ok(p)
        } else {
            Err(refused(ErrorKind::ConversionError, "Cannot convert stahl value: ", val, " to stahl hashset"))
        }
    }

    fn maybe_primitive_as_ref(val: &'a StahlVal) -> (r: Option<Self>) {
        if let StahlVal::HashSetV(p) = val {
            Some(p)
        } else {
            None
        }
    }
}

impl<'a> PrimitiveAsRef<'a> for &'a Vec<u8> {
    open spec fn holds(v: SVal) -> bool {
        v is Bytes
    }

    open spec fn as_value(&self) -> SVal {
        SVal::Bytes((**self)@)
    }

    open spec fn refusal() -> ErrorKind {
        ErrorKind::ConversionError
    }

    fn primitive_as_ref(val: &'a StahlVal) -> (r: Result<Self, StahlErr>) {
        match Self::maybe_primitive_as_ref(val) {
            Some(b) => Ok(b),
            None => Err(refused(ErrorKind::ConversionError, "Cannot convert value to bytevector: ", val, "")),
        }
    }

    fn maybe_primitive_as_ref(val: &'a StahlVal) -> (r: Option<Self>) {
        if let StahlVal::ByteVector(s) = val {
            Some(s)
        } else {
            None
        }
    }
}

} // verus!
