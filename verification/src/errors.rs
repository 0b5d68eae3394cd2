//! Errors raised by primitives, and the outcome of a primitive as its contracts state it.
use vstd::prelude::*;

use crate::conversions::{truthy, FromStahlVal};
use crate::printer::{display, display_text, push_char};
use crate::values::{vals, ErrorKind, SVal, Span, StahlErr, StahlVal};

verus! {

/// What a primitive's result means: the view of the value it returned, or the kind of the
/// error it raised.
pub open spec fn outcome(r: Result<StahlVal, StahlErr>) -> Result<SVal, ErrorKind> {
    match r {
        Ok(v) => Ok(v@),
        Err(e) => Err(e.kind),
    }
}

impl StahlErr {
    /// An error of kind `kind` with message `message`, at no particular place.
    pub fn new(kind: ErrorKind, message: String) -> (e: StahlErr)
        ensures
            e.kind == kind,
            e.message@ == message@,
            e.span is None,
    {
        StahlErr { kind, message, span: None }
    }

    /// The same error, located at `span`.
    pub fn with_span(self, span: Span) -> (e: StahlErr)
        ensures
            e.kind == self.kind,
            e.message@ == self.message@,
            e.span == Some(span),
    {
        StahlErr { kind: self.kind, message: self.message, span: Some(span) }
    }

    pub fn kind(&self) -> (k: ErrorKind)
        ensures
            k == self.kind,
    {
        self.kind
    }

    pub fn message(&self) -> (m: String)
        ensures
            m@ == self.message@,
    {
        self.message.clone()
    }

    pub fn span(&self) -> (s: Option<Span>)
        ensures
            s == self.span,
    {
        self.span
    }
}

/// Raises an error of kind `kind` with the message `msg`.
pub fn fail(kind: ErrorKind, msg: &str) -> (r: Result<StahlVal, StahlErr>)
    ensures
        outcome(r) == Err::<SVal, ErrorKind>(kind),
        r matches Err(e) && e.message@ == msg@ && e.span is None,
{
    Err(StahlErr::new(kind, String::from_str(msg)))
}


broadcast use crate::values::group_vals;

/// A position of a span: an integer, read as an unsigned machine word.
pub open spec fn span_position(v: SVal) -> Result<usize, ErrorKind> {
    match v {
        SVal::Int(i) => Ok((i as isize) as usize),
        _ => Err(ErrorKind::ConversionError),
    }
}

/// The source of a span: `#false` for none, else an integer cut to 32 bits.
pub open spec fn span_source(v: SVal) -> Result<Option<u32>, ErrorKind> {
    if !truthy(v) {
        Ok(None)
    } else {
        match v {
            SVal::Int(i) => Ok(Some((i as isize) as u32)),
            _ => Err(ErrorKind::ConversionError),
        }
    }
}

fn read_position(v: &StahlVal) -> (r: Result<usize, StahlErr>)
    ensures
        match r {
            Ok(p) => span_position(v@) == Ok::<usize, ErrorKind>(p),
            Err(e) => span_position(v@) == Err::<usize, ErrorKind>(e.kind),
        },
{
    match v {
        StahlVal::IntV(i) => Ok(*i as usize),
        _ => Err(StahlErr::new(ErrorKind::ConversionError, String::from_str("Expected number"))),
    }
}

fn read_source(v: &StahlVal) -> (r: Result<Option<u32>, StahlErr>)
    ensures
        match r {
            Ok(p) => span_source(v@) == Ok::<Option<u32>, ErrorKind>(p),
            Err(e) => span_source(v@) == Err::<Option<u32>, ErrorKind>(e.kind),
        },
{
    match v {
        StahlVal::BoolV(false) => Ok(None),
        StahlVal::IntV(i) => Ok(Some(*i as u32)),
        _ => Err(StahlErr::new(ErrorKind::ConversionError, String::from_str("Expected number"))),
    }
}

impl FromStahlVal for Span {
    type Model = Span;

    open spec fn model(&self) -> Span {
        *self
    }

    /// A list of the start, the end and the source (or `#false`).
    open spec fn decode(v: SVal) -> Result<Span, ErrorKind> {
        match v {
            SVal::List(items) => if items.len() != 3 {
                Err(ErrorKind::ConversionError)
            } else {
                match (span_position(items[0]), span_position(items[1]), span_source(items[2])) {
                    (Ok(start), Ok(end), Ok(source_id)) => Ok(Span { start, end, source_id }),
                    (Err(k), _, _) => Err(k),
                    (_, Err(k), _) => Err(k),
                    (_, _, Err(k)) => Err(k),
                }
            },
            _ => Err(ErrorKind::ConversionError),
        }
    }

    fn from_stahlval(val: &StahlVal) -> (r: Result<Self, StahlErr>) {
        read_span(val)
    }
}

fn read_span(val: &StahlVal) -> (r: Result<Span, StahlErr>)
    ensures
        match r {
            Ok(x) => <Span as FromStahlVal>::decode(val@) == Ok::<Span, ErrorKind>(x),
            Err(e) => <Span as FromStahlVal>::decode(val@) == Err::<Span, ErrorKind>(e.kind),
        },
{
    match val {
        StahlVal::ListV(l) => {
            assert(vals(l@).len() == l@.len());
            if l.len() != 3 {
                return Err(StahlErr::new(ErrorKind::ConversionError, String::from_str("cannot convert to a span object")));
            }
            let start = match read_position(&l[0]) {
                Ok(p) => p,
                Err(e) => {
                    return Err(e);
                },
            };
            let end = match read_position(&l[1]) {
                Ok(p) => p,
                Err(e) => {
                    return Err(e);
                },
            };
            let source_id = match read_source(&l[2]) {
                Ok(p) => p,
                Err(e) => {
                    return Err(e);
                },
            };
            Ok(Span { start, end, source_id })
        },
        _ => Err(StahlErr::new(ErrorKind::ConversionError, String::from_str("cannot convert to a span object"))),
    }
}

/// A span as a value: the list of its start, its end, and its source (as a machine
/// integer) or `#false`.
pub open spec fn span_view(s: Span) -> SVal {
    SVal::List(
        seq![
            SVal::Int(s.start as int),
            SVal::Int(s.end as int),
            match s.source_id {
                Some(id) => SVal::Int((id as isize) as int),
                None => SVal::Bool(false),
            },
        ],
    )
}

/// A span as a value.
pub fn span_into_value(s: Span) -> (v: StahlVal)
    requires
        s.start <= isize::MAX,
        s.end <= isize::MAX,
    ensures
        v@ == span_view(s),
{
    let mut items: Vec<StahlVal> = Vec::new();
    let a = StahlVal::IntV(s.start as isize);
    let b = StahlVal::IntV(s.end as isize);
    let source = match s.source_id {
        Some(id) => StahlVal::IntV(id as isize),
        None => StahlVal::BoolV(false),
    };
    assert(a@ == SVal::Int(s.start as int));
    assert(b@ == SVal::Int(s.end as int));
    assert(source@ == match s.source_id {
        Some(id) => SVal::Int((id as isize) as int),
        None => SVal::Bool(false),
    });
    items.push(a);
    items.push(b);
    items.push(source);
    assert(vals(items@) =~= seq![
        SVal::Int(s.start as int),
        SVal::Int(s.end as int),
        match s.source_id {
            Some(id) => SVal::Int((id as isize) as int),
            None => SVal::Bool(false),
        },
    ]);
    StahlVal::ListV(items)
}

impl FromStahlVal for StahlErr {
    type Model = (ErrorKind, Seq<char>, Option<Span>);

    open spec fn model(&self) -> (ErrorKind, Seq<char>, Option<Span>) {
        (self.kind, self.message@, self.span)
    }

    /// The error that an error object holds.
    open spec fn decode(v: SVal) -> Result<(ErrorKind, Seq<char>, Option<Span>), ErrorKind> {
        match v {
            SVal::Error(kind, message, span) => Ok((kind, message, span)),
            _ => Err(ErrorKind::ConversionError),
        }
    }

    fn from_stahlval(val: &StahlVal) -> (r: Result<Self, StahlErr>) {
        read_error(val)
    }
}

fn read_error(val: &StahlVal) -> (r: Result<StahlErr, StahlErr>)
    ensures
        match r {
            Ok(x) => <StahlErr as FromStahlVal>::decode(val@) == Ok::<(ErrorKind, Seq<char>, Option<Span>), ErrorKind>((x.kind, x.message@, x.span)),
            Err(e) => <StahlErr as FromStahlVal>::decode(val@) == Err::<(ErrorKind, Seq<char>, Option<Span>), ErrorKind>(e.kind),
        },
{
    match val {
        StahlVal::ErrorV(e) => Ok(StahlErr { kind: e.kind, message: e.message.clone(), span: e.span }),
        _ => Err(StahlErr::new(ErrorKind::ConversionError, String::from_str("expected an error object"))),
    }
}

/// `s` without the double quotes at its front.
pub open spec fn trim_front_quotes(s: Seq<char>) -> Seq<char>
    decreases s.len(),
{
    if s.len() > 0 && s[0] == '"' {
        trim_front_quotes(s.drop_first())
    } else {
        s
    }
}

/// `s` without the double quotes at its back.
pub open spec fn trim_back_quotes(s: Seq<char>) -> Seq<char>
    decreases s.len(),
{
    if s.len() > 0 && s.last() == '"' {
        trim_back_quotes(s.drop_last())
    } else {
        s
    }
}

/// `s` without the double quotes at either end.
pub open spec fn trim_quotes(s: Seq<char>) -> Seq<char> {
    trim_back_quotes(trim_front_quotes(s))
}

/// The message that `error-with-span` builds: each value printed, without the double quotes
/// at its ends, after a space.
pub open spec fn spaced_message(a: Seq<SVal>) -> Seq<char>
    decreases a.len(),
{
    if a.len() == 0 {
        Seq::empty()
    } else {
        spaced_message(a.drop_last()) + seq![' '] + trim_quotes(display(a.last()))
    }
}

/// Appends `t` without the double quotes at either end.
fn append_trimmed(s: &mut String, t: &String)
    ensures
        final(s)@ == old(s)@ + trim_quotes(t@),
{
    let ts = t.as_str();
    let n = ts.unicode_len();
    let mut start: usize = 0;
    assert(t@.skip(0) =~= t@);
    while start < n && ts.get_char(start) == '"'
        invariant
            n == t@.len(),
            ts@ == t@,
            start <= n,
            trim_front_quotes(t@) == trim_front_quotes(t@.skip(start as int)),
        decreases n - start,
    {
        assert(t@.skip(start as int).drop_first() =~= t@.skip(start + 1));
        start = start + 1;
    }
    let ghost front = t@.skip(start as int);
    assert(trim_front_quotes(t@) == front) by {
        if front.len() > 0 {
            assert(front[0] == t@[start as int]);
        }
    }
    let mut end: usize = n;
    assert(front.take(end - start) =~= front);
    while end > start && ts.get_char(end - 1) == '"'
        invariant
            n == t@.len(),
            ts@ == t@,
            start <= end <= n,
            front == t@.skip(start as int),
            trim_back_quotes(front) == trim_back_quotes(front.take(end - start)),
        decreases end,
    {
        assert(front.take(end - start).drop_last() =~= front.take(end - 1 - start));
        assert(front.take(end - start).last() == t@[end - 1]);
        end = end - 1;
    }
    let ghost kept = front.take(end - start);
    assert(trim_back_quotes(kept) == kept) by {
        if kept.len() > 0 {
            assert(kept.last() == t@[end - 1]);
        }
    }
    let part = ts.substring_char(start, end);
    assert(part@ =~= kept);
    s.append(part);
}

/// `error-with-span`: raises a generic error located at the span given first, whose
/// message is the other arguments printed, each after a space.
pub fn error_with_src_loc(args: &[StahlVal]) -> (r: Result<StahlVal, StahlErr>)
    ensures
        args@.len() < 2 ==> outcome(r) == Err::<SVal, ErrorKind>(ErrorKind::ArityMismatch),
        args@.len() >= 2 ==> match <Span as FromStahlVal>::decode(args@[0]@) {
            Err(k) => outcome(r) == Err::<SVal, ErrorKind>(k),
            Ok(span) => r matches Err(e) && e.kind == ErrorKind::Generic && e.span == Some(span)
                && e.message@ == spaced_message(vals(args@).skip(1)),
        },
{
    if args.len() < 2 {
        return fail(ErrorKind::ArityMismatch, "error-with-span expects at least 2 arguments - the span and the error message");
    }
    let span = match read_span(&args[0]) {
        Ok(s) => s,
        Err(e) => {
            return Err(e);
        },
    };
    let ghost a = vals(args@).skip(1);
    let mut message = String::new();
    let mut i: usize = 1;
    assert(a.take(0) =~= Seq::<SVal>::empty());
    while i < args.len()
        invariant
            1 <= i <= args.len(),
            a == vals(args@).skip(1),
            message@ == spaced_message(a.take(i - 1)),
        decreases args.len() - i,
    {
        push_char(&mut message, ' ');
        let text = display_text(&args[i]);
        append_trimmed(&mut message, &text);
        assert(a.take(i as int).drop_last() =~= a.take(i - 1));
        assert(a.take(i as int).last() == args@[i as int]@);
        assert(message@ =~= spaced_message(a.take(i as int)));
        i = i + 1;
    }
    assert(a.take(args@.len() - 1) =~= a);
    Err(StahlErr::new(ErrorKind::Generic, message).with_span(span))
}

/// `raise-error-with-span`: raises the error object given first, located at the span given
/// second.
pub fn error_from_error_with_span(args: &[StahlVal]) -> (r: Result<StahlVal, StahlErr>)
    ensures
        args@.len() != 2 ==> outcome(r) == Err::<SVal, ErrorKind>(ErrorKind::ArityMismatch),
        args@.len() == 2 ==> match (<StahlErr as FromStahlVal>::decode(args@[0]@), <Span as FromStahlVal>::decode(args@[1]@)) {
            (Err(k), _) => outcome(r) == Err::<SVal, ErrorKind>(k),
            (Ok(_), Err(k)) => outcome(r) == Err::<SVal, ErrorKind>(k),
            (Ok((kind, message, _)), Ok(span)) => r matches Err(e) && e.kind == kind && e.message@ == message && e.span == Some(span),
        },
{
    if args.len() != 2 {
        return fail(ErrorKind::ArityMismatch, "raise-error-with-span expects 2 arguments - the error object and the span");
    }
    let error = match read_error(&args[0]) {
        Ok(e) => e,
        Err(e) => {
            return Err(e);
        },
    };
    let span = match read_span(&args[1]) {
        Ok(s) => s,
        Err(e) => {
            return Err(e);
        },
    };
    Err(error.with_span(span))
}

/// `raise-error`: raises the error object given first.
pub fn raise_error_from_error(args: &[StahlVal]) -> (r: Result<StahlVal, StahlErr>)
    requires
        args@.len() >= 1,
    ensures
        match <StahlErr as FromStahlVal>::decode(args@[0]@) {
            Err(k) => outcome(r) == Err::<SVal, ErrorKind>(k),
            Ok((kind, message, span)) => r matches Err(e) && e.kind == kind && e.message@ == message && e.span == span,
        },
{
    match read_error(&args[0]) {
        Ok(e) => Err(e),
        Err(e) => Err(e),
    }
}

} // verus!
