//! Type predicates, equality and ordering of values, boxes, and small custom containers.
use vstd::prelude::*;

use crate::equality::equal;
use crate::errors::{fail, outcome};
use crate::heap::{Heap, HeapRef};
use crate::bignum::{big_eq, big_from_isize, big_less, big_mul};
use crate::numbers::{exact_parts, exact_value};
use crate::values::{
    copy_range, equiv, lemma_vals_push, vals, BigNumber, ErrorKind, SVal, StahlErr, StahlVal,
};

verus! {

broadcast use crate::values::group_vals;

/// `not`: whether the value is `#false`.
pub fn not(value: &StahlVal) -> (b: bool)
    ensures
        b == (value@ == SVal::Bool(false)),
{
    match value {
        StahlVal::BoolV(x) => !*x,
        _ => false,
    }
}

/// `string?`.
pub fn stringp(value: &StahlVal) -> (b: bool)
    ensures
        b == value@ is Str,
{
    match value {
        StahlVal::StringV(_) => true,
        _ => false,
    }
}

/// `list?`.
pub fn listp(value: &StahlVal) -> (b: bool)
    ensures
        b == value@ is List,
{
    match value {
        StahlVal::ListV(_) => true,
        _ => false,
    }
}

/// `vector?`: immutable and mutable vectors alike.
pub fn vectorp(value: &StahlVal) -> (b: bool)
    ensures
        b == (value@ is Vector || value@ is MutVector),
{
    match value {
        StahlVal::VectorV(_) | StahlVal::MutableVector(_) => true,
        _ => false,
    }
}

/// `symbol?`.
pub fn symbolp(value: &StahlVal) -> (b: bool)
    ensures
        b == value@ is Sym,
{
    match value {
        StahlVal::SymbolV(_) => true,
        _ => false,
    }
}

/// `hash?`.
pub fn hashp(value: &StahlVal) -> (b: bool)
    ensures
        b == value@ is HashMap,
{
    match value {
        StahlVal::HashMapV(_) => true,
        _ => false,
    }
}

/// `set?`.
pub fn hashsetp(value: &StahlVal) -> (b: bool)
    ensures
        b == value@ is HashSet,
{
    match value {
        StahlVal::HashSetV(_) => true,
        _ => false,
    }
}

/// `boolean?`.
pub fn booleanp(value: &StahlVal) -> (b: bool)
    ensures
        b == value@ is Bool,
{
    match value {
        StahlVal::BoolV(_) => true,
        _ => false,
    }
}

/// `bool?`.
pub fn boolp(value: &StahlVal) -> (b: bool)
    ensures
        b == value@ is Bool,
{
    booleanp(value)
}

/// `void?`.
pub fn voidp(value: &StahlVal) -> (b: bool)
    ensures
        b == value@ is Void,
{
    match value {
        StahlVal::Void => true,
        _ => false,
    }
}

/// `error-object?`.
pub fn error_objectp(value: &StahlVal) -> (b: bool)
    ensures
        b == value@ is Error,
{
    match value {
        StahlVal::ErrorV(_) => true,
        _ => false,
    }
}

/// `error-object-message`: the message of an error object.
pub fn error_object_message(val: &StahlVal) -> (r: Result<StahlVal, StahlErr>)
    ensures
        outcome(r) == match val@ {
            SVal::Error(_, message, _) => Ok::<SVal, ErrorKind>(SVal::Str(message)),
            _ => Err(ErrorKind::TypeMismatch),
        },
{
    match val {
        StahlVal::ErrorV(e) => Ok(StahlVal::StringV(e.message.clone())),
        _ => fail(ErrorKind::TypeMismatch, "error-object-message: expected an error object"),
    }
}

/// Whether each argument equals the next.
pub open spec fn all_adjacent_equal(a: Seq<SVal>) -> bool {
    forall|i: int| 0 <= i < a.len() - 1 ==> equiv(#[trigger] a[i], a[i + 1])
}

/// `equal?` on any number of arguments: whether each equals the next.
pub fn equality_primitive(args: &[StahlVal]) -> (r: Result<StahlVal, StahlErr>)
    ensures
        outcome(r) == Ok::<SVal, ErrorKind>(SVal::Bool(all_adjacent_equal(vals(args@)))),
{
    let ghost a = vals(args@);
    let n = args.len();
    if n == 0 {
        return Ok(StahlVal::BoolV(true));
    }
    let mut i: usize = 0;
    while i < n - 1
        invariant
            n == args.len(),
            n > 0,
            i <= n - 1,
            a == vals(args@),
            forall|j: int| 0 <= j < i && j < a.len() - 1 ==> equiv(#[trigger] a[j], a[j + 1]),
        decreases args.len() - i,
    {
        if !equal(&args[i], &args[i + 1]) {
            assert(!equiv(a[i as int], a[i + 1]));
            return Ok(StahlVal::BoolV(false));
        }
        i = i + 1;
    }
    Ok(StahlVal::BoolV(true))
}

/// The order of two values.
#[derive(Clone, Copy, Debug, PartialEq, Eq, Structural)]
pub enum Order {
    Less,
    Equal,
    Greater,
}

/// The order of two integers.
pub open spec fn int_order(x: int, y: int) -> Order {
    if x < y {
        Order::Less
    } else if x == y {
        Order::Equal
    } else {
        Order::Greater
    }
}

/// The lexicographic order of two texts, character by character.
pub open spec fn text_order(x: Seq<char>, y: Seq<char>) -> Order
    decreases x.len(),
{
    if x.len() == 0 {
        if y.len() == 0 {
            Order::Equal
        } else {
            Order::Less
        }
    } else if y.len() == 0 {
        Order::Greater
    } else if (x[0] as int) < (y[0] as int) {
        Order::Less
    } else if (x[0] as int) > (y[0] as int) {
        Order::Greater
    } else {
        text_order(x.drop_first(), y.drop_first())
    }
}

/// The order of two exact numbers: `p.0 / p.1` against `q.0 / q.1`.
pub open spec fn exact_order(p: (int, int), q: (int, int)) -> Order {
    if p.1 * q.1 > 0 {
        int_order(p.0 * q.1, q.0 * p.1)
    } else {
        int_order(q.0 * p.1, p.0 * q.1)
    }
}

/// Whether a value is a number.
pub open spec fn is_number(v: SVal) -> bool {
    v is Num || exact_value(v) is Some
}

/// Whether two values are numbers and one of them is a floating-point number: their order
/// takes floating-point arithmetic, which this library leaves to its caller.
pub open spec fn float_pair(a: SVal, b: SVal) -> bool {
    is_number(a) && is_number(b) && (a is Num || b is Num)
}

/// The order of two values, where the library orders them: exact numbers by their value,
/// and characters and strings among their own kind. Any other pair, floating-point numbers
/// among them, is not ordered here.
pub open spec fn value_order(a: SVal, b: SVal) -> Option<Order> {
    match (a, b) {
        (SVal::Char(x), SVal::Char(y)) => Some(int_order(x as int, y as int)),
        (SVal::Str(x), SVal::Str(y)) => Some(text_order(x, y)),
        _ => match (exact_value(a), exact_value(b)) {
            (Some(p), Some(q)) => Some(exact_order(p, q)),
            _ => None,
        },
    }
}

/// The lexicographic order of two strings.
fn text_compare(x: &String, y: &String) -> (o: Order)
    ensures
        o == text_order(x@, y@),
{
    let xs = x.as_str();
    let ys = y.as_str();
    let n = xs.unicode_len();
    let m = ys.unicode_len();
    let mut i: usize = 0;
    assert(x@.skip(0) =~= x@);
    assert(y@.skip(0) =~= y@);
    while i < n && i < m
        invariant
            n == x@.len(),
            m == y@.len(),
            xs@ == x@,
            ys@ == y@,
            i <= n,
            i <= m,
            text_order(x@, y@) == text_order(x@.skip(i as int), y@.skip(i as int)),
        decreases n - i,
    {
        let a = xs.get_char(i);
        let b = ys.get_char(i);
        assert(x@.skip(i as int)[0] == a);
        assert(y@.skip(i as int)[0] == b);
        if (a as u32) < (b as u32) {
            return Order::Less;
        }
        if (a as u32) > (b as u32) {
            return Order::Greater;
        }
        assert(x@.skip(i as int).drop_first() =~= x@.skip(i + 1));
        assert(y@.skip(i as int).drop_first() =~= y@.skip(i + 1));
        i = i + 1;
    }
    if i < m {
        Order::Less
    } else if i < n {
        Order::Greater
    } else {
        Order::Equal
    }
}

/// The order of two big integers.
fn big_order(a: &BigNumber, b: &BigNumber) -> (o: Order)
    ensures
        o == int_order(a@, b@),
{
    if big_less(a, b) {
        Order::Less
    } else if big_less(b, a) {
        Order::Greater
    } else {
        Order::Equal
    }
}

/// The order of two exact numbers.
fn exact_compare(a: &StahlVal, b: &StahlVal) -> (o: Order)
    requires
        exact_value(a@) is Some,
        exact_value(b@) is Some,
    ensures
        o == exact_order(exact_value(a@)->0, exact_value(b@)->0),
{
    let (n1, d1) = exact_parts(a);
    let (n2, d2) = exact_parts(b);
    let x = big_mul(&n1, &d2);
    let y = big_mul(&n2, &d1);
    let m = big_mul(&d1, &d2);
    let zero = big_from_isize(0);
    if big_less(&zero, &m) {
        big_order(&x, &y)
    } else {
        big_order(&y, &x)
    }
}

/// The order of two values, where the library orders them.
pub fn compare_values(a: &StahlVal, b: &StahlVal) -> (o: Option<Order>)
    ensures
        o == value_order(a@, b@),
{
    match (a, b) {
        (StahlVal::IntV(x), StahlVal::IntV(y)) => {
            assert(exact_order((*x as int, 1), (*y as int, 1)) == int_order(*x as int, *y as int));
            Some(
                if *x < *y {
                    Order::Less
                } else if *x == *y {
                    Order::Equal
                } else {
                    Order::Greater
                },
            )
        },
        (StahlVal::CharV(x), StahlVal::CharV(y)) => Some(
            if (*x as u32) < (*y as u32) {
                Order::Less
            } else if *x == *y {
                Order::Equal
            } else {
                Order::Greater
            },
        ),
        (StahlVal::StringV(x), StahlVal::StringV(y)) => Some(text_compare(x, y)),
        _ => {
            if is_exact(a) && is_exact(b) {
                Some(exact_compare(a, b))
            } else {
                None
            }
        },
    }
}

/// Whether a value is an exact number.
fn is_exact(v: &StahlVal) -> (b: bool)
    ensures
        b == exact_value(v@) is Some,
{
    match v {
        StahlVal::IntV(_) | StahlVal::BigNum(_) => true,
        StahlVal::Rational(_, d) => *d != 0,
        StahlVal::BigRational(_, d) => {
            let zero = big_from_isize(0);
            !big_eq(d, &zero)
        },
        _ => false,
    }
}

/// Whether a value is a number.
fn is_number_value(v: &StahlVal) -> (b: bool)
    ensures
        b == is_number(v@),
{
    match v {
        StahlVal::NumV(_) => true,
        _ => is_exact(v),
    }
}

/// Whether some argument and the next make a pair of numbers with a floating-point number.
pub open spec fn has_float_pair(a: Seq<SVal>) -> bool {
    exists|i: int| 0 <= i < a.len() - 1 && #[trigger] float_pair(a[i], a[i + 1])
}

/// Whether some argument and the next make a pair of numbers with a floating-point number,
/// whose order this library leaves to its caller.
pub fn float_pair_among(args: &[StahlVal]) -> (b: bool)
    ensures
        b == has_float_pair(vals(args@)),
{
    let ghost a = vals(args@);
    let mut i: usize = 1;
    while i < args.len()
        invariant
            1 <= i,
            a == vals(args@),
            forall|j: int| 0 <= j < i - 1 && j < a.len() - 1 ==> !#[trigger] float_pair(a[j], a[j + 1]),
        decreases args.len() - i,
    {
        let x = &args[i - 1];
        let y = &args[i];
        let f = is_number_value(x) && is_number_value(y) && (matches!(x, StahlVal::NumV(_)) || matches!(y, StahlVal::NumV(_)));
        if f {
            let ghost j: int = i - 1;
            assert(a.len() == args@.len());
            assert(a[j + 1] == a[i as int]);
            assert(float_pair(a[j], a[j + 1]));
            return true;
        }
        i = i + 1;
    }
    false
}

/// Whether each argument is ordered at or after the next.
pub open spec fn all_descending(a: Seq<SVal>) -> bool {
    forall|i: int|
        0 <= i < a.len() - 1 ==> (#[trigger] value_order(a[i], a[i + 1]) matches Some(o) && o
            != Order::Less)
}

/// Whether each argument is ordered at or before the next.
pub open spec fn all_ascending(a: Seq<SVal>) -> bool {
    forall|i: int|
        0 <= i < a.len() - 1 ==> (#[trigger] value_order(a[i], a[i + 1]) matches Some(o) && o
            != Order::Greater)
}

/// `>=` on values: whether each argument is at or after the next. Values that are not
/// ordered make the answer false; a pair of numbers with a floating-point number among them
/// is compared by the caller (see [`float_pair_among`]).
pub fn gte_primitive(args: &[StahlVal]) -> (r: Result<StahlVal, StahlErr>)
    requires
        !has_float_pair(vals(args@)),
    ensures
        outcome(r) == if args@.len() == 0 {
            Err(ErrorKind::ArityMismatch)
        } else {
            Ok::<SVal, ErrorKind>(SVal::Bool(all_descending(vals(args@))))
        },
{
    if args.len() == 0 {
        return fail(ErrorKind::ArityMismatch, "expected at least one argument");
    }
    let ghost a = vals(args@);
    let n = args.len();
    let mut i: usize = 0;
    while i < n - 1
        invariant
            n == args.len(),
            n > 0,
            i <= n - 1,
            a == vals(args@),
            forall|j: int|
                0 <= j < i && j < a.len() - 1 ==> (#[trigger] value_order(a[j], a[j + 1]) matches Some(
                    o,
                ) && o != Order::Less),
        decreases args.len() - i,
    {
        let o = compare_values(&args[i], &args[i + 1]);
        let ok = match o {
            Some(Order::Less) => false,
            Some(_) => true,
            None => false,
        };
        if !ok {
            assert(!(value_order(a[i as int], a[i + 1]) matches Some(o) && o != Order::Less));
            return Ok(StahlVal::BoolV(false));
        }
        i = i + 1;
    }
    Ok(StahlVal::BoolV(true))
}

/// `<=` on values: whether each argument is at or before the next. Values that are not
/// ordered make the answer false; a pair of numbers with a floating-point number among them
/// is compared by the caller (see [`float_pair_among`]).
pub fn lte_primitive(args: &[StahlVal]) -> (r: Result<StahlVal, StahlErr>)
    requires
        !has_float_pair(vals(args@)),
    ensures
        outcome(r) == if args@.len() == 0 {
            Err(ErrorKind::ArityMismatch)
        } else {
            Ok::<SVal, ErrorKind>(SVal::Bool(all_ascending(vals(args@))))
        },
{
    if args.len() == 0 {
        return fail(ErrorKind::ArityMismatch, "expected at least one argument");
    }
    let ghost a = vals(args@);
    let n = args.len();
    let mut i: usize = 0;
    while i < n - 1
        invariant
            n == args.len(),
            n > 0,
            i <= n - 1,
            a == vals(args@),
            forall|j: int|
                0 <= j < i && j < a.len() - 1 ==> (#[trigger] value_order(a[j], a[j + 1]) matches Some(
                    o,
                ) && o != Order::Greater),
        decreases args.len() - i,
    {
        let o = compare_values(&args[i], &args[i + 1]);
        let ok = match o {
            Some(Order::Greater) => false,
            Some(_) => true,
            None => false,
        };
        if !ok {
            assert(!(value_order(a[i as int], a[i + 1]) matches Some(o) && o != Order::Greater));
            return Ok(StahlVal::BoolV(false));
        }
        i = i + 1;
    }
    Ok(StahlVal::BoolV(true))
}

/// The order read the other way round.
pub open spec fn reversed_order(o: Order) -> Order {
    match o {
        Order::Less => Order::Greater,
        Order::Equal => Order::Equal,
        Order::Greater => Order::Less,
    }
}

proof fn lemma_text_order_flips(x: Seq<char>, y: Seq<char>)
    ensures
        text_order(y, x) == reversed_order(text_order(x, y)),
        text_order(x, y) == Order::Equal ==> x == y,
    decreases x.len(),
{
    if x.len() > 0 && y.len() > 0 && (x[0] as int) == (y[0] as int) {
        lemma_text_order_flips(x.drop_first(), y.drop_first());
        if text_order(x, y) == Order::Equal {
            assert(x[0] == y[0]);
            assert(x =~= seq![x[0]] + x.drop_first());
            assert(y =~= seq![y[0]] + y.drop_first());
        }
    }
    if x.len() == 0 && y.len() == 0 {
        assert(x =~= y);
    }
}

/// Comparing two values the other way round gives the reversed order, and only equal values
/// compare equal but for numbers, which compare by value.
pub proof fn lemma_order_flips(a: SVal, b: SVal)
    ensures
        value_order(b, a) == match value_order(a, b) {
            Some(o) => Some(reversed_order(o)),
            None => None,
        },
        !is_number(a) ==> (value_order(a, b) == Some(Order::Equal) ==> a == b),
{
    match (a, b) {
        (SVal::Str(x), SVal::Str(y)) => lemma_text_order_flips(x, y),
        (SVal::Char(x), SVal::Char(y)) => {
            if (x as int) == (y as int) {
                assert(x == y);
            }
        },
        _ => {},
    }
}

/// `>=` on arguments answers as `<=` on the same arguments in reverse order.
pub proof fn lemma_descending_is_reversed_ascending(a: Seq<SVal>)
    ensures
        all_descending(a) == all_ascending(a.reverse()),
{
    let r = a.reverse();
    let n = a.len();
    if all_descending(a) {
        assert forall|i: int| 0 <= i < r.len() - 1 implies (#[trigger] value_order(r[i], r[i + 1]) matches Some(o)
            && o != Order::Greater) by {
            let j = n - 2 - i;
            assert(r[i] == a[j + 1]);
            assert(r[i + 1] == a[j]);
            assert(value_order(a[j], a[j + 1]) matches Some(o) && o != Order::Less);
            lemma_order_flips(a[j], a[j + 1]);
        }
    }
    if all_ascending(r) {
        assert forall|j: int| 0 <= j < a.len() - 1 implies (#[trigger] value_order(a[j], a[j + 1]) matches Some(o)
            && o != Order::Less) by {
            let i = n - 2 - j;
            assert(r[i] == a[j + 1]);
            assert(r[i + 1] == a[j]);
            assert(value_order(r[i], r[i + 1]) matches Some(o) && o != Order::Greater);
            lemma_order_flips(a[j + 1], a[j]);
        }
    }
}

/// The reserved name under which a built-in function is bound: `#%prim.` before its name.
pub fn builtin_to_reserved(ident: &str) -> (r: String)
    ensures
        r@ == "#%prim."@ + ident@,
{
    let mut name = String::from_str("#%prim.");
    name.append(ident);
    name
}

/// A function that ignores its arguments and gives nothing.
pub fn black_box(args: &[StahlVal]) -> (r: Result<StahlVal, StahlErr>)
    ensures
        outcome(r) == Ok::<SVal, ErrorKind>(SVal::Void),
{
    Ok(StahlVal::Void)
}

/// `#%unbox`: the content of a box.
pub fn unbox_mutable(heap: &Heap, value: &HeapRef) -> (v: StahlVal)
    requires
        heap.has_value(*value),
    ensures
        v@ == heap.value_of(*value),
{
    value.get(heap)
}

/// `#%set-box!`: stores a value in a box, and gives the value it held.
pub fn set_box_mutable(heap: &mut Heap, value: &HeapRef, update: StahlVal) -> (prev: StahlVal)
    requires
        old(heap).has_value(*value),
    ensures
        prev@ == old(heap).value_of(*value),
        final(heap).value_of(*value) == update@,
        final(heap).values@.len() == old(heap).values@.len(),
        final(heap).vectors@ == old(heap).vectors@,
        forall|i: int|
            0 <= i < old(heap).values@.len() && i != value.index ==> #[trigger] final(heap).values@[i]
                == old(heap).values@[i],
{
    value.set_and_return(heap, update)
}

/// `unbox`: the content of a box.
pub fn plain_unbox_mutable(heap: &Heap, value: &HeapRef) -> (v: StahlVal)
    requires
        heap.has_value(*value),
    ensures
        v@ == heap.value_of(*value),
{
    unbox_mutable(heap, value)
}

/// `set-box!`: stores a value in a box, and gives the value it held.
pub fn plain_set_box_mutable(heap: &mut Heap, value: &HeapRef, update: StahlVal) -> (prev: StahlVal)
    requires
        old(heap).has_value(*value),
    ensures
        prev@ == old(heap).value_of(*value),
        final(heap).value_of(*value) == update@,
        final(heap).values@.len() == old(heap).values@.len(),
        final(heap).vectors@ == old(heap).vectors@,
        forall|i: int|
            0 <= i < old(heap).values@.len() && i != value.index ==> #[trigger] final(heap).values@[i]
                == old(heap).values@[i],
{
    set_box_mutable(heap, value, update)
}

/// `box`: a new box holding the only argument.
pub fn make_mutable_box(heap: &mut Heap, args: &[StahlVal]) -> (r: Result<StahlVal, StahlErr>)
    ensures
        args@.len() != 1 ==> *final(heap) == *old(heap) && outcome(r) == Err::<SVal, ErrorKind>(ErrorKind::ArityMismatch),
        args@.len() == 1 ==> outcome(r) == Ok::<SVal, ErrorKind>(SVal::Boxed(old(heap).values@.len()))
            && final(heap).values@.len() == old(heap).values@.len() + 1
            && final(heap).value_of(HeapRef { index: old(heap).values@.len() as usize }) == args@[0]@
            && final(heap).vectors@ == old(heap).vectors@
            && forall|i: int| 0 <= i < old(heap).values@.len() ==> #[trigger] final(heap).values@[i] == old(heap).values@[i],
{
    if args.len() != 1 {
        return fail(ErrorKind::ArityMismatch, "box expects one argument");
    }
    let r = heap.allocate(args[0].clone());
    Ok(StahlVal::HeapAllocated(r))
}

/// A growable vector kept inside a value.
#[derive(Debug)]
pub struct MutableVector {
    pub vector: Vec<StahlVal>,
}

impl View for MutableVector {
    type V = Seq<SVal>;

    open spec fn view(&self) -> Seq<SVal> {
        vals(self.vector@)
    }
}

impl MutableVector {
    pub fn new() -> (v: Self)
        ensures
            v@ == Seq::<SVal>::empty(),
    {
        let v = MutableVector { vector: Vec::new() };
        assert(v@ =~= Seq::<SVal>::empty());
        v
    }

    pub fn vector_push(&mut self, value: StahlVal)
        ensures
            final(self)@ == old(self)@.push(value@),
    {
        proof {
            lemma_vals_push(self.vector@, value);
        }
        self.vector.push(value);
    }

    pub fn vector_pop(&mut self) -> (last: Option<StahlVal>)
        ensures
            old(self)@.len() == 0 ==> last is None && final(self)@ == old(self)@,
            old(self)@.len() > 0 ==> (last matches Some(v) && v@ == old(self)@.last()) && final(self)@
                == old(self)@.drop_last(),
    {
        let ghost before = self.vector@;
        let last = self.vector.pop();
        proof {
            if before.len() > 0 {
                assert(before =~= self.vector@.push(before.last()));
                lemma_vals_push(self.vector@, before.last());
                assert(vals(before).drop_last() =~= vals(self.vector@));
            }
        }
        last
    }

    pub fn vector_set(&mut self, index: usize, value: StahlVal)
        requires
            index < old(self)@.len(),
        ensures
            final(self)@ == old(self)@.update(index as int, value@),
    {
        proof {
            crate::values::lemma_vals_update(self.vector@, index as int, value);
        }
        self.vector.set(index, value);
    }

    pub fn vector_ref(&self, index: usize) -> (v: StahlVal)
        requires
            index < self@.len(),
        ensures
            v@ == self@[index as int],
    {
        self.vector[index].clone()
    }

    pub fn vector_len(&self) -> (n: usize)
        ensures
            n == self@.len(),
    {
        self.vector.len()
    }

    pub fn vector_to_list(&self) -> (l: StahlVal)
        ensures
            l@ == SVal::List(self@),
    {
        let items = copy_range(&self.vector, 0, self.vector.len());
        assert(vals(self.vector@).subrange(0, self.vector@.len() as int) =~= vals(self.vector@));
        StahlVal::ListV(items)
    }

    pub fn vector_is_empty(&self) -> (b: bool)
        ensures
            b == (self@.len() == 0),
    {
        self.vector.len() == 0
    }

    pub fn vector_from_list(lst: Vec<StahlVal>) -> (v: Self)
        ensures
            v@ == vals(lst@),
    {
        MutableVector { vector: lst }
    }
}

} // verus!
