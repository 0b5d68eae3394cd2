//! The text of values: decimal integers, and the printed form of values.
use vstd::prelude::*;

use crate::values::{vals, ErrorKind, SVal, StahlErr, StahlVal};

verus! {

broadcast use crate::values::group_vals;

/// The character of the decimal digit `d`.
pub open spec fn digit(d: nat) -> char {
    (48 + d) as char
}

/// The decimal digits of `n`, most significant first.
pub open spec fn digits(n: nat) -> Seq<char>
    decreases n,
{
    if n < 10 {
        seq![digit(n)]
    } else {
        digits(n / 10).push(digit(n % 10))
    }
}

/// The decimal text of `i`: a minus sign for negative numbers, then the digits.
pub open spec fn decimal(i: int) -> Seq<char> {
    if i < 0 {
        seq!['-'] + digits((-i) as nat)
    } else {
        digits(i as nat)
    }
}

/// `String::push`: appends the character `c`.
#[verifier::external_body]
pub(crate) fn push_char(s: &mut String, c: char)
    ensures
        final(s)@ == old(s)@.push(c),
{
    s.push(c)
}

fn digit_char(d: u32) -> (c: char)
    requires
        d < 10,
    ensures
        c == digit(d as nat),
{
    let b: u8 = 48u8 + (d as u8);
    b as char
}

/// Appends the decimal digits of `n`.
fn write_digits(s: &mut String, n: u128)
    ensures
        final(s)@ == old(s)@ + digits(n as nat),
    decreases n,
{
    if n >= 10 {
        write_digits(s, n / 10);
    }
    let c = digit_char((n % 10) as u32);
    push_char(s, c);
    proof {
        if n < 10 {
            assert(digits(n as nat) == seq![digit(n as nat)]);
        }
    }
    assert(final(s)@ =~= old(s)@ + digits(n as nat)) by {
        if n >= 10 {
            assert(digits(n as nat) == digits((n / 10) as nat).push(digit((n % 10) as nat)));
        }
    }
}

/// The decimal text of `i`.
pub fn decimal_text(i: i128) -> (s: String)
    requires
        i > i128::MIN,
    ensures
        s@ == decimal(i as int),
{
    let mut s = String::new();
    if i < 0 {
        push_char(&mut s, '-');
        write_digits(&mut s, (-i) as u128);
    } else {
        write_digits(&mut s, i as u128);
    }
    s
}

/// The printed form of a value: `#true` and `#false`, decimal integers, characters after
/// `#\`, strings between double quotes, symbols as their name, lists between parentheses
/// with their elements separated by spaces, immutable vectors the same after `#`, pairs
/// as `(car . cdr)`; other values print as a tag between `#<` and `>`.
pub open spec fn display(v: SVal) -> Seq<char>
    decreases v, 1nat,
{
    match v {
        SVal::Void => "#<void>"@,
        SVal::Bool(b) => if b {
            "#true"@
        } else {
            "#false"@
        },
        SVal::Int(i) => decimal(i),
        SVal::Char(c) => "#\\"@.push(c),
        SVal::Str(s) => seq!['"'] + s + seq!['"'],
        SVal::Sym(s) => s,
        SVal::List(items) => seq!['('] + display_items(items) + seq![')'],
        SVal::Vector(items) => "#("@ + display_items(items) + seq![')'],
        SVal::Pair(a, b) => seq!['('] + display(*a) + " . "@ + display(*b) + seq![')'],
        SVal::Num(_) => "#<number>"@,
        SVal::HashMap(_) => "#<hashmap>"@,
        SVal::HashSet(_) => "#<hashset>"@,
        SVal::Bytes(_) => "#<bytevector>"@,
        SVal::MutVector(_) => "#<mutable-vector>"@,
        SVal::Boxed(_) => "#<box>"@,
        SVal::Reducer(_) => "#<reducer>"@,
        SVal::Stream(_, _, _) => "#<stream>"@,
        SVal::Error(_, m, _) => m,
        SVal::Request(..) => "#<request>"@,
        SVal::Response(..) => "#<response>"@,
        SVal::BigNum(i) => decimal(i),
        SVal::Rational(n, d) => decimal(n) + "/"@ + decimal(d),
        SVal::BigRational(n, d) => decimal(n) + "/"@ + decimal(d),
    }
}

/// The printed forms of `items`, separated by single spaces.
pub open spec fn display_items(items: Seq<SVal>) -> Seq<char>
    decreases items, 0nat,
{
    if items.len() == 0 {
        Seq::empty()
    } else if items.len() == 1 {
        display(items[0])
    } else {
        display_items(items.drop_last()) + seq![' '] + display(items.last())
    }
}


/// Appends the printed forms of `items`, separated by single spaces.
fn write_items(s: &mut String, items: &Vec<StahlVal>)
    ensures
        final(s)@ == old(s)@ + display_items(vals(items@)),
    decreases items, 0nat,
{
    let ghost start = s@;
    let ghost a = vals(items@);
    let mut i: usize = 0;
    while i < items.len()
        invariant
            i <= items.len(),
            a == vals(items@),
            s@ == start + display_items(a.take(i as int)),
        decreases items.len() - i,
    {
        proof {
            assert(decreases_to!(items => items@[i as int]));
        }
        if i > 0 {
            push_char(s, ' ');
        }
        let ghost before = s@;
        let t = display_text(&items[i]);
        s.append(t.as_str());
        proof {
            assert(a.take(i + 1).drop_last() =~= a.take(i as int));
            assert(a.take(i + 1).last() == items@[i as int]@);
            if i == 0 {
                assert(a.take(1) =~= seq![a[0]]);
                assert(s@ =~= start + display_items(a.take(1)));
            } else {
                assert(s@ =~= start + display_items(a.take(i + 1)));
            }
        }
        i = i + 1;
    }
    assert(a.take(items@.len() as int) =~= a);
}

/// The printed form of a value.
pub fn display_text(v: &StahlVal) -> (s: String)
    ensures
        s@ == display(v@),
    decreases v, 1nat,
{
    match v {
        StahlVal::Void => String::from_str("#<void>"),
        StahlVal::BoolV(b) => if *b {
            String::from_str("#true")
        } else {
            String::from_str("#false")
        },
        StahlVal::IntV(i) => decimal_text(*i as i128),
        StahlVal::CharV(c) => {
            let mut s = String::from_str("#\\");
            push_char(&mut s, *c);
            s
        },
        StahlVal::StringV(t) => {
            let mut s = String::new();
            push_char(&mut s, '"');
            s.append(t.as_str());
            push_char(&mut s, '"');
            assert(s@ =~= seq!['"'] + t@ + seq!['"']);
            s
        },
        StahlVal::SymbolV(t) => t.clone(),
        StahlVal::ListV(items) => {
            let mut s = String::new();
            push_char(&mut s, '(');
            write_items(&mut s, items);
            push_char(&mut s, ')');
            assert(s@ =~= seq!['('] + display_items(vals(items@)) + seq![')']);
            s
        },
        StahlVal::VectorV(items) => {
            let mut s = String::from_str("#(");
            write_items(&mut s, items);
            push_char(&mut s, ')');
            s
        },
        StahlVal::Pair(p) => {
            let mut s = String::new();
            push_char(&mut s, '(');
            let a = display_text(&p.car);
            s.append(a.as_str());
            s.append(" . ");
            let b = display_text(&p.cdr);
            s.append(b.as_str());
            push_char(&mut s, ')');
            assert(s@ =~= seq!['('] + display(p.car@) + " . "@ + display(p.cdr@) + seq![')']);
            s
        },
        StahlVal::NumV(_) => String::from_str("#<number>"),
        StahlVal::HashMapV(_) => String::from_str("#<hashmap>"),
        StahlVal::HashSetV(_) => String::from_str("#<hashset>"),
        StahlVal::ByteVector(_) => String::from_str("#<bytevector>"),
        StahlVal::MutableVector(_) => String::from_str("#<mutable-vector>"),
        StahlVal::HeapAllocated(_) => String::from_str("#<box>"),
        StahlVal::ReducerV(_) => String::from_str("#<reducer>"),
        StahlVal::StreamV(_) => String::from_str("#<stream>"),
        StahlVal::ErrorV(e) => e.message.clone(),
        StahlVal::RequestV(_) => String::from_str("#<request>"),
        StahlVal::ResponseV(_) => String::from_str("#<response>"),
        StahlVal::BigNum(b) => crate::bignum::big_decimal(b),
        StahlVal::Rational(n, d) => {
            let mut s = decimal_text(*n as i128);
            s.append("/");
            let t = decimal_text(*d as i128);
            s.append(t.as_str());
            s
        },
        StahlVal::BigRational(n, d) => {
            let mut s = crate::bignum::big_decimal(n);
            s.append("/");
            let t = crate::bignum::big_decimal(d);
            s.append(t.as_str());
            s
        },
    }
}

/// What `display` prints of its arguments, one after the other: a string as its text, any
/// other value in its printed form.
pub open spec fn output_text(a: Seq<SVal>) -> Seq<char>
    decreases a.len(),
{
    if a.len() == 0 {
        Seq::empty()
    } else {
        output_text(a.drop_last()) + match a.last() {
            SVal::Str(t) => t,
            v => display(v),
        }
    }
}

/// The text that `display` prints for its arguments.
pub fn display_output(args: &[StahlVal]) -> (s: String)
    ensures
        s@ == output_text(vals(args@)),
{
    let ghost a = vals(args@);
    let mut s = String::new();
    let mut i: usize = 0;
    assert(a.take(0) =~= Seq::<SVal>::empty());
    while i < args.len()
        invariant
            i <= args.len(),
            a == vals(args@),
            s@ == output_text(a.take(i as int)),
        decreases args.len() - i,
    {
        assert(a.take(i + 1).drop_last() =~= a.take(i as int));
        assert(a.take(i + 1).last() == args@[i as int]@);
        match &args[i] {
            StahlVal::StringV(t) => s.append(t.as_str()),
            other => {
                let t = display_text(other);
                s.append(t.as_str());
            },
        }
        i = i + 1;
    }
    assert(a.take(args@.len() as int) =~= a);
    s
}

/// The text that `displayln` prints for its arguments: that of `display`, then a newline.
pub fn displayln_output(args: &[StahlVal]) -> (s: String)
    ensures
        s@ == output_text(vals(args@)).push('\n'),
{
    let mut s = display_output(args);
    push_char(&mut s, '\n');
    s
}

/// The text that `newline` prints: a newline; it takes no arguments.
pub fn newline_output(args: &[StahlVal]) -> (r: Result<String, StahlErr>)
    ensures
        args@.len() == 0 ==> (r matches Ok(s) && s@ == seq!['\n']),
        args@.len() != 0 ==> (r matches Err(e) && e.kind == ErrorKind::ArityMismatch),
{
    if args.len() == 0 {
        let mut s = String::new();
        push_char(&mut s, '\n');
        assert(s@ =~= seq!['\n']);
        Ok(s)
    } else {
        Err(StahlErr::new(ErrorKind::ArityMismatch, String::from_str("newline takes no arguments")))
    }
}

/// Whether a character is white space (the Unicode `White_Space` property, as
/// `char::is_whitespace` has it).
pub open spec fn is_white(c: char) -> bool {
    let n = c as u32;
    (9 <= n <= 13) || n == 32 || n == 0x85 || n == 0xA0 || n == 0x1680 || (0x2000 <= n
        <= 0x200A) || n == 0x2028 || n == 0x2029 || n == 0x202F || n == 0x205F || n == 0x3000
}

/// The text without its trailing white space, as `str::trim_end` gives it.
pub open spec fn trimmed_end(s: Seq<char>) -> Seq<char>
    decreases s.len(),
{
    if s.len() > 0 && is_white(s.last()) {
        trimmed_end(s.drop_last())
    } else {
        s
    }
}

fn white(c: char) -> (b: bool)
    ensures
        b == is_white(c),
{
    let n = c as u32;
    (9 <= n && n <= 13) || n == 32 || n == 0x85 || n == 0xA0 || n == 0x1680 || (0x2000 <= n && n
        <= 0x200A) || n == 0x2028 || n == 0x2029 || n == 0x202F || n == 0x205F || n == 0x3000
}

/// What `read-to-string` gives for a line read from the input: the line as a string,
/// without its trailing white space.
pub fn line_value(line: &str) -> (r: StahlVal)
    ensures
        r@ == SVal::Str(trimmed_end(line@)),
{
    let n = line.unicode_len();
    let mut j: usize = n;
    assert(line@.take(j as int) =~= line@);
    while j > 0 && white(line.get_char(j - 1))
        invariant
            j <= n,
            n == line@.len(),
            trimmed_end(line@) == trimmed_end(line@.take(j as int)),
        decreases j,
    {
        assert(line@.take(j as int).drop_last() =~= line@.take(j - 1));
        j = j - 1;
    }
    let kept = line.substring_char(0, j);
    assert(kept@ =~= line@.take(j as int));
    StahlVal::StringV(String::from_str(kept))
}

/// A fraction prints as its numerator, a slash, then its denominator, each printed as an
/// integer; small and big fractions print alike.
pub proof fn lemma_display_fraction(n: int, d: int)
    ensures
        display(SVal::Rational(n, d)) == display(SVal::Int(n)) + seq!['/'] + display(SVal::Int(d)),
        display(SVal::Rational(n, d)) == display(SVal::BigRational(n, d)),
        display(SVal::Rational(n, d)).subrange(0, decimal(n).len() as int) == display(SVal::Int(n)),
        display(SVal::Rational(n, d))[decimal(n).len() as int] == '/',
{
    reveal_strlit("/");
    let t = decimal(n) + "/"@ + decimal(d);
    assert(t.subrange(0, decimal(n).len() as int) =~= decimal(n));
}

} // verus!
