use stahl_core::refs::{Either, PrimitiveAsRef, StahlSymbol};
use stahl_core::tokens::{NumberLiteral, Paren, SyntaxObject, Token};
use stahl_core::values::{BigNumber, ErrorKind, Span, StahlHashMap, StahlVal};

#[test]
fn tokens_that_read_as_values() {
    assert_eq!(StahlVal::try_from(Token::Identifier("foo".into())).unwrap(), StahlVal::SymbolV("foo".into()));
    assert_eq!(StahlVal::try_from(Token::Number(NumberLiteral::Int(42))).unwrap(), StahlVal::IntV(42));
    assert_eq!(
        StahlVal::try_from(Token::Number(NumberLiteral::Float(1.5f64.to_bits()))).unwrap(),
        StahlVal::NumV(1.5f64.to_bits())
    );
    assert_eq!(StahlVal::try_from(Token::SetBang).unwrap(), StahlVal::SymbolV("set!".into()));
    assert_eq!(StahlVal::try_from(Token::TestLet).unwrap(), StahlVal::SymbolV("%plain-let".into()));
    assert_eq!(StahlVal::try_from(Token::StringLiteral("s".into())).unwrap(), StahlVal::StringV("s".into()));
}

#[test]
fn tokens_that_read_as_errors() {
    let e = StahlVal::try_from(Token::CloseParen(Paren::Square)).unwrap_err();
    assert_eq!(e.kind, ErrorKind::UnexpectedToken);
    assert_eq!(e.message, "]");
    let e = StahlVal::try_from(Token::UnquoteSpliceSyntax).unwrap_err();
    assert_eq!(e.message, "#,@");
    assert!(e.span.is_none());
    let span = Span { start: 3, end: 4, source_id: Some(1) };
    let e = StahlVal::try_from(SyntaxObject { ty: Token::Dot, span }).unwrap_err();
    assert_eq!(e.message, ".");
    assert_eq!(e.span, Some(span));
    let ok = StahlVal::try_from(SyntaxObject { ty: Token::Lambda, span }).unwrap();
    assert_eq!(ok, StahlVal::SymbolV("lambda".into()));
}

#[test]
fn borrowing_payloads() {
    let v = StahlVal::IntV(7);
    assert_eq!(<isize as PrimitiveAsRef>::primitive_as_ref(&v).unwrap(), 7);
    let e = <char as PrimitiveAsRef>::primitive_as_ref(&v).unwrap_err();
    assert_eq!(e.kind, ErrorKind::ConversionError);
    assert_eq!(e.message, "Cannot convert stahl value: 7 to stahl character");
    let s = StahlVal::StringV("x".into());
    assert_eq!(<&String as PrimitiveAsRef>::primitive_as_ref(&s).unwrap(), "x");
    assert_eq!(<&String as PrimitiveAsRef>::primitive_as_ref(&v).unwrap_err().kind, ErrorKind::TypeMismatch);
    let sym = StahlVal::SymbolV("y".into());
    let got = <StahlSymbol as PrimitiveAsRef>::primitive_as_ref(&sym).unwrap();
    assert_eq!(got.0, "y");
    let m = StahlVal::HashMapV(StahlHashMap { entries: vec![] });
    assert!(<&StahlHashMap as PrimitiveAsRef>::maybe_primitive_as_ref(&m).is_some());
    assert!(<&StahlHashMap as PrimitiveAsRef>::maybe_primitive_as_ref(&v).is_none());
}

#[test]
fn either_prefers_the_left() {
    let c = StahlVal::CharV('z');
    match <Either<char, isize> as PrimitiveAsRef>::primitive_as_ref(&c).unwrap() {
        Either::Left(x) => assert_eq!(x, 'z'),
        Either::Right(_) => panic!("expected the left side"),
    }
    let i = StahlVal::IntV(3);
    match <Either<char, isize> as PrimitiveAsRef>::primitive_as_ref(&i).unwrap() {
        Either::Right(x) => assert_eq!(x, 3),
        Either::Left(_) => panic!("expected the right side"),
    }
    let b = StahlVal::BoolV(true);
    let e = <Either<char, isize> as PrimitiveAsRef>::primitive_as_ref(&b).err().unwrap();
    assert_eq!(e.kind, ErrorKind::ConversionError);
}

#[test]
fn big_and_fraction_literals() {
    let big = BigNumber { negative: false, digits: vec![0, 0, 1] };
    let v = StahlVal::try_from(Token::Number(NumberLiteral::Big(big))).unwrap();
    assert!(matches!(v, StahlVal::BigNum(_)));
    let small = BigNumber { negative: true, digits: vec![5] };
    assert_eq!(StahlVal::try_from(Token::Number(NumberLiteral::Big(small))).unwrap(), StahlVal::IntV(-5));
    let n = BigNumber { negative: false, digits: vec![6] };
    let d = BigNumber { negative: false, digits: vec![4] };
    assert_eq!(StahlVal::try_from(Token::Number(NumberLiteral::Fraction(n, d))).unwrap(), StahlVal::Rational(3, 2));
    let n = BigNumber { negative: false, digits: vec![1] };
    let z = BigNumber { negative: false, digits: vec![] };
    let e = StahlVal::try_from(Token::Number(NumberLiteral::Fraction(n, z))).unwrap_err();
    assert_eq!(e.kind, ErrorKind::UnexpectedToken);
}
