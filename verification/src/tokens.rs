//! Reading a single token of source text as a runtime value.
use vstd::prelude::*;

use crate::bignum::{big_eq, big_from_isize};
use crate::numbers::{from_fraction, int_of, int_val, normalized};
use crate::values::{BigNumber, ErrorKind, SVal, Span, StahlErr, StahlVal};

verus! {

/// The kind of a bracket.
#[derive(Clone, Copy, Debug, PartialEq, Eq, Structural)]
pub enum Paren {
    Round,
    Square,
    Curly,
}

impl Paren {
    pub open spec fn open_char(self) -> char {
        match self {
            Paren::Round => '(',
            Paren::Square => '[',
            Paren::Curly => '{',
        }
    }

    pub open spec fn close_char(self) -> char {
        match self {
            Paren::Round => ')',
            Paren::Square => ']',
            Paren::Curly => '}',
        }
    }

    /// The opening bracket.
    pub fn open(&self) -> (c: char)
        ensures
            c == self.open_char(),
    {
        match self {
            Paren::Round => '(',
            Paren::Square => '[',
            Paren::Curly => '{',
        }
    }

    /// The closing bracket.
    pub fn close(&self) -> (c: char)
        ensures
            c == self.close_char(),
    {
        match self {
            Paren::Round => ')',
            Paren::Square => ']',
            Paren::Curly => '}',
        }
    }
}

/// A number written in the source: a machine integer, an integer of any size, a fraction, or
/// the bit pattern of a double.
#[derive(Debug)]
pub enum NumberLiteral {
    Int(isize),
    Big(BigNumber),
    Fraction(BigNumber, BigNumber),
    Float(u64),
}

/// A token of source text.
#[derive(Debug)]
pub enum Token {
    OpenParen(Paren),
    CloseParen(Paren),
    CharacterLiteral(char),
    BooleanLiteral(bool),
    Identifier(String),
    Number(NumberLiteral),
    StringLiteral(String),
    Keyword(String),
    QuoteTick,
    Unquote,
    QuasiQuote,
    UnquoteSplice,
    Error,
    Comment,
    DatumComment,
    If,
    Define,
    Let,
    TestLet,
    Return,
    Begin,
    Lambda,
    Quote,
    DefineSyntax,
    SyntaxRules,
    Ellipses,
    SetBang,
    Require,
    QuasiQuoteSyntax,
    UnquoteSyntax,
    QuoteSyntax,
    UnquoteSpliceSyntax,
    Dot,
}

/// A token together with where it stands in the source.
#[derive(Debug)]
pub struct SyntaxObject {
    pub ty: Token,
    pub span: Span,
}

/// What a token reads as: a value, or the text of a token that stands for no value.
pub open spec fn token_value(t: Token) -> Result<SVal, Seq<char>> {
    match t {
        Token::OpenParen(p) => Err(seq![p.open_char()]),
        Token::CloseParen(p) => Err(seq![p.close_char()]),
        Token::CharacterLiteral(c) => Ok(SVal::Char(c)),
        Token::BooleanLiteral(b) => Ok(SVal::Bool(b)),
        Token::Identifier(x) => Ok(SVal::Sym(x@)),
        Token::Number(NumberLiteral::Int(i)) => Ok(SVal::Int(i as int)),
        Token::Number(NumberLiteral::Big(b)) => Ok(int_val(b@)),
        Token::Number(NumberLiteral::Fraction(n, d)) => if d@ != 0 {
            Ok(normalized((n@, d@)))
        } else {
            Err("division by zero"@)
        },
        Token::Number(NumberLiteral::Float(f)) => Ok(SVal::Num(f)),
        Token::StringLiteral(x) => Ok(SVal::Str(x@)),
        Token::Keyword(x) => Ok(SVal::Sym(x@)),
        Token::QuoteTick => Err("'"@),
        Token::Unquote => Err(","@),
        Token::QuasiQuote => Err("`"@),
        Token::UnquoteSplice => Err(",@"@),
        Token::Error => Err("error"@),
        Token::Comment => Err("comment"@),
        Token::DatumComment => Err("#;"@),
        Token::If => Ok(SVal::Sym("if"@)),
        Token::Define => Ok(SVal::Sym("define"@)),
        Token::Let => Ok(SVal::Sym("let"@)),
        Token::TestLet => Ok(SVal::Sym("%plain-let"@)),
        Token::Return => Ok(SVal::Sym("return!"@)),
        Token::Begin => Ok(SVal::Sym("begin"@)),
        Token::Lambda => Ok(SVal::Sym("lambda"@)),
        Token::Quote => Ok(SVal::Sym("quote"@)),
        Token::DefineSyntax => Ok(SVal::Sym("define-syntax"@)),
        Token::SyntaxRules => Ok(SVal::Sym("syntax-rules"@)),
        Token::Ellipses => Ok(SVal::Sym("..."@)),
        Token::SetBang => Ok(SVal::Sym("set!"@)),
        Token::Require => Ok(SVal::Sym("require"@)),
        Token::QuasiQuoteSyntax => Err("#`"@),
        Token::UnquoteSyntax => Err("#,"@),
        Token::QuoteSyntax => Err("#'"@),
        Token::UnquoteSpliceSyntax => Err("#,@"@),
        Token::Dot => Err("."@),
    }
}

fn symbol(name: &str) -> (v: StahlVal)
    ensures
        v@ == SVal::Sym(name@),
{
    StahlVal::SymbolV(String::from_str(name))
}

fn unexpected(text: &str) -> (e: StahlErr)
    ensures
        e.kind == ErrorKind::UnexpectedToken,
        e.message@ == text@,
        e.span is None,
{
    StahlErr::new(ErrorKind::UnexpectedToken, String::from_str(text))
}

fn unexpected_char(c: char) -> (e: StahlErr)
    ensures
        e.kind == ErrorKind::UnexpectedToken,
        e.message@ == seq![c],
        e.span is None,
{
    let mut message = String::new();
    crate::printer::push_char(&mut message, c);
    assert(message@ =~= seq![c]);
    StahlErr::new(ErrorKind::UnexpectedToken, message)
}

/// Reads a token as a value; a token that stands for no value is an unexpected-token error
/// whose message is the token's text.
pub fn token_to_value(t: Token) -> (r: Result<StahlVal, StahlErr>)
    ensures
        match token_value(t) {
            Ok(v) => r matches Ok(x) && x@ == v,
            Err(text) => r matches Err(e) && e.kind == ErrorKind::UnexpectedToken && e.message@
                == text && e.span is None,
        },
{
    proof {
        reveal_strlit("if");
        reveal_strlit("define");
        reveal_strlit("let");
        reveal_strlit("%plain-let");
        reveal_strlit("return!");
        reveal_strlit("begin");
        reveal_strlit("lambda");
        reveal_strlit("quote");
        reveal_strlit("define-syntax");
        reveal_strlit("syntax-rules");
        reveal_strlit("...");
        reveal_strlit("set!");
        reveal_strlit("require");
    }
    match t {
        Token::OpenParen(p) => Err(unexpected_char(p.open())),
        Token::CloseParen(p) => Err(unexpected_char(p.close())),
        Token::CharacterLiteral(x) => Ok(StahlVal::CharV(x)),
        Token::BooleanLiteral(x) => Ok(StahlVal::BoolV(x)),
        Token::Identifier(x) => Ok(StahlVal::SymbolV(x)),
        Token::Number(NumberLiteral::Int(i)) => Ok(StahlVal::IntV(i)),
        Token::Number(NumberLiteral::Big(b)) => Ok(int_of(b)),
        Token::Number(NumberLiteral::Fraction(n, d)) => {
            let zero = big_from_isize(0);
            if big_eq(&d, &zero) {
                Err(unexpected("division by zero"))
            } else {
                Ok(from_fraction(&n, &d))
            }
        },
        Token::Number(NumberLiteral::Float(f)) => Ok(StahlVal::NumV(f)),
        Token::StringLiteral(x) => Ok(StahlVal::StringV(x)),
        Token::Keyword(x) => Ok(StahlVal::SymbolV(x)),
        Token::QuoteTick => Err(unexpected("'")),
        Token::Unquote => Err(unexpected(",")),
        Token::QuasiQuote => Err(unexpected("`")),
        Token::UnquoteSplice => Err(unexpected(",@")),
        Token::Error => Err(unexpected("error")),
        Token::Comment => Err(unexpected("comment")),
        Token::DatumComment => Err(unexpected("#;")),
        Token::If => Ok(symbol("if")),
        Token::Define => Ok(symbol("define")),
        Token::Let => Ok(symbol("let")),
        Token::TestLet => Ok(symbol("%plain-let")),
        Token::Return => Ok(symbol("return!")),
        Token::Begin => Ok(symbol("begin")),
        Token::Lambda => Ok(symbol("lambda")),
        Token::Quote => Ok(symbol("quote")),
        Token::DefineSyntax => Ok(symbol("define-syntax")),
        Token::SyntaxRules => Ok(symbol("syntax-rules")),
        Token::Ellipses => Ok(symbol("...")),
        Token::SetBang => Ok(symbol("set!")),
        Token::Require => Ok(symbol("require")),
        Token::QuasiQuoteSyntax => Err(unexpected("#`")),
        Token::UnquoteSyntax => Err(unexpected("#,")),
        Token::QuoteSyntax => Err(unexpected("#'")),
        Token::UnquoteSpliceSyntax => Err(unexpected("#,@")),
        Token::Dot => Err(unexpected(".")),
    }
}

impl TryFrom<Token> for StahlVal {
    type Error = StahlErr;

    /// The value a token reads as.
    fn try_from(value: Token) -> (r: Result<StahlVal, StahlErr>)
        ensures
            match token_value(value) {
                Ok(v) => r matches Ok(x) && x@ == v,
                Err(text) => r matches Err(e) && e.kind == ErrorKind::UnexpectedToken && e.message@
                    == text && e.span is None,
            },
    {
        token_to_value(value)
    }
}

impl vstd::std_specs::convert::TryFromSpecImpl<Token> for StahlVal {
    /// The contract of `try_from` itself states what it gives.
    open spec fn obeys_try_from_spec() -> bool {
        false
    }

    open spec fn try_from_spec(value: Token) -> Result<StahlVal, StahlErr> {
        arbitrary()
    }
}

impl TryFrom<SyntaxObject> for StahlVal {
    type Error = StahlErr;

    /// The value a token reads as; an error is located at the token's span.
    fn try_from(e: SyntaxObject) -> (r: Result<StahlVal, StahlErr>)
        ensures
            match token_value(e.ty) {
                Ok(v) => r matches Ok(x) && x@ == v,
                Err(text) => r matches Err(err) && err.kind == ErrorKind::UnexpectedToken
                    && err.message@ == text && err.span == Some(e.span),
            },
    {
        let span = e.span;
        match token_to_value(e.ty) {
            Ok(v) => Ok(v),
            Err(err) => Err(err.with_span(span)),
        }
    }
}

impl vstd::std_specs::convert::TryFromSpecImpl<SyntaxObject> for StahlVal {
    /// The contract of `try_from` itself states what it gives.
    open spec fn obeys_try_from_spec() -> bool {
        false
    }

    open spec fn try_from_spec(value: SyntaxObject) -> Result<StahlVal, StahlErr> {
        arbitrary()
    }
}

/// A boolean literal reads as the same boolean: `#true` as true and `#false` as false, so
/// two boolean literals read as equal values exactly when they are the same literal, and the
/// value read prints back as the literal.
pub proof fn lemma_boolean_literal(b: bool, c: bool)
    ensures
        token_value(Token::BooleanLiteral(b)) == Ok::<SVal, Seq<char>>(SVal::Bool(b)),
        token_value(Token::BooleanLiteral(true)) matches Ok(v) && v == SVal::Bool(true),
        token_value(Token::BooleanLiteral(false)) matches Ok(v) && v == SVal::Bool(false),
        (token_value(Token::BooleanLiteral(b)) == token_value(Token::BooleanLiteral(c))) == (b == c),
        token_value(Token::BooleanLiteral(b)) matches Ok(v) && crate::printer::display(v) == if b {
            "#true"@
        } else {
            "#false"@
        },
{
}

/// Literal tokens read as the values they spell: a character as that character, an
/// identifier or a keyword as the symbol of its text, a string literal as the string, a
/// machine integer as that integer; and each value read prints as the token's text (the
/// identifier's own text, the decimal digits of the integer).
pub proof fn lemma_literal_tokens(c: char, x: String, i: isize)
    ensures
        token_value(Token::CharacterLiteral(c)) == Ok::<SVal, Seq<char>>(SVal::Char(c)),
        token_value(Token::Identifier(x)) == Ok::<SVal, Seq<char>>(SVal::Sym(x@)),
        token_value(Token::Keyword(x)) == Ok::<SVal, Seq<char>>(SVal::Sym(x@)),
        token_value(Token::StringLiteral(x)) == Ok::<SVal, Seq<char>>(SVal::Str(x@)),
        token_value(Token::Number(NumberLiteral::Int(i))) == Ok::<SVal, Seq<char>>(SVal::Int(i as int)),
        token_value(Token::Identifier(x)) matches Ok(v) && crate::printer::display(v) == x@,
        token_value(Token::Number(NumberLiteral::Int(i))) matches Ok(v) && crate::printer::display(v)
            == crate::printer::decimal(i as int),
{
}

} // verus!
