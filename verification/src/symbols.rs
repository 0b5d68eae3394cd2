//! Symbol primitives.
use vstd::prelude::*;

use crate::errors::{fail, outcome};
use crate::printer::{display, display_text};
use crate::values::{vals, ErrorKind, SVal, StahlErr, StahlVal};

verus! {

broadcast use crate::values::group_vals;

/// The concatenated names of the symbols `a`, if they all are symbols.
pub open spec fn concat_names(a: Seq<SVal>) -> Option<Seq<char>>
    decreases a.len(),
{
    if a.len() == 0 {
        Some(Seq::empty())
    } else {
        match (concat_names(a.drop_last()), a.last()) {
            (Some(s), SVal::Sym(t)) => Some(s + t),
            _ => None,
        }
    }
}

proof fn lemma_concat_prefix(a: Seq<SVal>, k: nat)
    requires
        k <= a.len(),
        concat_names(a.take(k as int)) is None,
    ensures
        concat_names(a) is None,
    decreases a.len() - k,
{
    if k < a.len() {
        assert(a.take(k + 1 as int).drop_last() =~= a.take(k as int));
        lemma_concat_prefix(a, k + 1);
    } else {
        assert(a.take(k as int) =~= a);
    }
}

/// Whether the symbols `a` all have the name `t`: false at the first other name, a
/// conversion error at the first argument before it that is no symbol.
pub open spec fn same_names(a: Seq<SVal>, t: Seq<char>) -> Result<bool, ErrorKind>
    decreases a.len(),
{
    if a.len() == 0 {
        Ok(true)
    } else {
        match a[0] {
            SVal::Sym(x) => if x == t {
                same_names(a.drop_first(), t)
            } else {
                Ok(false)
            },
            _ => Err(ErrorKind::ConversionError),
        }
    }
}

/// `symbol=?`: whether all the arguments, symbols, have the same name.
pub open spec fn symbol_equals_result(a: Seq<SVal>) -> Result<SVal, ErrorKind> {
    if a.len() == 0 {
        Err(ErrorKind::ArityMismatch)
    } else {
        match a[0] {
            SVal::Sym(t) => match same_names(a.drop_first(), t) {
                Ok(b) => Ok(SVal::Bool(b)),
                Err(k) => Err(k),
            },
            _ => Err(ErrorKind::ConversionError),
        }
    }
}

/// `symbol=?`. Symbols with the same name are the same symbol.
pub fn symbol_equals(args: &[StahlVal]) -> (r: Result<StahlVal, StahlErr>)
    ensures
        outcome(r) == symbol_equals_result(vals(args@)),
{
    if args.len() == 0 {
        return fail(ErrorKind::ArityMismatch, "expected at least one argument");
    }
    let ghost a = vals(args@);
    let first = match &args[0] {
        StahlVal::SymbolV(s) => s,
        _ => {
            return fail(ErrorKind::ConversionError, "Cannot convert stahl value to stahl symbol");
        },
    };
    let mut i: usize = 1;
    assert(a.skip(1) =~= a.drop_first());
    while i < args.len()
        invariant
            1 <= i <= args.len(),
            a == vals(args@),
            a[0] == SVal::Sym(first@),
            same_names(a.drop_first(), first@) == same_names(a.skip(i as int), first@),
        decreases args.len() - i,
    {
        assert(a.skip(i as int)[0] == args@[i as int]@);
        assert(a.skip(i as int).drop_first() =~= a.skip(i + 1));
        match &args[i] {
            StahlVal::SymbolV(s) => {
                if *s != *first {
                    return Ok(StahlVal::BoolV(false));
                }
            },
            _ => {
                return fail(ErrorKind::ConversionError, "Cannot convert stahl value to stahl symbol");
            },
        }
        i = i + 1;
    }
    assert(a.skip(i as int).len() == 0);
    Ok(StahlVal::BoolV(true))
}

pub struct SymbolOperations {}

impl SymbolOperations {
    /// `concat-symbols`: the symbol named by the names of the arguments, all symbols, one
    /// after the other.
    pub fn concat_symbols(args: &[StahlVal]) -> (r: Result<StahlVal, StahlErr>)
        ensures
            outcome(r) == match concat_names(vals(args@)) {
                Some(s) => Ok::<SVal, ErrorKind>(SVal::Sym(s)),
                None => Err(ErrorKind::TypeMismatch),
            },
    {
        let ghost a = vals(args@);
        let mut name = String::new();
        let mut i: usize = 0;
        assert(concat_names(a.take(0)) == Some(Seq::<char>::empty()));
        while i < args.len()
            invariant
                i <= args.len(),
                a == vals(args@),
                concat_names(a.take(i as int)) == Some(name@),
            decreases args.len() - i,
        {
            assert(a.take(i + 1).drop_last() =~= a.take(i as int));
            assert(a.take(i + 1).last() == args@[i as int]@);
            match &args[i] {
                StahlVal::SymbolV(s) => {
                    name.append(s.as_str());
                },
                _ => {
                    proof {
                        lemma_concat_prefix(a, (i + 1) as nat);
                    }
                    return fail(ErrorKind::TypeMismatch, "concat-symbol expected only symbols");
                },
            }
            i = i + 1;
        }
        assert(a.take(args@.len() as int) =~= a);
        Ok(StahlVal::SymbolV(name))
    }

    /// `symbol->string`: the name of a symbol, or the printed form of a list.
    pub fn symbol_to_string(args: &[StahlVal]) -> (r: Result<StahlVal, StahlErr>)
        ensures
            outcome(r) == if args@.len() != 1 {
                Err(ErrorKind::ArityMismatch)
            } else {
                match args@[0]@ {
                    SVal::Sym(s) => Ok::<SVal, ErrorKind>(SVal::Str(s)),
                    SVal::List(_) => Ok(SVal::Str(display(args@[0]@))),
                    _ => Err(ErrorKind::TypeMismatch),
                }
            },
    {
        if args.len() == 1 {
            match &args[0] {
                StahlVal::SymbolV(s) => Ok(StahlVal::StringV(s.clone())),
                StahlVal::ListV(_) => Ok(StahlVal::StringV(display_text(&args[0]))),
                _ => fail(ErrorKind::TypeMismatch, "symbol->string expected a symbol"),
            }
        } else {
            fail(ErrorKind::ArityMismatch, "symbol->string expects only one argument")
        }
    }
}

} // verus!
