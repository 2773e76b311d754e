use vstd::prelude::*;

use crate::error::{ErrorKind, SchemeError};
use crate::tokenizer::{tokens_model, SToken, Token};
use crate::types::{items_model, Atom, Exp, SExp};

verus! {

/// The expression that starts at token `i`, and the position after it.
pub open spec fn parse_s(ts: Seq<SToken>, i: int) -> Result<(SExp, int), ErrorKind>
    decreases ts.len() - i, 0nat,
{
    if i < 0 || i >= ts.len() {
        Err(ErrorKind::UnexpectedEof)
    } else {
        match ts[i] {
            SToken::Start => items_s(ts, i + 1, Seq::empty()),
            SToken::End => Err(ErrorKind::UnmatchedDelimiter),
            SToken::Dot => Err(ErrorKind::InvalidToken),
            SToken::Quote => match parse_s(ts, i + 1) {
                Ok((e, j)) => Ok((SExp::Quote(Box::new(e)), j)),
                Err(k) => Err(k),
            },
            SToken::Lit(v) => Ok((v, i + 1)),
        }
    }
}

/// The rest of a list whose items so far are `acc`, from token `i` on: a `)`
/// closes a proper list, and `. tail )` closes a dotted one.
pub open spec fn items_s(ts: Seq<SToken>, i: int, acc: Seq<SExp>) -> Result<(SExp, int), ErrorKind>
    decreases ts.len() - i, 1nat,
{
    if i < 0 || i >= ts.len() {
        Err(ErrorKind::UnexpectedEof)
    } else {
        match ts[i] {
            SToken::End => Ok((SExp::List(acc), i + 1)),
            SToken::Dot => match parse_s(ts, i + 1) {
                Err(k) => Err(k),
                Ok((tail, j)) => if j >= ts.len() {
                    Err(ErrorKind::UnexpectedEof)
                } else if ts[j] is End {
                    Ok((SExp::ImpList(acc.push(tail)), j + 1))
                } else {
                    Err(ErrorKind::UnmatchedDelimiter)
                },
            },
            _ => match parse_s(ts, i) {
                Err(k) => Err(k),
                Ok((e, j)) => if i < j <= ts.len() {
                    items_s(ts, j, acc.push(e))
                } else {
                    Err(ErrorKind::InvalidToken)
                },
            },
        }
    }
}

/// Every expression from token `i` on, appended to `acc`.
pub open spec fn parse_all_s(ts: Seq<SToken>, i: int, acc: Seq<SExp>) -> Result<Seq<SExp>, ErrorKind>
    decreases ts.len() - i,
{
    if i < 0 || i >= ts.len() {
        Ok(acc)
    } else {
        match parse_s(ts, i) {
            Err(k) => Err(k),
            Ok((e, j)) => if i < j <= ts.len() {
                parse_all_s(ts, j, acc.push(e))
            } else {
                Err(ErrorKind::InvalidToken)
            },
        }
    }
}

/// Parses the expression that starts at token `i`.
pub fn parse(ts: &Vec<Token>, i: usize) -> (r: Result<(Exp, usize), SchemeError>)
    ensures
        match r {
            Ok((e, j)) => i < j <= ts@.len() && parse_s(tokens_model(ts@), i as int) == Ok::<
                (SExp, int),
                ErrorKind,
            >((e.model(), j as int)),
            Err(x) => parse_s(tokens_model(ts@), i as int) == Err::<(SExp, int), ErrorKind>(x.kind),
        },
    decreases ts@.len() - i, 0nat,
{
    let ghost m = tokens_model(ts@);
    if i >= ts.len() {
        return Err(SchemeError::simple(ErrorKind::UnexpectedEof, "Unexpected EOF while parsing"));
    }
    assert(m[i as int] == ts@[i as int].model());
    match &ts[i] {
        Token::StartExp => parse_list(ts, i + 1),
        Token::EndExp => Err(SchemeError::simple(ErrorKind::UnmatchedDelimiter, "Unmatched ')'")),
        Token::Dot => Err(SchemeError::simple(ErrorKind::InvalidToken, "Unbound pair")),
        Token::Quote => match parse(ts, i + 1) {
            Ok((e, j)) => {
                let a = Atom::Quote(Box::new(e));
                let q = Exp::Atom(a);
                assert(q.model() == a.model());
                Ok((q, j))
            },
            Err(x) => Err(x),
        },
        Token::Literal(a) => {
            let c = a.duplicate();
            let e = Exp::Atom(c);
            assert(e.model() == c.model());
            Ok((e, i + 1))
        },
    }
}

/// Parses the rest of a list whose first item is at token `i`.
fn parse_list(ts: &Vec<Token>, i: usize) -> (r: Result<(Exp, usize), SchemeError>)
    requires
        i <= ts@.len(),
    ensures
        match r {
            Ok((e, j)) => i < j <= ts@.len() && items_s(tokens_model(ts@), i as int, Seq::empty())
                == Ok::<(SExp, int), ErrorKind>((e.model(), j as int)),
            Err(x) => items_s(tokens_model(ts@), i as int, Seq::empty()) == Err::<
                (SExp, int),
                ErrorKind,
            >(x.kind),
        },
    decreases ts@.len() - i, 1nat,
{
    let ghost m = tokens_model(ts@);
    let mut items: Vec<Exp> = Vec::new();
    assert(items_model(items@) =~= Seq::<SExp>::empty());
    let mut k = i;
    while k < ts.len()
        invariant
            i <= k <= ts@.len(),
            m == tokens_model(ts@),
            items_s(m, i as int, Seq::empty()) == items_s(m, k as int, items_model(items@)),
        decreases ts@.len() - k,
    {
        assert(m[k as int] == ts@[k as int].model());
        match &ts[k] {
            Token::EndExp => {
                let e = Exp::List(items);
                assert(e.model()->List_0 =~= items_model(items@));
                return Ok((e, k + 1));
            },
            Token::Dot => {
                let (tail, j) = parse(ts, k + 1)?;
                if j >= ts.len() {
                    return Err(SchemeError::simple(ErrorKind::UnexpectedEof, "Unexpected EOF while parsing"));
                }
                assert(m[j as int] == ts@[j as int].model());
                match &ts[j] {
                    Token::EndExp => {
                        let ghost before = items_model(items@);
                        items.push(tail);
                        let e = Exp::ImpList(items);
                        assert(e.model()->ImpList_0 =~= before.push(tail.model()));
                        return Ok((e, j + 1));
                    },
                    _ => {
                        return Err(SchemeError::simple(ErrorKind::UnmatchedDelimiter, "'.' missing ')'"));
                    },
                }
            },
            _ => {
                let (e, j) = parse(ts, k)?;
                let ghost before = items_model(items@);
                items.push(e);
                assert(items_model(items@) =~= before.push(e.model()));
                k = j;
            },
        }
    }
    Err(SchemeError::simple(ErrorKind::UnexpectedEof, "Unexpected EOF while parsing"))
}

/// Parses every expression of a token sequence.
pub fn parse_all(ts: &Vec<Token>) -> (r: Result<Vec<Exp>, SchemeError>)
    ensures
        match r {
            Ok(v) => parse_all_s(tokens_model(ts@), 0, Seq::empty()) == Ok::<Seq<SExp>, ErrorKind>(
                items_model(v@),
            ),
            Err(x) => parse_all_s(tokens_model(ts@), 0, Seq::empty()) == Err::<Seq<SExp>, ErrorKind>(
                x.kind,
            ),
        },
{
    let ghost m = tokens_model(ts@);
    let mut out: Vec<Exp> = Vec::new();
    assert(items_model(out@) =~= Seq::<SExp>::empty());
    let mut k: usize = 0;
    while k < ts.len()
        invariant
            k <= ts@.len(),
            m == tokens_model(ts@),
            parse_all_s(m, 0, Seq::empty()) == parse_all_s(m, k as int, items_model(out@)),
        decreases ts@.len() - k,
    {
        let (e, j) = parse(ts, k)?;
        let ghost before = items_model(out@);
        out.push(e);
        assert(items_model(out@) =~= before.push(e.model()));
        k = j;
    }
    Ok(out)
}

} // verus!
