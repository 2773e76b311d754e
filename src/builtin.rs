use vstd::prelude::*;

use crate::environment::{define, Env, SFrame, Store};
use crate::error::{arity_message, arity_ok, validate_num_args, ErrorKind, SchemeError};
use crate::rational::{rat_add, rat_div, rat_lt, rat_messages, rat_mul, rat_result, rat_sub, Rational};
use crate::text::{builtin_name, show, to_text};
use crate::types::{
    exp_eq, items_model, nil, outcome, strings_model, Atom, Builtin, Exp, Function, SExp,
};

verus! {

/// Every builtin, in the order the root scope binds them.
pub open spec fn all_builtins() -> Seq<Builtin> {
    seq![
        Builtin::Display,
        Builtin::Newline,
        Builtin::Add,
        Builtin::Sub,
        Builtin::Mul,
        Builtin::Div,
        Builtin::NumEq,
        Builtin::Lt,
        Builtin::Gt,
        Builtin::Lte,
        Builtin::Gte,
        Builtin::List,
        Builtin::Cons,
        Builtin::Car,
        Builtin::Cdr,
        Builtin::IsNumber,
        Builtin::IsSymbol,
        Builtin::IsEmpty,
        Builtin::IsFunction,
        Builtin::IsSpecialForm,
        Builtin::IsQuote,
        Builtin::IsBoolean,
    ]
}

/// The root scope: each builtin bound to its canonical name.
pub open spec fn root_frame() -> SFrame {
    SFrame {
        names: all_builtins().map_values(|b: Builtin| builtin_name(b)),
        values: all_builtins().map_values(|b: Builtin| SExp::Prim(b)),
        parent: None,
    }
}

/// The state that holds only the root scope, with the first `i` builtins
/// defined in it in order.
pub open spec fn root_store(i: nat) -> Store
    decreases i,
{
    if i == 0 {
        Store {
            frames: seq![SFrame { names: Seq::empty(), values: Seq::empty(), parent: None }],
            out: Seq::empty(),
        }
    } else {
        define(
            root_store((i - 1) as nat),
            0,
            root_frame().names[i - 1],
            root_frame().values[i - 1],
        )
    }
}

/// The names and values of the root scope.
pub fn builtins_map() -> (r: (Vec<String>, Vec<Exp>))
    ensures
        strings_model(r.0@) == root_frame().names,
        items_model(r.1@) == root_frame().values,
{
    let all = vec![
        Builtin::Display,
        Builtin::Newline,
        Builtin::Add,
        Builtin::Sub,
        Builtin::Mul,
        Builtin::Div,
        Builtin::NumEq,
        Builtin::Lt,
        Builtin::Gt,
        Builtin::Lte,
        Builtin::Gte,
        Builtin::List,
        Builtin::Cons,
        Builtin::Car,
        Builtin::Cdr,
        Builtin::IsNumber,
        Builtin::IsSymbol,
        Builtin::IsEmpty,
        Builtin::IsFunction,
        Builtin::IsSpecialForm,
        Builtin::IsQuote,
        Builtin::IsBoolean,
    ];
    assert(all@ =~= all_builtins());
    let mut names: Vec<String> = Vec::new();
    let mut values: Vec<Exp> = Vec::new();
    let mut i: usize = 0;
    while i < all.len()
        invariant
            i <= all@.len(),
            all@ == all_builtins(),
            names@.len() == i,
            values@.len() == i,
            forall|j: int| 0 <= j < i ==> (#[trigger] names@[j])@ == builtin_name(all@[j]),
            forall|j: int| 0 <= j < i ==> (#[trigger] values@[j]).model() == SExp::Prim(all@[j]),
        decreases all@.len() - i,
    {
        let b = all[i];
        names.push(crate::error::text(b.name()));
        let a = Atom::Function(Function::Builtin(b));
        let e = Exp::Atom(a);
        assert(e.model() == a.model());
        values.push(e);
        i += 1;
    }
    assert(strings_model(names@) =~= root_frame().names);
    assert(items_model(values@) =~= root_frame().values);
    (names, values)
}

/// The bounds on the number of arguments of each builtin, as `validate_num_args`
/// takes them.
pub open spec fn arity_of(b: Builtin) -> (usize, usize) {
    match b {
        Builtin::Newline => (0, 0),
        Builtin::Add | Builtin::Mul | Builtin::List => (0, usize::MAX),
        Builtin::Sub => (1, usize::MAX),
        Builtin::Div | Builtin::NumEq | Builtin::Lt | Builtin::Gt | Builtin::Lte | Builtin::Gte
        | Builtin::Cons => (2, 2),
        _ => (1, 1),
    }
}

pub open spec fn rat_op(op: Builtin, a: Rational, b: Rational) -> Result<Rational, ErrorKind> {
    match op {
        Builtin::Add => rat_add(a, b),
        Builtin::Sub => rat_sub(a, b),
        _ => rat_mul(a, b),
    }
}

/// Combines `acc` with the numbers from position `i` on, left to right.
pub open spec fn fold_s(op: Builtin, args: Seq<SExp>, i: int, acc: Rational) -> Result<
    Rational,
    ErrorKind,
>
    decreases args.len() - i,
{
    if i < 0 || i >= args.len() {
        Ok(acc)
    } else {
        match args[i] {
            SExp::Num(x) => match rat_op(op, acc, x) {
                Ok(a) => fold_s(op, args, i + 1, a),
                Err(k) => Err(k),
            },
            _ => Err(ErrorKind::TypeMismatch),
        }
    }
}

pub open spec fn num_result(r: Result<Rational, ErrorKind>) -> Result<SExp, ErrorKind> {
    match r {
        Ok(q) => Ok(SExp::Num(q)),
        Err(k) => Err(k),
    }
}

pub open spec fn compare_s(b: Builtin, x: Rational, y: Rational) -> bool {
    match b {
        Builtin::Lt => rat_lt(x, y),
        Builtin::Gt => rat_lt(y, x),
        Builtin::Lte => !rat_lt(y, x),
        _ => !rat_lt(x, y),
    }
}

/// What a type predicate says of a value.
pub open spec fn predicate_s(b: Builtin, v: SExp) -> bool {
    match b {
        Builtin::IsNumber => v is Num,
        Builtin::IsSymbol => v is Sym,
        Builtin::IsFunction => v is Prim || v is Lambda,
        Builtin::IsSpecialForm => v is Form,
        Builtin::IsQuote => v is Quote,
        _ => v is Bool,
    }
}

pub open spec fn is_list_like(v: SExp) -> bool {
    v is List || v is ImpList
}

/// The result of a builtin other than `display` and `newline` on evaluated
/// arguments; those two return `nil` and write to the output.
pub open spec fn prim_s(b: Builtin, args: Seq<SExp>) -> Result<SExp, ErrorKind> {
    let (min, max) = arity_of(b);
    if !arity_ok(args.len(), min, max) {
        Err(ErrorKind::Arity { min, max, found: args.len() as usize })
    } else {
        match b {
            Builtin::Display | Builtin::Newline => Ok(nil()),
            Builtin::Add => num_result(fold_s(b, args, 0, Rational { numerator: 0, denominator: 1 })),
            Builtin::Mul => num_result(fold_s(b, args, 0, Rational { numerator: 1, denominator: 1 })),
            Builtin::Sub => match args[0] {
                SExp::Num(x) => if args.len() == 1 {
                    num_result(rat_mul(x, Rational { numerator: -1i64, denominator: 1 }))
                } else {
                    num_result(fold_s(b, args, 1, x))
                },
                _ => Err(ErrorKind::TypeMismatch),
            },
            Builtin::Div => match (args[0], args[1]) {
                (SExp::Num(x), SExp::Num(y)) => num_result(rat_div(x, y)),
                _ => Err(ErrorKind::TypeMismatch),
            },
            Builtin::NumEq => Ok(SExp::Bool(args[0] == args[1])),
            Builtin::Lt | Builtin::Gt | Builtin::Lte | Builtin::Gte => match (args[0], args[1]) {
                (SExp::Num(x), SExp::Num(y)) => Ok(SExp::Bool(compare_s(b, x, y))),
                _ => Err(ErrorKind::TypeMismatch),
            },
            Builtin::List => Ok(SExp::List(args)),
            Builtin::Cons => match args[1] {
                SExp::List(l) => Ok(SExp::List(seq![args[0]] + l)),
                SExp::ImpList(l) => Ok(SExp::ImpList(seq![args[0]] + l)),
                _ => Ok(SExp::ImpList(seq![args[0], args[1]])),
            },
            Builtin::Car => match args[0] {
                SExp::List(l) => if l.len() > 0 {
                    Ok(l[0])
                } else {
                    Err(ErrorKind::EmptyList)
                },
                SExp::ImpList(l) => if l.len() > 0 {
                    Ok(l[0])
                } else {
                    Err(ErrorKind::EmptyList)
                },
                _ => Err(ErrorKind::TypeMismatch),
            },
            Builtin::Cdr => match args[0] {
                SExp::List(l) => if l.len() > 0 {
                    Ok(SExp::List(l.drop_first()))
                } else {
                    Err(ErrorKind::EmptyList)
                },
                SExp::ImpList(l) => if l.len() <= 1 {
                    Err(ErrorKind::EmptyList)
                } else if l.len() == 2 {
                    Ok(l[1])
                } else {
                    Ok(SExp::ImpList(l.drop_first()))
                },
                _ => Err(ErrorKind::TypeMismatch),
            },
            Builtin::IsEmpty => match args[0] {
                SExp::List(l) => Ok(SExp::Bool(l.len() == 0)),
                _ => Err(ErrorKind::ExpectedList),
            },
            _ => if is_list_like(args[0]) {
                Err(ErrorKind::ExpectedAtom)
            } else {
                Ok(SExp::Bool(predicate_s(b, args[0])))
            },
        }
    }
}

/// The messages of a builtin's errors: an arity error names the builtin, its
/// bounds and the count found; `car` and `cdr` say when the list was empty;
/// a division by zero says so.
pub open spec fn messages_s(b: Builtin, args: Seq<SExp>, r: Result<Exp, SchemeError>) -> bool {
    match r {
        Ok(_) => true,
        Err(e) => {
            &&& e.kind is Arity ==> e.message@ == arity_message(
                builtin_name(b),
                arity_of(b).0,
                arity_of(b).1,
                args.len() as usize,
            )
            &&& (e.kind == ErrorKind::EmptyList && b == Builtin::Car) ==> e.message@
                == "car called on empty list"@
            &&& (e.kind == ErrorKind::EmptyList && b == Builtin::Cdr) ==> e.message@
                == "cdr called on empty list"@
            &&& e.kind == ErrorKind::DivideByZero ==> e.message@ == "Divide by zero"@
        },
    }
}

/// A builtin applied to evaluated arguments: its result, and the state after it.
pub open spec fn builtin_s(b: Builtin, args: Seq<SExp>, st: Store) -> (Store, Result<SExp, ErrorKind>) {
    let r = prim_s(b, args);
    if r is Ok && b == Builtin::Display {
        (Store { frames: st.frames, out: st.out + show(args[0]) }, r)
    } else if r is Ok && b == Builtin::Newline {
        (Store { frames: st.frames, out: st.out + "\n"@ }, r)
    } else {
        (st, r)
    }
}

fn number_of(e: &Exp) -> (r: Option<Rational>)
    ensures
        match r {
            Some(q) => e.model() == SExp::Num(q),
            None => !(e.model() is Num),
        },
{
    match e {
        Exp::Atom(Atom::Number(q)) => {
            assert(e.model() == e->Atom_0.model());
            Some(*q)
        },
        Exp::Atom(a) => {
            assert(e.model() == a.model());
            None
        },
        _ => None,
    }
}

fn fold_numbers(op: Builtin, args: &Vec<Exp>, start: usize, init: Rational) -> (r: Result<
    Rational,
    SchemeError,
>)
    ensures
        rat_result(r) == fold_s(op, items_model(args@), start as int, init),
        match r {
            Ok(_) => true,
            Err(e) => {
                &&& !(e.kind is Arity)
                &&& e.kind == ErrorKind::DivideByZero ==> e.message@ == "Divide by zero"@
            },
        },
{
    let ghost m = items_model(args@);
    let mut acc = init;
    let mut i = start;
    if i > args.len() {
        return Ok(acc);
    }
    while i < args.len()
        invariant
            start <= i <= args@.len(),
            m == items_model(args@),
            fold_s(op, m, start as int, init) == fold_s(op, m, i as int, acc),
        decreases args@.len() - i,
    {
        match number_of(&args[i]) {
            Some(x) => {
                let step = match op {
                    Builtin::Add => acc.add(&x),
                    Builtin::Sub => acc.sub(&x),
                    _ => acc.mul(&x),
                };
                match step {
                    Ok(a) => {
                        acc = a;
                    },
                    Err(e) => {
                        return Err(e);
                    },
                }
            },
            None => {
                return Err(
                    SchemeError::new(
                        ErrorKind::TypeMismatch,
                        crate::error::text(op.name()).concat(" expects a number, found ").concat(
                            to_text(&args[i]).as_str(),
                        ),
                    ),
                );
            },
        }
        i += 1;
    }
    Ok(acc)
}

fn arith_error(name: &str, found: &Exp) -> (r: SchemeError)
    ensures
        r.kind == ErrorKind::TypeMismatch,
{
    SchemeError::new(
        ErrorKind::TypeMismatch,
        crate::error::text(name).concat(" expects a number, found ").concat(to_text(found).as_str()),
    )
}

fn number_exp(r: Result<Rational, SchemeError>) -> (e: Result<Exp, SchemeError>)
    ensures
        outcome(e) == num_result(rat_result(r)),
        rat_messages(r) ==> match e {
            Ok(_) => true,
            Err(x) => {
                &&& !(x.kind is Arity)
                &&& x.kind == ErrorKind::DivideByZero ==> x.message@ == "Divide by zero"@
                &&& x.kind == ErrorKind::Overflow ==> x.message@ == "Number out of range"@
            },
        },
{
    match r {
        Ok(q) => {
            let a = Atom::Number(q);
            let e = Exp::Atom(a);
            assert(e.model() == a.model());
            Ok(e)
        },
        Err(x) => Err(x),
    }
}

fn bool_exp(b: bool) -> (e: Exp)
    ensures
        e.model() == SExp::Bool(b),
{
    let a = Atom::Boolean(b);
    let e = Exp::Atom(a);
    assert(e.model() == a.model());
    e
}

pub fn add(args: &Vec<Exp>) -> (r: Result<Exp, SchemeError>)
    ensures
        outcome(r) == prim_s(Builtin::Add, items_model(args@)),
        messages_s(Builtin::Add, items_model(args@), r),
{
    number_exp(fold_numbers(Builtin::Add, args, 0, Rational::from_int(0)))
}

pub fn mul(args: &Vec<Exp>) -> (r: Result<Exp, SchemeError>)
    ensures
        outcome(r) == prim_s(Builtin::Mul, items_model(args@)),
        messages_s(Builtin::Mul, items_model(args@), r),
{
    number_exp(fold_numbers(Builtin::Mul, args, 0, Rational::from_int(1)))
}

pub fn sub(args: &Vec<Exp>) -> (r: Result<Exp, SchemeError>)
    ensures
        outcome(r) == prim_s(Builtin::Sub, items_model(args@)),
        messages_s(Builtin::Sub, items_model(args@), r),
{
    validate_num_args("-", args.as_slice(), 1, usize::MAX)?;
    match number_of(&args[0]) {
        Some(x) => {
            if args.len() == 1 {
                number_exp(x.mul(&Rational::from_int(-1)))
            } else {
                number_exp(fold_numbers(Builtin::Sub, args, 1, x))
            }
        },
        None => Err(arith_error("-", &args[0])),
    }
}

pub fn div(args: &Vec<Exp>) -> (r: Result<Exp, SchemeError>)
    ensures
        outcome(r) == prim_s(Builtin::Div, items_model(args@)),
        messages_s(Builtin::Div, items_model(args@), r),
{
    validate_num_args("/", args.as_slice(), 2, 2)?;
    match (number_of(&args[0]), number_of(&args[1])) {
        (Some(x), Some(y)) => number_exp(x.div(&y)),
        (None, _) => Err(arith_error("/", &args[0])),
        (_, None) => Err(arith_error("/", &args[1])),
    }
}

pub fn eq(args: &Vec<Exp>) -> (r: Result<Exp, SchemeError>)
    ensures
        outcome(r) == prim_s(Builtin::NumEq, items_model(args@)),
        messages_s(Builtin::NumEq, items_model(args@), r),
{
    validate_num_args("=", args.as_slice(), 2, 2)?;
    Ok(bool_exp(exp_eq(&args[0], &args[1])))
}

fn compare(b: Builtin, args: &Vec<Exp>) -> (r: Result<Exp, SchemeError>)
    requires
        b is Lt || b is Gt || b is Lte || b is Gte,
    ensures
        outcome(r) == prim_s(b, items_model(args@)),
        messages_s(b, items_model(args@), r),
{
    validate_num_args(b.name(), args.as_slice(), 2, 2)?;
    match (number_of(&args[0]), number_of(&args[1])) {
        (Some(x), Some(y)) => {
            let v = match b {
                Builtin::Lt => x.less_than(&y),
                Builtin::Gt => y.less_than(&x),
                Builtin::Lte => !y.less_than(&x),
                _ => !x.less_than(&y),
            };
            Ok(bool_exp(v))
        },
        _ => Err(
            SchemeError::new(
                ErrorKind::TypeMismatch,
                crate::error::text(b.name()).concat(" can only compare numbers"),
            ),
        ),
    }
}

pub fn lt(args: &Vec<Exp>) -> (r: Result<Exp, SchemeError>)
    ensures
        outcome(r) == prim_s(Builtin::Lt, items_model(args@)),
        messages_s(Builtin::Lt, items_model(args@), r),
{
    compare(Builtin::Lt, args)
}

pub fn gt(args: &Vec<Exp>) -> (r: Result<Exp, SchemeError>)
    ensures
        outcome(r) == prim_s(Builtin::Gt, items_model(args@)),
        messages_s(Builtin::Gt, items_model(args@), r),
{
    compare(Builtin::Gt, args)
}

pub fn lte(args: &Vec<Exp>) -> (r: Result<Exp, SchemeError>)
    ensures
        outcome(r) == prim_s(Builtin::Lte, items_model(args@)),
        messages_s(Builtin::Lte, items_model(args@), r),
{
    compare(Builtin::Lte, args)
}

pub fn gte(args: &Vec<Exp>) -> (r: Result<Exp, SchemeError>)
    ensures
        outcome(r) == prim_s(Builtin::Gte, items_model(args@)),
        messages_s(Builtin::Gte, items_model(args@), r),
{
    compare(Builtin::Gte, args)
}

pub fn list(args: &Vec<Exp>) -> (r: Result<Exp, SchemeError>)
    ensures
        outcome(r) == prim_s(Builtin::List, items_model(args@)),
        messages_s(Builtin::List, items_model(args@), r),
{
    let items = crate::types::duplicate_items(args);
    let r = Exp::List(items);
    assert(r.model()->List_0 =~= items_model(args@));
    Ok(r)
}

/// Copies of `first` followed by the items of `rest`.
fn prepend(first: &Exp, rest: &Vec<Exp>) -> (r: Vec<Exp>)
    ensures
        items_model(r@) == seq![first.model()] + items_model(rest@),
{
    let mut out: Vec<Exp> = Vec::new();
    out.push(first.duplicate());
    let mut i: usize = 0;
    while i < rest.len()
        invariant
            i <= rest@.len(),
            out@.len() == i + 1,
            out@[0].model() == first.model(),
            forall|j: int| 0 <= j < i ==> (#[trigger] out@[j + 1]).model() == rest@[j].model(),
        decreases rest@.len() - i,
    {
        out.push(rest[i].duplicate());
        i += 1;
    }
    let ghost want = seq![first.model()] + items_model(rest@);
    assert forall|j: int| 0 <= j < out@.len() implies items_model(out@)[j] == want[j] by {
        if j > 0 {
            assert(out@[(j - 1) + 1].model() == rest@[j - 1].model());
        }
    }
    assert(items_model(out@) =~= want);
    out
}

/// Copies of the items of `v` after the first.
fn tail_items(v: &Vec<Exp>) -> (r: Vec<Exp>)
    requires
        v@.len() > 0,
    ensures
        items_model(r@) == items_model(v@).drop_first(),
{
    let mut out: Vec<Exp> = Vec::new();
    let mut i: usize = 1;
    while i < v.len()
        invariant
            1 <= i <= v@.len(),
            out@.len() == i - 1,
            forall|j: int| 0 <= j < i - 1 ==> (#[trigger] out@[j]).model() == v@[j + 1].model(),
        decreases v@.len() - i,
    {
        out.push(v[i].duplicate());
        i += 1;
    }
    assert(items_model(out@) =~= items_model(v@).drop_first());
    out
}

pub fn cons(args: &Vec<Exp>) -> (r: Result<Exp, SchemeError>)
    ensures
        outcome(r) == prim_s(Builtin::Cons, items_model(args@)),
        messages_s(Builtin::Cons, items_model(args@), r),
{
    validate_num_args("cons", args.as_slice(), 2, 2)?;
    let first = &args[0];
    match &args[1] {
        Exp::List(l) => {
            let items = prepend(first, l);
            let r = Exp::List(items);
            assert(r.model()->List_0 =~= items_model(items@));
            assert(args[1].model()->List_0 =~= items_model(l@));
            Ok(r)
        },
        Exp::ImpList(l) => {
            let items = prepend(first, l);
            let r = Exp::ImpList(items);
            assert(r.model()->ImpList_0 =~= items_model(items@));
            assert(args[1].model()->ImpList_0 =~= items_model(l@));
            Ok(r)
        },
        Exp::Atom(a) => {
            let mut items: Vec<Exp> = Vec::new();
            items.push(first.duplicate());
            let tail = Exp::Atom(a.duplicate());
            assert(tail.model() == args[1].model());
            items.push(tail);
            let r = Exp::ImpList(items);
            assert(r.model()->ImpList_0 =~= seq![args[0].model(), args[1].model()]);
            Ok(r)
        },
    }
}

pub fn car(args: &Vec<Exp>) -> (r: Result<Exp, SchemeError>)
    ensures
        outcome(r) == prim_s(Builtin::Car, items_model(args@)),
        messages_s(Builtin::Car, items_model(args@), r),
{
    validate_num_args("car", args.as_slice(), 1, 1)?;
    match &args[0] {
        Exp::List(l) | Exp::ImpList(l) => {
            assert(args[0].model() is List ==> args[0].model()->List_0 =~= items_model(l@));
            assert(args[0].model() is ImpList ==> args[0].model()->ImpList_0 =~= items_model(l@));
            if l.len() > 0 {
                Ok(l[0].duplicate())
            } else {
                Err(SchemeError::simple(ErrorKind::EmptyList, "car called on empty list"))
            }
        },
        Exp::Atom(a) => {
            assert(args[0].model() == a.model());
            Err(
                SchemeError::new(
                    ErrorKind::TypeMismatch,
                    crate::error::text("car called on non-pair ").concat(to_text(&args[0]).as_str()),
                ),
            )
        },
    }
}

pub fn cdr(args: &Vec<Exp>) -> (r: Result<Exp, SchemeError>)
    ensures
        outcome(r) == prim_s(Builtin::Cdr, items_model(args@)),
        messages_s(Builtin::Cdr, items_model(args@), r),
{
    validate_num_args("cdr", args.as_slice(), 1, 1)?;
    match &args[0] {
        Exp::List(l) => {
            assert(args[0].model()->List_0 =~= items_model(l@));
            if l.len() == 0 {
                Err(SchemeError::simple(ErrorKind::EmptyList, "cdr called on empty list"))
            } else {
                let items = tail_items(l);
                let r = Exp::List(items);
                assert(r.model()->List_0 =~= items_model(items@));
                Ok(r)
            }
        },
        Exp::ImpList(l) => {
            assert(args[0].model()->ImpList_0 =~= items_model(l@));
            if l.len() <= 1 {
                Err(SchemeError::simple(ErrorKind::EmptyList, "cdr called on empty list"))
            } else if l.len() == 2 {
                Ok(l[1].duplicate())
            } else {
                let items = tail_items(l);
                let r = Exp::ImpList(items);
                assert(r.model()->ImpList_0 =~= items_model(items@));
                Ok(r)
            }
        },
        Exp::Atom(a) => {
            assert(args[0].model() == a.model());
            Err(
                SchemeError::new(
                    ErrorKind::TypeMismatch,
                    crate::error::text("cdr called on non-pair ").concat(to_text(&args[0]).as_str()),
                ),
            )
        },
    }
}

pub fn empty(args: &Vec<Exp>) -> (r: Result<Exp, SchemeError>)
    ensures
        outcome(r) == prim_s(Builtin::IsEmpty, items_model(args@)),
        messages_s(Builtin::IsEmpty, items_model(args@), r),
{
    validate_num_args("empty?", args.as_slice(), 1, 1)?;
    match &args[0] {
        Exp::List(l) => {
            assert(args[0].model()->List_0 =~= items_model(l@));
            Ok(bool_exp(l.len() == 0))
        },
        Exp::Atom(a) => {
            assert(args[0].model() == a.model());
            Err(
                SchemeError::new(
                    ErrorKind::ExpectedList,
                    crate::error::text("Expected a list, found ").concat(to_text(&args[0]).as_str()),
                ),
            )
        },
        Exp::ImpList(_) => Err(
            SchemeError::new(
                ErrorKind::ExpectedList,
                crate::error::text("Expected a list, found ").concat(to_text(&args[0]).as_str()),
            ),
        ),
    }
}

/// A type predicate on one atom.
fn predicate(b: Builtin, args: &Vec<Exp>) -> (r: Result<Exp, SchemeError>)
    requires
        b is IsNumber || b is IsSymbol || b is IsFunction || b is IsSpecialForm || b is IsQuote
            || b is IsBoolean,
    ensures
        outcome(r) == prim_s(b, items_model(args@)),
        messages_s(b, items_model(args@), r),
{
    validate_num_args(b.name(), args.as_slice(), 1, 1)?;
    match &args[0] {
        Exp::Atom(a) => {
            assert(args[0].model() == a.model());
            let v = match b {
                Builtin::IsNumber => a.is_number(),
                Builtin::IsSymbol => a.is_symbol(),
                Builtin::IsFunction => a.is_builtin() || a.is_lambda(),
                Builtin::IsSpecialForm => a.is_special_form(),
                Builtin::IsQuote => a.is_quote(),
                _ => a.is_boolean(),
            };
            Ok(bool_exp(v))
        },
        _ => Err(
            SchemeError::new(
                ErrorKind::ExpectedAtom,
                crate::error::text("Expected an atom, found ").concat(to_text(&args[0]).as_str()),
            ),
        ),
    }
}

pub fn number(args: &Vec<Exp>) -> (r: Result<Exp, SchemeError>)
    ensures
        outcome(r) == prim_s(Builtin::IsNumber, items_model(args@)),
        messages_s(Builtin::IsNumber, items_model(args@), r),
{
    predicate(Builtin::IsNumber, args)
}

pub fn symbol(args: &Vec<Exp>) -> (r: Result<Exp, SchemeError>)
    ensures
        outcome(r) == prim_s(Builtin::IsSymbol, items_model(args@)),
        messages_s(Builtin::IsSymbol, items_model(args@), r),
{
    predicate(Builtin::IsSymbol, args)
}

pub fn function(args: &Vec<Exp>) -> (r: Result<Exp, SchemeError>)
    ensures
        outcome(r) == prim_s(Builtin::IsFunction, items_model(args@)),
        messages_s(Builtin::IsFunction, items_model(args@), r),
{
    predicate(Builtin::IsFunction, args)
}

pub fn special_form(args: &Vec<Exp>) -> (r: Result<Exp, SchemeError>)
    ensures
        outcome(r) == prim_s(Builtin::IsSpecialForm, items_model(args@)),
        messages_s(Builtin::IsSpecialForm, items_model(args@), r),
{
    predicate(Builtin::IsSpecialForm, args)
}

pub fn quote(args: &Vec<Exp>) -> (r: Result<Exp, SchemeError>)
    ensures
        outcome(r) == prim_s(Builtin::IsQuote, items_model(args@)),
        messages_s(Builtin::IsQuote, items_model(args@), r),
{
    predicate(Builtin::IsQuote, args)
}

pub fn boolean(args: &Vec<Exp>) -> (r: Result<Exp, SchemeError>)
    ensures
        outcome(r) == prim_s(Builtin::IsBoolean, items_model(args@)),
        messages_s(Builtin::IsBoolean, items_model(args@), r),
{
    predicate(Builtin::IsBoolean, args)
}

/// Writes the text of its one argument to the output.
pub fn display(args: &Vec<Exp>, env: &mut Env) -> (r: Result<Exp, SchemeError>)
    ensures
        (final(env)@, outcome(r)) == builtin_s(Builtin::Display, items_model(args@), old(env)@),
        messages_s(Builtin::Display, items_model(args@), r),
{
    validate_num_args("display", args.as_slice(), 1, 1)?;
    let t = to_text(&args[0]);
    env.emit(t.as_str());
    Ok(Exp::new_list())
}

/// Writes a line break to the output.
pub fn newline(args: &Vec<Exp>, env: &mut Env) -> (r: Result<Exp, SchemeError>)
    ensures
        (final(env)@, outcome(r)) == builtin_s(Builtin::Newline, items_model(args@), old(env)@),
        messages_s(Builtin::Newline, items_model(args@), r),
{
    validate_num_args("newline", args.as_slice(), 0, 0)?;
    env.emit("\n");
    Ok(Exp::new_list())
}

/// Applies a builtin to evaluated arguments.
pub fn call_builtin(b: Builtin, args: &Vec<Exp>, env: &mut Env) -> (r: Result<Exp, SchemeError>)
    ensures
        (final(env)@, outcome(r)) == builtin_s(b, items_model(args@), old(env)@),
        messages_s(b, items_model(args@), r),
{
    match b {
        Builtin::Display => display(args, env),
        Builtin::Newline => newline(args, env),
        Builtin::Add => crate::builtin::add(args),
        Builtin::Sub => crate::builtin::sub(args),
        Builtin::Mul => crate::builtin::mul(args),
        Builtin::Div => div(args),
        Builtin::NumEq => eq(args),
        Builtin::Lt => lt(args),
        Builtin::Gt => gt(args),
        Builtin::Lte => lte(args),
        Builtin::Gte => gte(args),
        Builtin::List => list(args),
        Builtin::Cons => cons(args),
        Builtin::Car => car(args),
        Builtin::Cdr => cdr(args),
        Builtin::IsNumber => number(args),
        Builtin::IsSymbol => symbol(args),
        Builtin::IsEmpty => empty(args),
        Builtin::IsFunction => function(args),
        Builtin::IsSpecialForm => special_form(args),
        Builtin::IsQuote => quote(args),
        Builtin::IsBoolean => boolean(args),
    }
}

} // verus!
