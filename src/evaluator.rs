use vstd::prelude::*;

use crate::builtin::{builtin_s, call_builtin, messages_s};
use crate::environment::{define, lookup, push_child, Env, Store};
use crate::error::{arity_message, text, ErrorKind, SchemeError};
use crate::text::{show, to_text};
use crate::types::{
    items_model, nil, outcome, strings_model, Atom, Exp, Function, Lambda, SExp, SpecialForm,
};
use vstd::slice::slice_subrange;

verus! {

/// The nesting bound for a top-level evaluation: none in practice, so that
/// recursion is limited only by the machine's stack.
pub const MAX_DEPTH: usize = usize::MAX;

/// The outcome of evaluating a sequence of expressions one by one.
pub open spec fn outcome_items(r: Result<Vec<Exp>, SchemeError>) -> Result<Seq<SExp>, ErrorKind> {
    match r {
        Ok(v) => Ok(items_model(v@)),
        Err(x) => Err(x.kind),
    }
}

pub open spec fn arity(min: nat, max: usize, found: nat) -> ErrorKind {
    ErrorKind::Arity { min: min as usize, max, found: found as usize }
}

// ----------------------------------------------------------------------------
// The semantics. Each function returns the state after the evaluation and its
// result. `d` bounds how deeply list expressions may still nest.
// ----------------------------------------------------------------------------

/// Evaluates `e` in scope `f`.
pub open spec fn eval_s(d: nat, e: SExp, st: Store, f: nat) -> (Store, Result<SExp, ErrorKind>)
    decreases d, 0nat, 0nat,
{
    match e {
        SExp::Sym(n) => match lookup(st, f, n) {
            Some(v) => (st, Ok(v)),
            None => (st, Err(ErrorKind::UnboundSymbol)),
        },
        SExp::Quote(q) => (st, Ok(*q)),
        SExp::List(items) => if items.len() == 0 {
            (st, Ok(e))
        } else if d == 0 {
            (st, Err(ErrorKind::DepthExceeded))
        } else {
            let (st1, op) = eval_s((d - 1) as nat, items[0], st, f);
            match op {
                Err(k) => (st1, Err(k)),
                Ok(SExp::Form(form)) => form_s((d - 1) as nat, form, items.drop_first(), st1, f),
                Ok(opv) => {
                    let (st2, args) = args_s((d - 1) as nat, items.drop_first(), 0, Seq::empty(), st1, f);
                    match args {
                        Err(k) => (st2, Err(k)),
                        Ok(vs) => apply_s((d - 1) as nat, opv, vs, st2),
                    }
                },
            }
        },
        _ => (st, Ok(e)),
    }
}

/// Evaluates `items[i..]` left to right, appending the values to `acc`.
pub open spec fn args_s(d: nat, items: Seq<SExp>, i: int, acc: Seq<SExp>, st: Store, f: nat) -> (
    Store,
    Result<Seq<SExp>, ErrorKind>,
)
    decreases d, 1nat, items.len() - i,
{
    if i < 0 || i >= items.len() {
        (st, Ok(acc))
    } else {
        let (st1, r) = eval_s(d, items[i], st, f);
        match r {
            Err(k) => (st1, Err(k)),
            Ok(v) => args_s(d, items, i + 1, acc.push(v), st1, f),
        }
    }
}

/// Evaluates `body[i..]` in turn; the result is the last value, or `last` if none.
pub open spec fn seq_s(d: nat, body: Seq<SExp>, i: int, last: SExp, st: Store, f: nat) -> (
    Store,
    Result<SExp, ErrorKind>,
)
    decreases d, 1nat, body.len() - i,
{
    if i < 0 || i >= body.len() {
        (st, Ok(last))
    } else {
        let (st1, r) = eval_s(d, body[i], st, f);
        match r {
            Err(k) => (st1, Err(k)),
            Ok(v) => seq_s(d, body, i + 1, v, st1, f),
        }
    }
}

/// Binds `params[i..]` to `args[i..]`, in order, in scope `c`.
pub open spec fn bind_s(st: Store, c: nat, params: Seq<Seq<char>>, args: Seq<SExp>, i: int) -> Store
    decreases params.len() - i,
{
    if i < 0 || i >= params.len() || i >= args.len() {
        st
    } else {
        bind_s(define(st, c, params[i], args[i]), c, params, args, i + 1)
    }
}

/// Applies an evaluated operator to evaluated arguments. A lambda binds its
/// parameters in the scope it captured and evaluates its body there.
pub open spec fn apply_s(d: nat, opv: SExp, args: Seq<SExp>, st: Store) -> (Store, Result<SExp, ErrorKind>)
    decreases d, 2nat, 0nat,
{
    match opv {
        SExp::Prim(b) => builtin_s(b, args, st),
        SExp::Lambda(params, body, c) => if params.len() != args.len() {
            (st, Err(arity(params.len(), params.len() as usize, args.len())))
        } else if c >= st.frames.len() {
            (st, Err(ErrorKind::NotCallable))
        } else {
            seq_s(d, body, 0, nil(), bind_s(st, c, params, args, 0), c)
        },
        _ => (st, Err(ErrorKind::NotCallable)),
    }
}

/// The parameter names of `ps[i..]` appended to `acc`, or why they are not names.
pub open spec fn names_s(ps: Seq<SExp>, i: int, acc: Seq<Seq<char>>) -> Result<Seq<Seq<char>>, ErrorKind>
    decreases ps.len() - i,
{
    if i < 0 || i >= ps.len() {
        Ok(acc)
    } else {
        match ps[i] {
            SExp::Sym(n) => names_s(ps, i + 1, acc.push(n)),
            SExp::List(_) | SExp::ImpList(_) => Err(ErrorKind::ExpectedAtom),
            _ => Err(ErrorKind::MalformedSpecialForm),
        }
    }
}

/// A closure over a new child scope of `f`.
pub open spec fn lambda_parts_s(ps: Seq<SExp>, body: Seq<SExp>, st: Store, f: nat) -> (
    Store,
    Result<SExp, ErrorKind>,
) {
    match names_s(ps, 0, Seq::empty()) {
        Err(k) => (st, Err(k)),
        Ok(names) => (push_child(st, f), Ok(SExp::Lambda(names, body, st.frames.len()))),
    }
}

/// `(lambda (param...) body...)`.
pub open spec fn lambda_form_s(ops: Seq<SExp>, st: Store, f: nat) -> (Store, Result<SExp, ErrorKind>) {
    if ops.len() < 2 {
        (st, Err(ErrorKind::MalformedSpecialForm))
    } else {
        match ops[0] {
            SExp::List(ps) => lambda_parts_s(ps, ops.drop_first(), st, f),
            _ => (st, Err(ErrorKind::MalformedSpecialForm)),
        }
    }
}

/// `(define name expr)`, or `(define (name param...) body...)`.
pub open spec fn define_s(d: nat, ops: Seq<SExp>, st: Store, f: nat) -> (Store, Result<SExp, ErrorKind>)
    decreases d, 2nat, 0nat,
{
    if ops.len() < 1 {
        (st, Err(ErrorKind::MalformedSpecialForm))
    } else {
        match ops[0] {
            SExp::List(sig) => if sig.len() < 1 {
                (st, Err(ErrorKind::MalformedSpecialForm))
            } else {
                match sig[0] {
                    SExp::Sym(name) => if ops.len() < 2 {
                        (st, Err(ErrorKind::MalformedSpecialForm))
                    } else {
                        let (st1, r) = lambda_parts_s(sig.drop_first(), ops.drop_first(), st, f);
                        match r {
                            Ok(lam) => (define(st1, f, name, lam), Ok(nil())),
                            Err(k) => (st1, Err(k)),
                        }
                    },
                    _ => (st, Err(ErrorKind::MalformedSpecialForm)),
                }
            },
            SExp::Sym(name) => if ops.len() != 2 {
                (st, Err(ErrorKind::MalformedSpecialForm))
            } else {
                let (st1, r) = eval_s(d, ops[1], st, f);
                match r {
                    Ok(v) => (define(st1, f, name, v), Ok(nil())),
                    Err(k) => (st1, Err(k)),
                }
            },
            _ => (st, Err(ErrorKind::MalformedSpecialForm)),
        }
    }
}

/// The bindings `pairs[i..]` of a `let`, each evaluated and bound in scope `c`
/// in turn; `Some` holds the first error.
pub open spec fn bindings_s(d: nat, pairs: Seq<SExp>, i: int, st: Store, c: nat) -> (
    Store,
    Option<ErrorKind>,
)
    decreases d, 1nat, pairs.len() - i,
{
    if i < 0 || i >= pairs.len() {
        (st, None)
    } else {
        match pairs[i] {
            SExp::List(pv) => if pv.len() < 2 {
                (st, Some(ErrorKind::MalformedSpecialForm))
            } else {
                match pv[0] {
                    SExp::Sym(name) => {
                        let (st1, r) = eval_s(d, pv[1], st, c);
                        match r {
                            Err(k) => (st1, Some(k)),
                            Ok(v) => bindings_s(d, pairs, i + 1, define(st1, c, name, v), c),
                        }
                    },
                    _ => (st, Some(ErrorKind::MalformedSpecialForm)),
                }
            },
            _ => (st, Some(ErrorKind::MalformedSpecialForm)),
        }
    }
}

/// `(let ((name expr)...) body...)`: one new child scope holds the bindings,
/// each of which sees the earlier ones, and the body runs there.
pub open spec fn let_s(d: nat, ops: Seq<SExp>, st: Store, f: nat) -> (Store, Result<SExp, ErrorKind>)
    decreases d, 2nat, 0nat,
{
    if ops.len() < 2 {
        (st, Err(ErrorKind::MalformedSpecialForm))
    } else {
        let c = st.frames.len();
        let st1 = push_child(st, f);
        match ops[0] {
            SExp::List(pairs) => {
                let (st2, r) = bindings_s(d, pairs, 0, st1, c);
                match r {
                    Some(k) => (st2, Err(k)),
                    None => seq_s(d, ops, 1, nil(), st2, c),
                }
            },
            _ => (st, Err(ErrorKind::MalformedSpecialForm)),
        }
    }
}

/// `(if cond then else)`: only the value `false` selects `else`.
pub open spec fn if_s(d: nat, ops: Seq<SExp>, st: Store, f: nat) -> (Store, Result<SExp, ErrorKind>)
    decreases d, 1nat, 0nat,
{
    if ops.len() != 3 {
        (st, Err(ErrorKind::MalformedSpecialForm))
    } else {
        let (st1, r) = eval_s(d, ops[0], st, f);
        match r {
            Err(k) => (st1, Err(k)),
            Ok(v) => if v == SExp::Bool(false) {
                eval_s(d, ops[2], st1, f)
            } else {
                eval_s(d, ops[1], st1, f)
            },
        }
    }
}

/// `(and ...)` from operand `i` on: the first `false`, else the last value.
pub open spec fn and_s(d: nat, ops: Seq<SExp>, i: int, last: SExp, st: Store, f: nat) -> (
    Store,
    Result<SExp, ErrorKind>,
)
    decreases d, 1nat, ops.len() - i,
{
    if i < 0 || i >= ops.len() {
        (st, Ok(last))
    } else {
        let (st1, r) = eval_s(d, ops[i], st, f);
        match r {
            Err(k) => (st1, Err(k)),
            Ok(v) => if v == SExp::Bool(false) {
                (st1, Ok(v))
            } else {
                and_s(d, ops, i + 1, v, st1, f)
            },
        }
    }
}

/// `(or ...)` from operand `i` on: the first value other than `false`, else `false`.
pub open spec fn or_s(d: nat, ops: Seq<SExp>, i: int, st: Store, f: nat) -> (
    Store,
    Result<SExp, ErrorKind>,
)
    decreases d, 1nat, ops.len() - i,
{
    if i < 0 || i >= ops.len() {
        (st, Ok(SExp::Bool(false)))
    } else {
        let (st1, r) = eval_s(d, ops[i], st, f);
        match r {
            Err(k) => (st1, Err(k)),
            Ok(v) => if v != SExp::Bool(false) {
                (st1, Ok(v))
            } else {
                or_s(d, ops, i + 1, st1, f)
            },
        }
    }
}

/// A special form applied to its unevaluated operands.
pub open spec fn form_s(d: nat, form: SpecialForm, ops: Seq<SExp>, st: Store, f: nat) -> (
    Store,
    Result<SExp, ErrorKind>,
)
    decreases d, 3nat, 0nat,
{
    match form {
        SpecialForm::Define => define_s(d, ops, st, f),
        SpecialForm::Let => let_s(d, ops, st, f),
        SpecialForm::Lambda => lambda_form_s(ops, st, f),
        SpecialForm::If => if_s(d, ops, st, f),
        SpecialForm::And => and_s(d, ops, 0, SExp::Bool(true), st, f),
        SpecialForm::Or => or_s(d, ops, 0, st, f),
        SpecialForm::Eval => if ops.len() != 1 {
            (st, Err(ErrorKind::MalformedSpecialForm))
        } else {
            let (st1, r) = eval_s(d, ops[0], st, f);
            match r {
                Err(k) => (st1, Err(k)),
                Ok(v) => eval_s(d, v, st1, f),
            }
        },
        SpecialForm::Apply => if ops.len() != 2 {
            (st, Err(ErrorKind::MalformedSpecialForm))
        } else {
            let (st1, r1) = eval_s(d, ops[0], st, f);
            match r1 {
                Err(k) => (st1, Err(k)),
                Ok(fv) => {
                    let (st2, r2) = eval_s(d, ops[1], st1, f);
                    match r2 {
                        Err(k) => (st2, Err(k)),
                        Ok(SExp::List(items)) => apply_s(d, fv, items, st2),
                        Ok(_) => (st2, Err(ErrorKind::ExpectedList)),
                    }
                },
            }
        },
    }
}

/// The messages of the errors that applying `opv` reports itself: applying a
/// value that is not a function names the value; a lambda given the wrong
/// number of arguments names the counts; a builtin's own errors are as
/// `messages_s` says.
pub open spec fn call_messages(opv: SExp, args: Seq<SExp>, r: Result<Exp, SchemeError>) -> bool {
    match opv {
        SExp::Prim(b) => messages_s(b, args, r),
        SExp::Lambda(params, _, _) => params.len() != args.len() ==> r is Err && r->Err_0.message@
            == arity_message("lambda"@, params.len() as usize, params.len() as usize, args.len() as usize),
        _ => r is Err && r->Err_0.message@ == "Expected a function, found "@ + show(opv),
    }
}

/// For an application whose operator and operands evaluate without error, the
/// messages that `call_messages` gives: in particular, an operator value that
/// is not a function is named in the error.
pub open spec fn application_messages(d: nat, e: SExp, st: Store, f: nat, r: Result<Exp, SchemeError>) -> bool {
    match e {
        SExp::List(items) => (items.len() > 0 && d > 0) ==> {
            let (st1, op) = eval_s((d - 1) as nat, items[0], st, f);
            match op {
                Ok(v) => !(v is Form) ==> {
                    let (st2, args) = args_s((d - 1) as nat, items.drop_first(), 0, Seq::empty(), st1, f);
                    args is Ok ==> call_messages(v, args->Ok_0, r)
                },
                Err(_) => true,
            }
        },
        _ => true,
    }
}

/// The position of the first item at or after `i` that is not a symbol, or
/// the length when there is none.
pub open spec fn first_non_symbol(ps: Seq<SExp>, i: int) -> int
    decreases ps.len() - i,
{
    if i < 0 || i >= ps.len() {
        ps.len() as int
    } else if ps[i] is Sym {
        first_non_symbol(ps, i + 1)
    } else {
        i
    }
}

/// The message for a parameter that is not a name.
pub open spec fn param_message(p: SExp) -> Seq<char> {
    if p is List || p is ImpList {
        "Expected an atom, found "@ + show(p)
    } else {
        "Parameter list expects symbols, found "@ + show(p)
    }
}

/// What `eval_all` computes: the top-level forms evaluated in the root scope.
pub open spec fn eval_all_s(forms: Seq<SExp>, st: Store) -> (Store, Result<SExp, ErrorKind>) {
    seq_s(MAX_DEPTH as nat, forms, 0, nil(), st, 0)
}

// ----------------------------------------------------------------------------
// The evaluator.
// ----------------------------------------------------------------------------

/// Evaluates every top-level form in the root scope, in order, and returns the
/// value of the last one (`nil` when there is none).
pub fn eval_all(input: &Vec<Exp>, env: &mut Env) -> (r: Result<Exp, SchemeError>)
    requires
        old(env)@.wf(),
        old(env)@.frames.len() > 0,
    ensures
        final(env)@.wf(),
        final(env)@.frames.len() >= old(env)@.frames.len(),
        (final(env)@, outcome(r)) == eval_all_s(items_model(input@), old(env)@),
{
    eval_seq(input.as_slice(), 0, env, 0, MAX_DEPTH)
}

/// Evaluates `e` in scope `f`.
pub fn evaluate(e: &Exp, env: &mut Env, f: usize, d: usize) -> (r: Result<Exp, SchemeError>)
    requires
        old(env)@.wf(),
        f < old(env)@.frames.len(),
    ensures
        final(env)@.wf(),
        final(env)@.frames.len() >= old(env)@.frames.len(),
        (final(env)@, outcome(r)) == eval_s(d as nat, e.model(), old(env)@, f as nat),
        (e.model() is Sym && r is Err) ==> r->Err_0.message@ == "Name "@ + e.model()->Sym_0 + " not found"@,
        application_messages(d as nat, e.model(), old(env)@, f as nat, r),
    decreases d, 0nat, 0nat,
{
    match e {
        Exp::Atom(a) => {
            assert(e.model() == a.model());
            match a {
                Atom::Symbol(s) => match env.lookup(f, s) {
                    Some(v) => Ok(v),
                    None => Err(
                        SchemeError::new(
                            ErrorKind::UnboundSymbol,
                            text("Name ").concat(s.as_str()).concat(" not found"),
                        ),
                    ),
                },
                Atom::Quote(q) => Ok((**q).duplicate()),
                _ => {
                    let c = a.duplicate();
                    let r = Exp::Atom(c);
                    assert(r.model() == c.model());
                    Ok(r)
                },
            }
        },
        Exp::ImpList(_) => Ok(e.duplicate()),
        Exp::List(items) => {
            let n = items.len();
            assert(e.model()->List_0 =~= items_model(items@));
            if n == 0 {
                assert(e.model()->List_0 =~= Seq::<SExp>::empty());
                return Ok(Exp::new_list());
            }
            if d == 0 {
                return Err(SchemeError::simple(ErrorKind::DepthExceeded, "Expression nested too deeply"));
            }
            let op = match evaluate(&items[0], env, f, d - 1) {
                Ok(v) => v,
                Err(x) => {
                    return Err(x);
                },
            };
            let ops = slice_subrange(items.as_slice(), 1, n);
            assert(items_model(ops@) =~= items_model(items@).drop_first());
            match &op {
                Exp::Atom(Atom::SpecialForm(form)) => {
                    assert(op.model() == op->Atom_0.model());
                    eval_form(*form, ops, env, f, d - 1)
                },
                _ => {
                    assert(op.model() is Form ==> op is Atom && op->Atom_0.model() == op.model());
                    let args = match eval_args(ops, env, f, d - 1) {
                        Ok(v) => v,
                        Err(x) => {
                            return Err(x);
                        },
                    };
                    apply(&op, &args, env, d - 1)
                },
            }
        },
    }
}

/// Evaluates each operand, left to right.
pub fn eval_args(ops: &[Exp], env: &mut Env, f: usize, d: usize) -> (r: Result<Vec<Exp>, SchemeError>)
    requires
        old(env)@.wf(),
        f < old(env)@.frames.len(),
    ensures
        final(env)@.wf(),
        final(env)@.frames.len() >= old(env)@.frames.len(),
        (final(env)@, outcome_items(r)) == args_s(d as nat, items_model(ops@), 0, Seq::empty(), old(env)@, f as nat),
    decreases d, 1nat, 0nat,
{
    let ghost m = items_model(ops@);
    let ghost st0 = env@;
    let mut out: Vec<Exp> = Vec::new();
    assert(items_model(out@) =~= Seq::<SExp>::empty());
    let mut i: usize = 0;
    while i < ops.len()
        invariant
            i <= ops@.len(),
            m == items_model(ops@),
            st0 == old(env)@,
            env@.wf(),
            env@.frames.len() >= st0.frames.len(),
            f < st0.frames.len(),
            args_s(d as nat, m, 0, Seq::empty(), st0, f as nat) == args_s(d as nat, m, i as int, items_model(out@), env@, f as nat),
        decreases ops@.len() - i,
    {
        let v = match evaluate(&ops[i], env, f, d) {
            Ok(v) => v,
            Err(x) => {
                return Err(x);
            },
        };
        let ghost before = items_model(out@);
        out.push(v);
        assert(items_model(out@) =~= before.push(v.model()));
        i += 1;
    }
    Ok(out)
}

/// Evaluates `body[start..]` in turn and returns the last value, or `nil`.
pub fn eval_seq(body: &[Exp], start: usize, env: &mut Env, f: usize, d: usize) -> (r: Result<Exp, SchemeError>)
    requires
        old(env)@.wf(),
        f < old(env)@.frames.len(),
    ensures
        final(env)@.wf(),
        final(env)@.frames.len() >= old(env)@.frames.len(),
        (final(env)@, outcome(r)) == seq_s(d as nat, items_model(body@), start as int, nil(), old(env)@, f as nat),
    decreases d, 1nat, 0nat,
{
    let ghost m = items_model(body@);
    let ghost st0 = env@;
    let mut last = Exp::new_list();
    let mut i = start;
    if i >= body.len() {
        return Ok(last);
    }
    while i < body.len()
        invariant
            start <= i <= body@.len(),
            m == items_model(body@),
            st0 == old(env)@,
            env@.wf(),
            env@.frames.len() >= st0.frames.len(),
            f < st0.frames.len(),
            seq_s(d as nat, m, start as int, nil(), st0, f as nat) == seq_s(d as nat, m, i as int, last.model(), env@, f as nat),
        decreases body@.len() - i,
    {
        last = match evaluate(&body[i], env, f, d) {
            Ok(v) => v,
            Err(x) => {
                return Err(x);
            },
        };
        i += 1;
    }
    Ok(last)
}

/// Applies an evaluated operator to evaluated arguments.
pub fn apply(op: &Exp, args: &Vec<Exp>, env: &mut Env, d: usize) -> (r: Result<Exp, SchemeError>)
    requires
        old(env)@.wf(),
    ensures
        final(env)@.wf(),
        final(env)@.frames.len() >= old(env)@.frames.len(),
        (final(env)@, outcome(r)) == apply_s(d as nat, op.model(), items_model(args@), old(env)@),
        call_messages(op.model(), items_model(args@), r),
    decreases d, 2nat, 2nat,
{
    match op {
        Exp::Atom(Atom::Function(f)) => {
            assert(op.model() == op->Atom_0.model());
            proof {
                if let Function::Lambda(l) = f {
                    assert(op->Atom_0.model()->Lambda_1 =~= l.model()->Lambda_1);
                }
            }
            assert(op->Atom_0.model() == f.model());
            f.call(args, env, d)
        },
        Exp::Atom(a) => {
            assert(op.model() == a.model());
            Err(
                SchemeError::new(
                    ErrorKind::NotCallable,
                    text("Expected a function, found ").concat(to_text(op).as_str()),
                ),
            )
        },
        _ => Err(
            SchemeError::new(
                ErrorKind::NotCallable,
                text("Expected a function, found ").concat(to_text(op).as_str()),
            ),
        ),
    }
}

impl Function {
    /// Applies this function to evaluated arguments.
    pub fn call(&self, args: &Vec<Exp>, env: &mut Env, d: usize) -> (r: Result<Exp, SchemeError>)
        requires
            old(env)@.wf(),
        ensures
            final(env)@.wf(),
            final(env)@.frames.len() >= old(env)@.frames.len(),
            (final(env)@, outcome(r)) == apply_s(d as nat, self.model(), items_model(args@), old(env)@),
            call_messages(self.model(), items_model(args@), r),
        decreases d, 2nat, 1nat,
    {
        match self {
            Function::Builtin(b) => call_builtin(*b, args, env),
            Function::Lambda(l) => l.eval(args, env, d),
        }
    }
}

impl Lambda {
    /// Binds the parameters to the arguments in the captured scope and
    /// evaluates the body there.
    pub fn eval(&self, args: &Vec<Exp>, env: &mut Env, d: usize) -> (r: Result<Exp, SchemeError>)
        requires
            old(env)@.wf(),
        ensures
            final(env)@.wf(),
            final(env)@.frames.len() >= old(env)@.frames.len(),
            (final(env)@, outcome(r)) == apply_s(d as nat, self.model(), items_model(args@), old(env)@),
            call_messages(self.model(), items_model(args@), r),
        decreases d, 2nat, 0nat,
    {
        assert(self.model()->Lambda_1 =~= items_model(self.body@));
        let n = self.params.len();
        if n != args.len() {
            return Err(SchemeError::arity("lambda", n, n, args.len()));
        }
        if self.env >= env.frame_count() {
            return Err(SchemeError::simple(ErrorKind::NotCallable, "Closure refers to no environment"));
        }
        bind_params(&self.params, args, env, self.env);
        eval_seq(self.body.as_slice(), 0, env, self.env, d)
    }
}

/// Binds each parameter to the argument at its position, in scope `c`.
fn bind_params(params: &Vec<String>, args: &Vec<Exp>, env: &mut Env, c: usize)
    requires
        old(env)@.wf(),
        c < old(env)@.frames.len(),
        params@.len() == args@.len(),
    ensures
        final(env)@.wf(),
        final(env)@.frames.len() == old(env)@.frames.len(),
        final(env)@ == bind_s(old(env)@, c as nat, strings_model(params@), items_model(args@), 0),
{
    let ghost ps = strings_model(params@);
    let ghost vs = items_model(args@);
    let ghost st0 = env@;
    let mut i: usize = 0;
    while i < params.len()
        invariant
            i <= params@.len(),
            params@.len() == args@.len(),
            ps == strings_model(params@),
            vs == items_model(args@),
            st0 == old(env)@,
            env@.wf(),
            env@.frames.len() == st0.frames.len(),
            c < st0.frames.len(),
            bind_s(st0, c as nat, ps, vs, 0) == bind_s(env@, c as nat, ps, vs, i as int),
        decreases params@.len() - i,
    {
        env.define(c, params[i].clone(), args[i].duplicate());
        i += 1;
    }
}

/// The names of a parameter list.
fn param_names(ps: &[Exp]) -> (r: Result<Vec<String>, SchemeError>)
    ensures
        match r {
            Ok(v) => names_s(items_model(ps@), 0, Seq::empty()) == Ok::<Seq<Seq<char>>, ErrorKind>(
                strings_model(v@),
            ),
            Err(x) => names_s(items_model(ps@), 0, Seq::empty()) == Err::<Seq<Seq<char>>, ErrorKind>(
                x.kind,
            ),
        },
        r is Err ==> first_non_symbol(items_model(ps@), 0) < ps@.len() && r->Err_0.message@
            == param_message(items_model(ps@)[first_non_symbol(items_model(ps@), 0)]),
{
    let ghost m = items_model(ps@);
    let mut out: Vec<String> = Vec::new();
    assert(strings_model(out@) =~= Seq::<Seq<char>>::empty());
    let mut i: usize = 0;
    while i < ps.len()
        invariant
            i <= ps@.len(),
            m == items_model(ps@),
            names_s(m, 0, Seq::empty()) == names_s(m, i as int, strings_model(out@)),
            first_non_symbol(m, 0) == first_non_symbol(m, i as int),
        decreases ps@.len() - i,
    {
        match &ps[i] {
            Exp::Atom(Atom::Symbol(s)) => {
                assert(ps@[i as int].model() == ps@[i as int]->Atom_0.model());
                let ghost before = strings_model(out@);
                out.push(s.clone());
                assert(strings_model(out@) =~= before.push(s@));
            },
            Exp::Atom(a) => {
                assert(ps@[i as int].model() == a.model());
                return Err(
                    SchemeError::new(
                        ErrorKind::MalformedSpecialForm,
                        text("Parameter list expects symbols, found ").concat(to_text(&ps[i]).as_str()),
                    ),
                );
            },
            _ => {
                return Err(
                    SchemeError::new(
                        ErrorKind::ExpectedAtom,
                        text("Expected an atom, found ").concat(to_text(&ps[i]).as_str()),
                    ),
                );
            },
        }
        i += 1;
    }
    Ok(out)
}

/// Copies of the items of a slice.
fn copy_slice(s: &[Exp]) -> (r: Vec<Exp>)
    ensures
        items_model(r@) == items_model(s@),
{
    let mut out: Vec<Exp> = Vec::new();
    let mut i: usize = 0;
    while i < s.len()
        invariant
            i <= s@.len(),
            out@.len() == i,
            forall|j: int| 0 <= j < i ==> (#[trigger] out@[j]).model() == s@[j].model(),
        decreases s@.len() - i,
    {
        out.push(s[i].duplicate());
        i += 1;
    }
    assert(items_model(out@) =~= items_model(s@));
    out
}

/// A closure with the given parameters and body over a new child scope of `f`.
fn make_lambda(ps: &[Exp], body: &[Exp], env: &mut Env, f: usize) -> (r: Result<Exp, SchemeError>)
    requires
        old(env)@.wf(),
        f < old(env)@.frames.len(),
    ensures
        final(env)@.wf(),
        final(env)@.frames.len() >= old(env)@.frames.len(),
        (final(env)@, outcome(r)) == lambda_parts_s(items_model(ps@), items_model(body@), old(env)@, f as nat),
        r is Err ==> first_non_symbol(items_model(ps@), 0) < ps@.len() && r->Err_0.message@
            == param_message(items_model(ps@)[first_non_symbol(items_model(ps@), 0)]),
{
    let params = match param_names(ps) {
        Ok(v) => v,
        Err(x) => {
            return Err(x);
        },
    };
    let code = copy_slice(body);
    let c = env.new_child(f);
    let lam = Lambda { params, body: code, env: c };
    let a = Atom::Function(Function::Lambda(lam));
    let r = Exp::Atom(a);
    assert(r.model() == a.model());
    assert(a.model()->Lambda_1 =~= items_model(body@));
    Ok(r)
}

/// `(lambda (param...) body...)`.
pub fn do_lambda_form(ops: &[Exp], env: &mut Env, f: usize) -> (r: Result<Exp, SchemeError>)
    requires
        old(env)@.wf(),
        f < old(env)@.frames.len(),
    ensures
        final(env)@.wf(),
        final(env)@.frames.len() >= old(env)@.frames.len(),
        (final(env)@, outcome(r)) == lambda_form_s(items_model(ops@), old(env)@, f as nat),
        ops@.len() < 2 ==> r is Err && r->Err_0.message@ == arity_message("lambda"@, 2, usize::MAX, ops@.len() as usize),
        ops@.len() >= 2 && !(ops@[0].model() is List) ==> r is Err && r->Err_0.message@ == "lambda expects a parameter list"@,
        ops@.len() >= 2 && ops@[0].model() is List && r is Err ==> ({
            let ps = ops@[0].model()->List_0;
            first_non_symbol(ps, 0) < ps.len() && r->Err_0.message@ == param_message(ps[first_non_symbol(ps, 0)])
        }),
{
    let n = ops.len();
    if n < 2 {
        return Err(SchemeError::malformed_count("lambda", 2, usize::MAX, n));
    }
    match &ops[0] {
        Exp::List(ps) => {
            assert(ops@[0].model()->List_0 =~= items_model(ps@));
            let body = slice_subrange(ops, 1, n);
            assert(items_model(body@) =~= items_model(ops@).drop_first());
            make_lambda(ps.as_slice(), body, env, f)
        },
        Exp::Atom(a) => {
            assert(ops@[0].model() == a.model());
            Err(SchemeError::simple(ErrorKind::MalformedSpecialForm, "lambda expects a parameter list"))
        },
        _ => Err(SchemeError::simple(ErrorKind::MalformedSpecialForm, "lambda expects a parameter list")),
    }
}

fn malformed_name(e: &Exp) -> (r: SchemeError)
    ensures
        r.kind == ErrorKind::MalformedSpecialForm,
{
    SchemeError::new(
        ErrorKind::MalformedSpecialForm,
        text("Expected a symbol as the name, found ").concat(to_text(e).as_str()),
    )
}

/// `(define name expr)`, or `(define (name param...) body...)`.
pub fn do_define_form(ops: &[Exp], env: &mut Env, f: usize, d: usize) -> (r: Result<Exp, SchemeError>)
    requires
        old(env)@.wf(),
        f < old(env)@.frames.len(),
    ensures
        final(env)@.wf(),
        final(env)@.frames.len() >= old(env)@.frames.len(),
        (final(env)@, outcome(r)) == define_s(d as nat, items_model(ops@), old(env)@, f as nat),
    decreases d, 2nat, 0nat,
{
    let n = ops.len();
    if n < 1 {
        return Err(SchemeError::malformed_count("define", 1, usize::MAX, n));
    }
    match &ops[0] {
        Exp::List(sig) => {
            assert(ops@[0].model()->List_0 =~= items_model(sig@));
            if sig.len() < 1 {
                return Err(SchemeError::malformed_count("define signature", 1, usize::MAX, sig.len()));
            }
            match &sig[0] {
                Exp::Atom(Atom::Symbol(name)) => {
                    assert(sig@[0].model() == sig@[0]->Atom_0.model());
                    if n < 2 {
                        return Err(SchemeError::malformed_count("lambda", 2, usize::MAX, n));
                    }
                    let ps = slice_subrange(sig.as_slice(), 1, sig.len());
                    assert(items_model(ps@) =~= items_model(sig@).drop_first());
                    let body = slice_subrange(ops, 1, n);
                    assert(items_model(body@) =~= items_model(ops@).drop_first());
                    let lam = match make_lambda(ps, body, env, f) {
                        Ok(v) => v,
                        Err(x) => {
                            return Err(x);
                        },
                    };
                    env.define(f, name.clone(), lam);
                    Ok(Exp::new_list())
                },
                Exp::Atom(a) => {
                    assert(sig@[0].model() == a.model());
                    Err(malformed_name(&sig[0]))
                },
                _ => Err(
                    SchemeError::new(
                        ErrorKind::MalformedSpecialForm,
                        text("Expected an atom, found ").concat(to_text(&sig[0]).as_str()),
                    ),
                ),
            }
        },
        Exp::ImpList(_) => Err(malformed_name(&ops[0])),
        Exp::Atom(a) => {
            assert(ops@[0].model() == a.model());
            if n != 2 {
                return Err(SchemeError::malformed_count("define value", 2, 2, n));
            }
            match a {
                Atom::Symbol(name) => {
                    let v = match evaluate(&ops[1], env, f, d) {
                        Ok(v) => v,
                        Err(x) => {
                            return Err(x);
                        },
                    };
                    env.define(f, name.clone(), v);
                    Ok(Exp::new_list())
                },
                _ => Err(malformed_name(&ops[0])),
            }
        },
    }
}

/// Evaluates and binds the pairs of a `let` in scope `c`, each seeing the ones before.
fn let_bindings(pairs: &Vec<Exp>, env: &mut Env, c: usize, d: usize) -> (r: Result<(), SchemeError>)
    requires
        old(env)@.wf(),
        c < old(env)@.frames.len(),
    ensures
        final(env)@.wf(),
        final(env)@.frames.len() >= old(env)@.frames.len(),
        ({
            let (st, k) = bindings_s(d as nat, items_model(pairs@), 0, old(env)@, c as nat);
            &&& final(env)@ == st
            &&& match r {
                Ok(_) => k is None,
                Err(x) => k == Some(x.kind),
            }
        }),
    decreases d, 1nat, 0nat,
{
    let ghost m = items_model(pairs@);
    let ghost st0 = env@;
    let mut i: usize = 0;
    while i < pairs.len()
        invariant
            i <= pairs@.len(),
            m == items_model(pairs@),
            st0 == old(env)@,
            env@.wf(),
            env@.frames.len() >= st0.frames.len(),
            c < st0.frames.len(),
            bindings_s(d as nat, m, 0, st0, c as nat) == bindings_s(d as nat, m, i as int, env@, c as nat),
        decreases pairs@.len() - i,
    {
        match &pairs[i] {
            Exp::List(pv) => {
                assert(m[i as int]->List_0 =~= items_model(pv@));
                if pv.len() < 2 {
                    return Err(SchemeError::malformed_count("let pair", 2, usize::MAX, pv.len()));
                }
                match &pv[0] {
                    Exp::Atom(Atom::Symbol(name)) => {
                        assert(pv@[0].model() == pv@[0]->Atom_0.model());
                        let v = match evaluate(&pv[1], env, c, d) {
                            Ok(v) => v,
                            Err(x) => {
                                return Err(x);
                            },
                        };
                        env.define(c, name.clone(), v);
                    },
                    Exp::Atom(a) => {
                        assert(pv@[0].model() == a.model());
                        return Err(malformed_name(&pv[0]));
                    },
                    _ => {
                        return Err(
                            SchemeError::new(
                                ErrorKind::MalformedSpecialForm,
                                text("Expected an atom, found ").concat(to_text(&pv[0]).as_str()),
                            ),
                        );
                    },
                }
            },
            Exp::Atom(a) => {
                assert(m[i as int] == a.model());
                return Err(SchemeError::simple(ErrorKind::MalformedSpecialForm, "let expects pairs"));
            },
            _ => {
                return Err(SchemeError::simple(ErrorKind::MalformedSpecialForm, "let expects pairs"));
            },
        }
        i += 1;
    }
    Ok(())
}

/// `(let ((name expr)...) body...)`.
pub fn do_let_form(ops: &[Exp], env: &mut Env, f: usize, d: usize) -> (r: Result<Exp, SchemeError>)
    requires
        old(env)@.wf(),
        f < old(env)@.frames.len(),
    ensures
        final(env)@.wf(),
        final(env)@.frames.len() >= old(env)@.frames.len(),
        (final(env)@, outcome(r)) == let_s(d as nat, items_model(ops@), old(env)@, f as nat),
        ops@.len() < 2 ==> r is Err && r->Err_0.message@ == arity_message("let"@, 2, usize::MAX, ops@.len() as usize),
        ops@.len() >= 2 && !(ops@[0].model() is List) ==> r is Err && r->Err_0.message@ == "Let expects a list of definitions"@,
    decreases d, 2nat, 0nat,
{
    let n = ops.len();
    if n < 2 {
        return Err(SchemeError::malformed_count("let", 2, usize::MAX, n));
    }
    match &ops[0] {
        Exp::List(pairs) => {
            let c = env.new_child(f);
            assert(ops@[0].model()->List_0 =~= items_model(pairs@));
            match let_bindings(pairs, env, c, d) {
                Ok(_) => {},
                Err(x) => {
                    return Err(x);
                },
            }
            eval_seq(ops, 1, env, c, d)
        },
        Exp::Atom(a) => {
            assert(ops@[0].model() == a.model());
            Err(SchemeError::simple(ErrorKind::MalformedSpecialForm, "Let expects a list of definitions"))
        },
        _ => Err(SchemeError::simple(ErrorKind::MalformedSpecialForm, "Let expects a list of definitions")),
    }
}

fn is_false(e: &Exp) -> (r: bool)
    ensures
        r == (e.model() == SExp::Bool(false)),
{
    match e {
        Exp::Atom(a) => {
            assert(e.model() == a.model());
            match a {
                Atom::Boolean(b) => !*b,
                _ => false,
            }
        },
        _ => false,
    }
}

/// `(if cond then else)`.
pub fn do_if_form(ops: &[Exp], env: &mut Env, f: usize, d: usize) -> (r: Result<Exp, SchemeError>)
    requires
        old(env)@.wf(),
        f < old(env)@.frames.len(),
    ensures
        final(env)@.wf(),
        final(env)@.frames.len() >= old(env)@.frames.len(),
        (final(env)@, outcome(r)) == if_s(d as nat, items_model(ops@), old(env)@, f as nat),
        ops@.len() != 3 ==> r is Err && r->Err_0.message@ == arity_message("if"@, 3, 3, ops@.len() as usize),
        ops@.len() == 3 ==> ({
            let (st1, c) = eval_s(d as nat, ops@[0].model(), old(env)@, f as nat);
            match c {
                Ok(v) => (final(env)@, outcome(r)) == if v == SExp::Bool(false) {
                    eval_s(d as nat, ops@[2].model(), st1, f as nat)
                } else {
                    eval_s(d as nat, ops@[1].model(), st1, f as nat)
                },
                Err(k) => final(env)@ == st1 && outcome(r) == Err::<SExp, ErrorKind>(k),
            }
        }),
    decreases d, 1nat, 0nat,
{
    if ops.len() != 3 {
        return Err(SchemeError::malformed_count("if", 3, 3, ops.len()));
    }
    let cond = match evaluate(&ops[0], env, f, d) {
        Ok(v) => v,
        Err(x) => {
            return Err(x);
        },
    };
    if is_false(&cond) {
        evaluate(&ops[2], env, f, d)
    } else {
        evaluate(&ops[1], env, f, d)
    }
}

/// `(and ...)`.
pub fn do_and_form(ops: &[Exp], env: &mut Env, f: usize, d: usize) -> (r: Result<Exp, SchemeError>)
    requires
        old(env)@.wf(),
        f < old(env)@.frames.len(),
    ensures
        final(env)@.wf(),
        final(env)@.frames.len() >= old(env)@.frames.len(),
        (final(env)@, outcome(r)) == and_s(d as nat, items_model(ops@), 0, SExp::Bool(true), old(env)@, f as nat),
        ops@.len() == 0 ==> final(env)@ == old(env)@ && outcome(r) == Ok::<SExp, ErrorKind>(SExp::Bool(true)),
        ops@.len() > 0 && eval_s(d as nat, ops@[0].model(), old(env)@, f as nat).1 == Ok::<SExp, ErrorKind>(SExp::Bool(false))
            ==> final(env)@ == eval_s(d as nat, ops@[0].model(), old(env)@, f as nat).0
            && outcome(r) == Ok::<SExp, ErrorKind>(SExp::Bool(false)),
    decreases d, 1nat, 0nat,
{
    let ghost m = items_model(ops@);
    let ghost st0 = env@;
    let mut val = Exp::Atom(Atom::Boolean(true));
    assert(val.model() == val->Atom_0.model());
    let mut i: usize = 0;
    while i < ops.len()
        invariant
            i <= ops@.len(),
            m == items_model(ops@),
            st0 == old(env)@,
            env@.wf(),
            env@.frames.len() >= st0.frames.len(),
            f < st0.frames.len(),
            and_s(d as nat, m, 0, SExp::Bool(true), st0, f as nat) == and_s(d as nat, m, i as int, val.model(), env@, f as nat),
        decreases ops@.len() - i,
    {
        val = match evaluate(&ops[i], env, f, d) {
            Ok(v) => v,
            Err(x) => {
                return Err(x);
            },
        };
        if is_false(&val) {
            return Ok(val);
        }
        i += 1;
    }
    Ok(val)
}

/// `(or ...)`.
pub fn do_or_form(ops: &[Exp], env: &mut Env, f: usize, d: usize) -> (r: Result<Exp, SchemeError>)
    requires
        old(env)@.wf(),
        f < old(env)@.frames.len(),
    ensures
        final(env)@.wf(),
        final(env)@.frames.len() >= old(env)@.frames.len(),
        (final(env)@, outcome(r)) == or_s(d as nat, items_model(ops@), 0, old(env)@, f as nat),
        ops@.len() == 0 ==> final(env)@ == old(env)@ && outcome(r) == Ok::<SExp, ErrorKind>(SExp::Bool(false)),
        ops@.len() > 0 && (eval_s(d as nat, ops@[0].model(), old(env)@, f as nat).1 matches Ok(v) && v != SExp::Bool(false))
            ==> final(env)@ == eval_s(d as nat, ops@[0].model(), old(env)@, f as nat).0
            && outcome(r) == eval_s(d as nat, ops@[0].model(), old(env)@, f as nat).1,
    decreases d, 1nat, 0nat,
{
    let ghost m = items_model(ops@);
    let ghost st0 = env@;
    let mut i: usize = 0;
    while i < ops.len()
        invariant
            i <= ops@.len(),
            m == items_model(ops@),
            st0 == old(env)@,
            env@.wf(),
            env@.frames.len() >= st0.frames.len(),
            f < st0.frames.len(),
            or_s(d as nat, m, 0, st0, f as nat) == or_s(d as nat, m, i as int, env@, f as nat),
        decreases ops@.len() - i,
    {
        let val = match evaluate(&ops[i], env, f, d) {
            Ok(v) => v,
            Err(x) => {
                return Err(x);
            },
        };
        if !is_false(&val) {
            return Ok(val);
        }
        i += 1;
    }
    let r = Exp::Atom(Atom::Boolean(false));
    assert(r.model() == r->Atom_0.model());
    Ok(r)
}

/// A special form applied to its unevaluated operands.
pub fn eval_form(form: SpecialForm, ops: &[Exp], env: &mut Env, f: usize, d: usize) -> (r: Result<
    Exp,
    SchemeError,
>)
    requires
        old(env)@.wf(),
        f < old(env)@.frames.len(),
    ensures
        final(env)@.wf(),
        final(env)@.frames.len() >= old(env)@.frames.len(),
        (final(env)@, outcome(r)) == form_s(d as nat, form, items_model(ops@), old(env)@, f as nat),
    decreases d, 3nat, 0nat,
{
    match form {
        SpecialForm::Define => do_define_form(ops, env, f, d),
        SpecialForm::Let => do_let_form(ops, env, f, d),
        SpecialForm::Lambda => do_lambda_form(ops, env, f),
        SpecialForm::If => do_if_form(ops, env, f, d),
        SpecialForm::And => do_and_form(ops, env, f, d),
        SpecialForm::Or => do_or_form(ops, env, f, d),
        SpecialForm::Eval => {
            if ops.len() != 1 {
                return Err(SchemeError::malformed_count("eval", 1, 1, ops.len()));
            }
            let v = match evaluate(&ops[0], env, f, d) {
                Ok(v) => v,
                Err(x) => {
                    return Err(x);
                },
            };
            evaluate(&v, env, f, d)
        },
        SpecialForm::Apply => {
            if ops.len() != 2 {
                return Err(SchemeError::malformed_count("apply", 2, 2, ops.len()));
            }
            let fv = match evaluate(&ops[0], env, f, d) {
                Ok(v) => v,
                Err(x) => {
                    return Err(x);
                },
            };
            let lv = match evaluate(&ops[1], env, f, d) {
                Ok(v) => v,
                Err(x) => {
                    return Err(x);
                },
            };
            match &lv {
                Exp::List(items) => {
                    assert(lv.model()->List_0 =~= items_model(items@));
                    apply(&fv, items, env, d)
                },
                Exp::Atom(a) => {
                    assert(lv.model() == a.model());
                    Err(
                        SchemeError::new(
                            ErrorKind::ExpectedList,
                            text("Expected a list, found ").concat(to_text(&lv).as_str()),
                        ),
                    )
                },
                _ => Err(
                    SchemeError::new(
                        ErrorKind::ExpectedList,
                        text("Expected a list, found ").concat(to_text(&lv).as_str()),
                    ),
                ),
            }
        },
    }
}

} // verus!
