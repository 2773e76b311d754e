//! Properties of the interpreter stated over its semantics, and proved.
use vstd::prelude::*;

use crate::builtin::{arity_of, builtin_s, prim_s};
use crate::environment::{
    define, first_index, lemma_define_wf, lemma_first_index_bounds, lemma_first_index_of_pushed,
    lemma_push_child_wf, lookup, push_child, Store,
};
use crate::error::{arity_ok, ErrorKind};
use crate::evaluator::{
    and_s, apply_s, args_s, bind_s, bindings_s, define_s, eval_s, form_s, if_s, lambda_parts_s,
    let_s, or_s, seq_s,
};
use crate::rational::{
    abs, gcd, lemma_gcd_divides, lemma_reduced_coprime, lemma_wide_products, normalize, rat_add,
    rat_div, rat_mul, rat_sub, Rational,
};
use crate::types::{nil, Builtin, SExp, SpecialForm};
use vstd::arithmetic::div_mod::lemma_fundamental_div_mod;

verus! {

// ----------------------------------------------------------------------------
// Evaluation never removes a scope.
// ----------------------------------------------------------------------------

/// The state after an evaluation is well formed and has every scope it had.
pub open spec fn grows(before: Store, after: Store) -> bool {
    after.wf() && after.frames.len() >= before.frames.len()
}

/// Evaluating an expression keeps the state well formed and removes no scope.
pub proof fn lemma_eval_grows(d: nat, e: SExp, st: Store, f: nat)
    requires
        st.wf(),
        f < st.frames.len(),
    ensures
        grows(st, eval_s(d, e, st, f).0),
    decreases d, 0nat, 0nat,
{
    if let SExp::List(items) = e {
        if items.len() > 0 && d > 0 {
            let d1 = (d - 1) as nat;
            lemma_eval_grows(d1, items[0], st, f);
            let (st1, op) = eval_s(d1, items[0], st, f);
            match op {
                Ok(SExp::Form(form)) => {
                    lemma_form_grows(d1, form, items.drop_first(), st1, f);
                },
                Ok(opv) => {
                    lemma_args_grows(d1, items.drop_first(), 0, Seq::empty(), st1, f);
                    let (st2, args) = args_s(d1, items.drop_first(), 0, Seq::empty(), st1, f);
                    if let Ok(vs) = args {
                        lemma_apply_grows(d1, opv, vs, st2);
                    }
                },
                Err(_) => {},
            }
        }
    }
}

proof fn lemma_args_grows(d: nat, items: Seq<SExp>, i: int, acc: Seq<SExp>, st: Store, f: nat)
    requires
        st.wf(),
        f < st.frames.len(),
    ensures
        grows(st, args_s(d, items, i, acc, st, f).0),
    decreases d, 1nat, items.len() - i,
{
    if 0 <= i < items.len() {
        lemma_eval_grows(d, items[i], st, f);
        let (st1, r) = eval_s(d, items[i], st, f);
        if let Ok(v) = r {
            lemma_args_grows(d, items, i + 1, acc.push(v), st1, f);
        }
    }
}

proof fn lemma_seq_grows(d: nat, body: Seq<SExp>, i: int, last: SExp, st: Store, f: nat)
    requires
        st.wf(),
        f < st.frames.len(),
    ensures
        grows(st, seq_s(d, body, i, last, st, f).0),
    decreases d, 1nat, body.len() - i,
{
    if 0 <= i < body.len() {
        lemma_eval_grows(d, body[i], st, f);
        let (st1, r) = eval_s(d, body[i], st, f);
        if let Ok(v) = r {
            lemma_seq_grows(d, body, i + 1, v, st1, f);
        }
    }
}

proof fn lemma_bind_keeps(st: Store, c: nat, params: Seq<Seq<char>>, args: Seq<SExp>, i: int)
    requires
        st.wf(),
        c < st.frames.len(),
    ensures
        bind_s(st, c, params, args, i).wf(),
        bind_s(st, c, params, args, i).frames.len() == st.frames.len(),
    decreases params.len() - i,
{
    if 0 <= i < params.len() && i < args.len() {
        lemma_define_wf(st, c, params[i], args[i]);
        lemma_bind_keeps(define(st, c, params[i], args[i]), c, params, args, i + 1);
    }
}

proof fn lemma_apply_grows(d: nat, opv: SExp, args: Seq<SExp>, st: Store)
    requires
        st.wf(),
    ensures
        grows(st, apply_s(d, opv, args, st).0),
    decreases d, 2nat, 0nat,
{
    if let SExp::Lambda(params, body, c) = opv {
        if params.len() == args.len() && c < st.frames.len() {
            lemma_bind_keeps(st, c, params, args, 0);
            lemma_seq_grows(d, body, 0, nil(), bind_s(st, c, params, args, 0), c);
        }
    }
}

proof fn lemma_define_grows(d: nat, ops: Seq<SExp>, st: Store, f: nat)
    requires
        st.wf(),
        f < st.frames.len(),
    ensures
        grows(st, define_s(d, ops, st, f).0),
    decreases d, 2nat, 0nat,
{
    if ops.len() >= 2 {
        match ops[0] {
            SExp::Sym(name) => {
                lemma_eval_grows(d, ops[1], st, f);
                let (st1, r) = eval_s(d, ops[1], st, f);
                if let Ok(v) = r {
                    lemma_define_wf(st1, f, name, v);
                }
            },
            SExp::List(sig) => {
                if sig.len() >= 1 {
                    if let SExp::Sym(name) = sig[0] {
                        lemma_push_child_wf(st, f);
                        let (st1, r) = lambda_parts_s(sig.drop_first(), ops.drop_first(), st, f);
                        if let Ok(lam) = r {
                            lemma_define_wf(st1, f, name, lam);
                        }
                    }
                }
            },
            _ => {},
        }
    }
}

proof fn lemma_bindings_grows(d: nat, pairs: Seq<SExp>, i: int, st: Store, c: nat)
    requires
        st.wf(),
        c < st.frames.len(),
    ensures
        grows(st, bindings_s(d, pairs, i, st, c).0),
    decreases d, 1nat, pairs.len() - i,
{
    if 0 <= i < pairs.len() {
        if let SExp::List(pv) = pairs[i] {
            if pv.len() >= 2 {
                if let SExp::Sym(name) = pv[0] {
                    lemma_eval_grows(d, pv[1], st, c);
                    let (st1, r) = eval_s(d, pv[1], st, c);
                    if let Ok(v) = r {
                        lemma_define_wf(st1, c, name, v);
                        lemma_bindings_grows(d, pairs, i + 1, define(st1, c, name, v), c);
                    }
                }
            }
        }
    }
}

proof fn lemma_let_grows(d: nat, ops: Seq<SExp>, st: Store, f: nat)
    requires
        st.wf(),
        f < st.frames.len(),
    ensures
        grows(st, let_s(d, ops, st, f).0),
    decreases d, 2nat, 0nat,
{
    if ops.len() >= 2 {
        let c = st.frames.len();
        let st1 = push_child(st, f);
        lemma_push_child_wf(st, f);
        if let SExp::List(pairs) = ops[0] {
            lemma_bindings_grows(d, pairs, 0, st1, c);
            let (st2, r) = bindings_s(d, pairs, 0, st1, c);
            if r is None {
                lemma_seq_grows(d, ops, 1, nil(), st2, c);
            }
        }
    }
}

proof fn lemma_if_grows(d: nat, ops: Seq<SExp>, st: Store, f: nat)
    requires
        st.wf(),
        f < st.frames.len(),
    ensures
        grows(st, if_s(d, ops, st, f).0),
    decreases d, 1nat, 0nat,
{
    if ops.len() == 3 {
        lemma_eval_grows(d, ops[0], st, f);
        let (st1, r) = eval_s(d, ops[0], st, f);
        lemma_eval_grows(d, ops[1], st1, f);
        lemma_eval_grows(d, ops[2], st1, f);
    }
}

proof fn lemma_and_grows(d: nat, ops: Seq<SExp>, i: int, last: SExp, st: Store, f: nat)
    requires
        st.wf(),
        f < st.frames.len(),
    ensures
        grows(st, and_s(d, ops, i, last, st, f).0),
    decreases d, 1nat, ops.len() - i,
{
    if 0 <= i < ops.len() {
        lemma_eval_grows(d, ops[i], st, f);
        let (st1, r) = eval_s(d, ops[i], st, f);
        if let Ok(v) = r {
            lemma_and_grows(d, ops, i + 1, v, st1, f);
        }
    }
}

proof fn lemma_or_grows(d: nat, ops: Seq<SExp>, i: int, st: Store, f: nat)
    requires
        st.wf(),
        f < st.frames.len(),
    ensures
        grows(st, or_s(d, ops, i, st, f).0),
    decreases d, 1nat, ops.len() - i,
{
    if 0 <= i < ops.len() {
        lemma_eval_grows(d, ops[i], st, f);
        let (st1, r) = eval_s(d, ops[i], st, f);
        lemma_or_grows(d, ops, i + 1, st1, f);
    }
}

proof fn lemma_form_grows(d: nat, form: SpecialForm, ops: Seq<SExp>, st: Store, f: nat)
    requires
        st.wf(),
        f < st.frames.len(),
    ensures
        grows(st, form_s(d, form, ops, st, f).0),
    decreases d, 3nat, 0nat,
{
    match form {
        SpecialForm::Define => lemma_define_grows(d, ops, st, f),
        SpecialForm::Let => lemma_let_grows(d, ops, st, f),
        SpecialForm::Lambda => lemma_push_child_wf(st, f),
        SpecialForm::If => lemma_if_grows(d, ops, st, f),
        SpecialForm::And => lemma_and_grows(d, ops, 0, SExp::Bool(true), st, f),
        SpecialForm::Or => lemma_or_grows(d, ops, 0, st, f),
        SpecialForm::Eval => {
            if ops.len() == 1 {
                lemma_eval_grows(d, ops[0], st, f);
                let (st1, r) = eval_s(d, ops[0], st, f);
                if let Ok(v) = r {
                    lemma_eval_grows(d, v, st1, f);
                }
            }
        },
        SpecialForm::Apply => {
            if ops.len() == 2 {
                lemma_eval_grows(d, ops[0], st, f);
                let (st1, r1) = eval_s(d, ops[0], st, f);
                lemma_eval_grows(d, ops[1], st1, f);
                let (st2, r2) = eval_s(d, ops[1], st1, f);
                if let (Ok(fv), Ok(SExp::List(items))) = (r1, r2) {
                    lemma_apply_grows(d, fv, items, st2);
                }
            }
        },
    }
}

// ----------------------------------------------------------------------------
// Definitions.
// ----------------------------------------------------------------------------

/// A name bound in a scope is seen there with the value it was bound to.
pub proof fn lemma_lookup_after_define(st: Store, f: nat, n: Seq<char>, v: SExp)
    requires
        st.wf(),
        f < st.frames.len(),
    ensures
        lookup(define(st, f, n, v), f, n) == Some(v),
{
    let fr = st.frames[f as int];
    let k = first_index(fr.names, n, 0);
    lemma_first_index_bounds(fr.names, n, 0);
    let st2 = define(st, f, n, v);
    let fr2 = st2.frames[f as int];
    if k >= 0 {
        assert(fr2.names == fr.names);
        assert(first_index(fr2.names, n, 0) == k);
    } else {
        lemma_first_index_of_pushed(fr.names, n, 0);
        assert(first_index(fr2.names, n, 0) == fr.names.len());
    }
}

// ----------------------------------------------------------------------------
// Laws of the language.
// ----------------------------------------------------------------------------

/// `(define name expr)` yields `nil`, fails as `expr` fails, and otherwise
/// leaves `name` referring, in the same scope, to the value `expr` had there.
pub proof fn lemma_define_then_reference(d: nat, st: Store, f: nat, name: Seq<char>, expr: SExp)
    requires
        st.wf(),
        f < st.frames.len(),
    ensures
        ({
            let def = SExp::List(seq![SExp::Form(SpecialForm::Define), SExp::Sym(name), expr]);
            let (st1, r) = eval_s(d + 1, def, st, f);
            let (st_e, re) = eval_s(d, expr, st, f);
            match re {
                Ok(v) => {
                    &&& r == Ok::<SExp, ErrorKind>(nil())
                    &&& st1 == define(st_e, f, name, v)
                    &&& eval_s(d, SExp::Sym(name), st1, f) == (st1, Ok::<SExp, ErrorKind>(v))
                },
                Err(k) => r == Err::<SExp, ErrorKind>(k),
            }
        }),
{
    let def = SExp::List(seq![SExp::Form(SpecialForm::Define), SExp::Sym(name), expr]);
    let items = seq![SExp::Form(SpecialForm::Define), SExp::Sym(name), expr];
    assert(items.drop_first() =~= seq![SExp::Sym(name), expr]);
    let ops = seq![SExp::Sym(name), expr];
    assert(eval_s(d, items[0], st, f) == (st, Ok::<SExp, ErrorKind>(SExp::Form(SpecialForm::Define))));
    assert(eval_s(d + 1, def, st, f) == form_s(d, SpecialForm::Define, ops, st, f));
    assert(form_s(d, SpecialForm::Define, ops, st, f) == define_s(d, ops, st, f));
    lemma_eval_grows(d, expr, st, f);
    let (st_e, re) = eval_s(d, expr, st, f);
    assert(ops[1] == expr);
    if let Ok(v) = re {
        assert(define_s(d, ops, st, f) == (define(st_e, f, name, v), Ok::<SExp, ErrorKind>(nil())));
        lemma_lookup_after_define(st_e, f, name, v);
    }
}

/// A lambda applied to a number of arguments other than its number of
/// parameters fails with an arity error naming both counts.
pub proof fn lemma_lambda_arity_mismatch(
    d: nat,
    params: Seq<Seq<char>>,
    body: Seq<SExp>,
    c: nat,
    args: Seq<SExp>,
    st: Store,
)
    requires
        params.len() != args.len(),
    ensures
        apply_s(d, SExp::Lambda(params, body, c), args, st) == (
            st,
            Err::<SExp, ErrorKind>(
                ErrorKind::Arity {
                    min: params.len() as usize,
                    max: params.len() as usize,
                    found: args.len() as usize,
                },
            ),
        ),
{
}

/// A builtin applied to a number of arguments outside its bounds fails with an
/// arity error naming the bounds and the count.
pub proof fn lemma_builtin_arity_mismatch(b: Builtin, args: Seq<SExp>, st: Store)
    requires
        !arity_ok(args.len(), arity_of(b).0, arity_of(b).1),
    ensures
        builtin_s(b, args, st) == (
            st,
            Err::<SExp, ErrorKind>(
                ErrorKind::Arity { min: arity_of(b).0, max: arity_of(b).1, found: args.len() as usize },
            ),
        ),
{
}

/// `and` stops at the first operand whose value is `false`, and yields it.
pub proof fn lemma_and_stops_at_false(d: nat, ops: Seq<SExp>, i: int, last: SExp, st: Store, f: nat)
    requires
        0 <= i < ops.len(),
        eval_s(d, ops[i], st, f).1 == Ok::<SExp, ErrorKind>(SExp::Bool(false)),
    ensures
        and_s(d, ops, i, last, st, f) == (eval_s(d, ops[i], st, f).0, Ok::<SExp, ErrorKind>(SExp::Bool(false))),
{
}

/// `and` goes on past an operand whose value is not `false`, and yields the
/// last value when every operand has been evaluated (`true` when there are none).
pub proof fn lemma_and_continues(d: nat, ops: Seq<SExp>, i: int, last: SExp, v: SExp, st: Store, f: nat)
    requires
        0 <= i <= ops.len(),
    ensures
        i == ops.len() ==> and_s(d, ops, i, last, st, f) == (st, Ok::<SExp, ErrorKind>(last)),
        i < ops.len() ==> (eval_s(d, ops[i], st, f).1 == Ok::<SExp, ErrorKind>(v) && v != SExp::Bool(false)
            ==> and_s(d, ops, i, last, st, f) == and_s(d, ops, i + 1, v, eval_s(d, ops[i], st, f).0, f)),
{
}

/// `or` stops at the first operand whose value is not `false`, and yields that value.
pub proof fn lemma_or_stops_at_value(d: nat, ops: Seq<SExp>, i: int, v: SExp, st: Store, f: nat)
    requires
        0 <= i < ops.len(),
        eval_s(d, ops[i], st, f).1 == Ok::<SExp, ErrorKind>(v),
        v != SExp::Bool(false),
    ensures
        or_s(d, ops, i, st, f) == (eval_s(d, ops[i], st, f).0, Ok::<SExp, ErrorKind>(v)),
{
}

/// `or` goes on past an operand whose value is `false`, and yields `false` when
/// every operand has been evaluated.
pub proof fn lemma_or_continues(d: nat, ops: Seq<SExp>, i: int, st: Store, f: nat)
    requires
        0 <= i <= ops.len(),
    ensures
        i == ops.len() ==> or_s(d, ops, i, st, f) == (st, Ok::<SExp, ErrorKind>(SExp::Bool(false))),
        i < ops.len() ==> (eval_s(d, ops[i], st, f).1 == Ok::<SExp, ErrorKind>(SExp::Bool(false))
            ==> or_s(d, ops, i, st, f) == or_s(d, ops, i + 1, eval_s(d, ops[i], st, f).0, f)),
{
}

/// `if` evaluates its else branch exactly when the condition's value is
/// `false`; any other value, of any type, selects the then branch.
pub proof fn lemma_if_truthiness(d: nat, c: SExp, t: SExp, e: SExp, st: Store, f: nat)
    ensures
        ({
            let (st1, r) = eval_s(d, c, st, f);
            match r {
                Ok(v) => if_s(d, seq![c, t, e], st, f) == if v == SExp::Bool(false) {
                    eval_s(d, e, st1, f)
                } else {
                    eval_s(d, t, st1, f)
                },
                Err(k) => if_s(d, seq![c, t, e], st, f) == (st1, Err::<SExp, ErrorKind>(k)),
            }
        }),
{
}

/// `car` and `cdr` of the empty list fail with an error of their own; `cdr` of
/// a one-item list is the empty list; `cons` onto a list puts the new item
/// first and keeps the others in order, and `car` and `cdr` take it apart again.
pub proof fn lemma_list_primitives(x: SExp, l: Seq<SExp>)
    ensures
        prim_s(Builtin::Car, seq![nil()]) == Err::<SExp, ErrorKind>(ErrorKind::EmptyList),
        prim_s(Builtin::Cdr, seq![nil()]) == Err::<SExp, ErrorKind>(ErrorKind::EmptyList),
        prim_s(Builtin::Cdr, seq![SExp::List(seq![x])]) == Ok::<SExp, ErrorKind>(nil()),
        prim_s(Builtin::Cons, seq![x, SExp::List(l)]) == Ok::<SExp, ErrorKind>(SExp::List(seq![x] + l)),
        prim_s(Builtin::Car, seq![SExp::List(seq![x] + l)]) == Ok::<SExp, ErrorKind>(x),
        prim_s(Builtin::Cdr, seq![SExp::List(seq![x] + l)]) == Ok::<SExp, ErrorKind>(SExp::List(l)),
{
    assert(seq![x].drop_first() =~= Seq::<SExp>::empty());
    assert((seq![x] + l).drop_first() =~= l);
    assert((seq![x] + l)[0] == x);
}

/// A reduced fraction has a positive denominator, no common factor, and the
/// value of the fraction it was made from.
pub proof fn lemma_normalize(n: int, d: int)
    ensures
        normalize(n, d) matches Ok(q) ==> q.wf() && q.denotes(n, d),
{
    if d != 0 {
        let an = abs(n);
        let ad = abs(d);
        let g = gcd(an, ad);
        lemma_gcd_divides(an, ad);
        lemma_reduced_coprime(an, ad);
        lemma_fundamental_div_mod(an as int, g as int);
        lemma_fundamental_div_mod(ad as int, g as int);
        let qn = an / g;
        let qd = ad / g;
        assert(an == g * qn && ad == g * qd);
        assert(qd > 0) by (nonlinear_arith)
            requires
                ad == g * qd,
                ad > 0,
                g > 0,
        ;
        if let Ok(q) = normalize(n, d) {
            assert(q.denominator as int == qd);
            assert(abs(q.numerator as int) == qn);
            let num = q.numerator as int;
            if n >= 0 && d > 0 {
                assert(num * d == n * qd) by (nonlinear_arith)
                    requires
                        num == qn,
                        n == g * qn,
                        d == g * qd,
                ;
            } else if n < 0 && d > 0 {
                assert(num * d == n * qd) by (nonlinear_arith)
                    requires
                        num == -qn,
                        n == -(g * qn),
                        d == g * qd,
                ;
            } else if n >= 0 && d < 0 {
                assert(num * d == n * qd) by (nonlinear_arith)
                    requires
                        num == -qn,
                        n == g * qn,
                        d == -(g * qd),
                ;
            } else {
                assert(num * d == n * qd) by (nonlinear_arith)
                    requires
                        num == qn,
                        n == -(g * qn),
                        d == -(g * qd),
                ;
            }
        }
    }
}

/// Sums, differences, products and quotients are in lowest terms with a
/// positive denominator and denote the exact result; dividing by a value whose
/// numerator is zero fails with a division-by-zero error.
pub proof fn lemma_arithmetic_exact(a: Rational, b: Rational)
    ensures
        rat_add(a, b) matches Ok(q) ==> q.wf() && q.denotes(
            a.numerator * b.denominator + b.numerator * a.denominator,
            a.denominator * b.denominator,
        ),
        rat_sub(a, b) matches Ok(q) ==> q.wf() && q.denotes(
            a.numerator * b.denominator - b.numerator * a.denominator,
            a.denominator * b.denominator,
        ),
        rat_mul(a, b) matches Ok(q) ==> q.wf() && q.denotes(
            a.numerator * b.numerator,
            a.denominator * b.denominator,
        ),
        rat_div(a, b) matches Ok(q) ==> q.wf() && q.denotes(
            a.numerator * b.denominator,
            b.numerator * a.denominator,
        ),
        b.numerator == 0 ==> rat_div(a, b) == Err::<Rational, ErrorKind>(ErrorKind::DivideByZero),
{
    lemma_normalize(
        a.numerator * b.denominator + b.numerator * a.denominator,
        a.denominator * b.denominator,
    );
    lemma_normalize(
        a.numerator * b.denominator - b.numerator * a.denominator,
        a.denominator * b.denominator,
    );
    lemma_normalize(a.numerator * b.numerator, a.denominator * b.denominator);
    lemma_normalize(a.numerator * b.denominator, b.numerator * a.denominator);
    lemma_wide_products(a.numerator, b.denominator, b.numerator, a.denominator);
    if b.numerator == 0 {
        assert(b.numerator * a.denominator == 0);
    }
}

/// Calling a lambda binds its parameters in the scope it captured and nowhere
/// else: every other scope, the defining one included, keeps its bindings, so a
/// parameter shadows an outer name without changing it.
pub proof fn lemma_call_binds_only_captured_scope(
    st: Store,
    c: nat,
    params: Seq<Seq<char>>,
    args: Seq<SExp>,
    i: int,
    k: int,
)
    requires
        st.wf(),
        c < st.frames.len(),
        0 <= k < st.frames.len(),
        k != c,
    ensures
        bind_s(st, c, params, args, i).frames[k] == st.frames[k],
    decreases params.len() - i,
{
    if 0 <= i < params.len() && i < args.len() {
        let st1 = define(st, c, params[i], args[i]);
        lemma_define_wf(st, c, params[i], args[i]);
        lemma_call_binds_only_captured_scope(st1, c, params, args, i + 1, k);
    }
}

/// In a `let`, each binding is evaluated in the new scope after the earlier
/// ones are bound there, so it sees them: a binding `(n e)` evaluates `e`,
/// binds `n` to its value, and the later bindings then see `n` with that value.
pub proof fn lemma_let_bindings_are_sequential(
    d: nat,
    pairs: Seq<SExp>,
    i: int,
    st: Store,
    c: nat,
    n: Seq<char>,
    e: SExp,
)
    requires
        st.wf(),
        c < st.frames.len(),
        0 <= i < pairs.len(),
        pairs[i] == SExp::List(seq![SExp::Sym(n), e]),
    ensures
        ({
            let (st1, r) = eval_s(d, e, st, c);
            match r {
                Ok(v) => {
                    &&& bindings_s(d, pairs, i, st, c) == bindings_s(d, pairs, i + 1, define(st1, c, n, v), c)
                    &&& lookup(define(st1, c, n, v), c, n) == Some(v)
                },
                Err(k) => bindings_s(d, pairs, i, st, c) == (st1, Some(k)),
            }
        }),
{
    let pv = seq![SExp::Sym(n), e];
    assert(pv[0] == SExp::Sym(n) && pv[1] == e);
    lemma_eval_grows(d, e, st, c);
    let (st1, r) = eval_s(d, e, st, c);
    if let Ok(v) = r {
        lemma_lookup_after_define(st1, c, n, v);
    }
}

/// A closure's scope sees its defining scope by reference: a name that the
/// closure's own scope does not bind, defined in the defining scope after the
/// closure was made, is seen from the closure's scope with its new value.
pub proof fn lemma_closure_sees_later_definitions(st: Store, c: nat, p: nat, n: Seq<char>, v: SExp)
    requires
        st.wf(),
        c < st.frames.len(),
        st.frames[c as int].parent == Some(p),
        first_index(st.frames[c as int].names, n, 0) < 0,
    ensures
        lookup(define(st, p, n, v), c, n) == Some(v),
{
    assert(p < c);
    let st2 = define(st, p, n, v);
    lemma_define_wf(st, p, n, v);
    assert(st2.frames[c as int] == st.frames[c as int]);
    lemma_lookup_after_define(st, p, n, v);
}

} // verus!
