use vstd::prelude::*;

use crate::error::{decimal, decimal_text, text};
use crate::rational::Rational;
use crate::types::{items_model, strings_model, Atom, Builtin, Exp, Function, SExp, SpecialForm};

verus! {

/// The decimal text of an integer, with a leading `-` when it is negative.
pub open spec fn int_text(i: int) -> Seq<char> {
    if i < 0 {
        "-"@ + decimal((-i) as nat)
    } else {
        decimal(i as nat)
    }
}

/// The decimal text of an integer.
fn i64_text(n: i64) -> (r: String)
    ensures
        r@ == int_text(n as int),
{
    if n < 0 {
        let magnitude = (-(n as i128)) as u64;
        text("-").concat(decimal_text(magnitude).as_str())
    } else {
        decimal_text(n as u64)
    }
}

/// A number as `n` or `n/d`.
pub open spec fn number_text(q: Rational) -> Seq<char> {
    if q.denominator == 1 {
        int_text(q.numerator as int)
    } else {
        int_text(q.numerator as int) + "/"@ + int_text(q.denominator as int)
    }
}

pub open spec fn form_name(f: SpecialForm) -> Seq<char> {
    match f {
        SpecialForm::Define => "define"@,
        SpecialForm::Let => "let"@,
        SpecialForm::Lambda => "lambda"@,
        SpecialForm::If => "if"@,
        SpecialForm::And => "and"@,
        SpecialForm::Or => "or"@,
        SpecialForm::Eval => "eval"@,
        SpecialForm::Apply => "apply"@,
    }
}

pub open spec fn builtin_name(b: Builtin) -> Seq<char> {
    match b {
        Builtin::Display => "display"@,
        Builtin::Newline => "newline"@,
        Builtin::Add => "+"@,
        Builtin::Sub => "-"@,
        Builtin::Mul => "*"@,
        Builtin::Div => "/"@,
        Builtin::NumEq => "="@,
        Builtin::Lt => "<"@,
        Builtin::Gt => ">"@,
        Builtin::Lte => "<="@,
        Builtin::Gte => ">="@,
        Builtin::List => "list"@,
        Builtin::Cons => "cons"@,
        Builtin::Car => "car"@,
        Builtin::Cdr => "cdr"@,
        Builtin::IsNumber => "number?"@,
        Builtin::IsSymbol => "symbol?"@,
        Builtin::IsEmpty => "empty?"@,
        Builtin::IsFunction => "function?"@,
        Builtin::IsSpecialForm => "special_form?"@,
        Builtin::IsQuote => "quote?"@,
        Builtin::IsBoolean => "boolean?"@,
    }
}

impl SpecialForm {
    pub fn name(&self) -> (r: &'static str)
        ensures
            r@ == form_name(*self),
    {
        match self {
            SpecialForm::Define => "define",
            SpecialForm::Let => "let",
            SpecialForm::Lambda => "lambda",
            SpecialForm::If => "if",
            SpecialForm::And => "and",
            SpecialForm::Or => "or",
            SpecialForm::Eval => "eval",
            SpecialForm::Apply => "apply",
        }
    }
}

impl Builtin {
    pub fn name(&self) -> (r: &'static str)
        ensures
            r@ == builtin_name(*self),
    {
        match self {
            Builtin::Display => "display",
            Builtin::Newline => "newline",
            Builtin::Add => "+",
            Builtin::Sub => "-",
            Builtin::Mul => "*",
            Builtin::Div => "/",
            Builtin::NumEq => "=",
            Builtin::Lt => "<",
            Builtin::Gt => ">",
            Builtin::Lte => "<=",
            Builtin::Gte => ">=",
            Builtin::List => "list",
            Builtin::Cons => "cons",
            Builtin::Car => "car",
            Builtin::Cdr => "cdr",
            Builtin::IsNumber => "number?",
            Builtin::IsSymbol => "symbol?",
            Builtin::IsEmpty => "empty?",
            Builtin::IsFunction => "function?",
            Builtin::IsSpecialForm => "special_form?",
            Builtin::IsQuote => "quote?",
            Builtin::IsBoolean => "boolean?",
        }
    }
}

/// Names separated by single spaces.
pub open spec fn join_names(names: Seq<Seq<char>>) -> Seq<char>
    decreases names.len(),
{
    if names.len() == 0 {
        Seq::empty()
    } else if names.len() == 1 {
        names[0]
    } else {
        join_names(names.subrange(0, names.len() - 1)) + " "@ + names[names.len() - 1]
    }
}

/// The texts of the items, separated by single spaces.
pub open spec fn show_join(items: Seq<SExp>) -> Seq<char>
    decreases items,
{
    if items.len() == 0 {
        Seq::empty()
    } else if items.len() == 1 {
        show(items[0])
    } else {
        show_join(items.subrange(0, items.len() - 1)) + " "@ + show(items[items.len() - 1])
    }
}

/// The S-expression text of a value: lists in parentheses, a dotted list with
/// ` . ` before its tail, a quotation with a leading `'`.
pub open spec fn show(e: SExp) -> Seq<char>
    decreases e,
{
    match e {
        SExp::List(items) => "("@ + show_join(items) + ")"@,
        SExp::ImpList(items) => if items.len() == 0 {
            "()"@
        } else if items.len() == 1 {
            "(. "@ + show(items[0]) + ")"@
        } else {
            "("@ + show_join(items.subrange(0, items.len() - 1)) + " . "@ + show(
                items[items.len() - 1],
            ) + ")"@
        },
        SExp::Bool(b) => if b {
            "true"@
        } else {
            "false"@
        },
        SExp::Num(q) => number_text(q),
        SExp::Sym(s) => s,
        SExp::Form(f) => form_name(f),
        SExp::Quote(q) => "'"@ + show(*q),
        SExp::Prim(b) => builtin_name(b),
        SExp::Lambda(params, body, _) => "(lambda ("@ + join_names(params) + ") "@ + show_join(body)
            + ")"@,
    }
}

fn number_to_text(q: Rational) -> (r: String)
    ensures
        r@ == number_text(q),
{
    let s = i64_text(q.numerator);
    if q.denominator == 1 {
        s
    } else {
        s.concat("/").concat(i64_text(q.denominator).as_str())
    }
}

fn join_strings(names: &Vec<String>) -> (r: String)
    ensures
        r@ == join_names(strings_model(names@)),
{
    let ghost m = strings_model(names@);
    let mut out = String::new();
    let mut i: usize = 0;
    while i < names.len()
        invariant
            i <= names@.len(),
            m == strings_model(names@),
            out@ == join_names(m.subrange(0, i as int)),
        decreases names@.len() - i,
    {
        let ghost pre = m.subrange(0, i as int);
        let ghost next = m.subrange(0, i as int + 1);
        assert(next.subrange(0, i as int) =~= pre);
        if i > 0 {
            out.append(" ");
        }
        out.append(names[i].as_str());
        i += 1;
    }
    assert(m.subrange(0, names@.len() as int) =~= m);
    out
}

/// The texts of the first `end` items, separated by single spaces.
fn show_items(items: &Vec<Exp>, end: usize) -> (r: String)
    requires
        end <= items@.len(),
    ensures
        r@ == show_join(items_model(items@).subrange(0, end as int)),
    decreases items,
{
    let ghost m = items_model(items@);
    let mut out = String::new();
    let mut i: usize = 0;
    while i < end
        invariant
            i <= end <= items@.len(),
            m == items_model(items@),
            out@ == show_join(m.subrange(0, i as int)),
        decreases end - i,
    {
        let ghost pre = m.subrange(0, i as int);
        let ghost next = m.subrange(0, i as int + 1);
        assert(next.subrange(0, i as int) =~= pre);
        proof {
            broadcast use vstd::std_specs::vec::axiom_vec_index_decreases;
            assert(decreases_to!(*items => items[i as int]));
        }
        let t = to_text(&items[i]);
        if i > 0 {
            out.append(" ");
        }
        out.append(t.as_str());
        i += 1;
    }
    out
}

/// The S-expression text of an expression.
pub fn to_text(e: &Exp) -> (r: String)
    ensures
        r@ == show(e.model()),
    decreases e,
{
    match e {
        Exp::List(v) => {
            proof {
                assert(decreases_to!(*e => e->List_0));
            }
            assert(e.model()->List_0 =~= items_model(v@));
            assert(items_model(v@).subrange(0, v@.len() as int) =~= items_model(v@));
            text("(").concat(show_items(v, v.len()).as_str()).concat(")")
        },
        Exp::ImpList(v) => {
            assert(e.model()->ImpList_0 =~= items_model(v@));
            let n = v.len();
            if n == 0 {
                text("()")
            } else {
                proof {
                    broadcast use vstd::std_specs::vec::axiom_vec_index_decreases;
                    assert(decreases_to!(*e => e->ImpList_0));
                    assert(decreases_to!(e->ImpList_0 => v[n - 1]));
                }
                let tail = to_text(&v[n - 1]);
                if n == 1 {
                    text("(. ").concat(tail.as_str()).concat(")")
                } else {
                    let head = show_items(v, n - 1);
                    text("(").concat(head.as_str()).concat(" . ").concat(tail.as_str()).concat(")")
                }
            }
        },
        Exp::Atom(a) => atom_to_text(a),
    }
}

fn atom_to_text(a: &Atom) -> (r: String)
    ensures
        r@ == show(a.model()),
    decreases a,
{
    match a {
        Atom::Boolean(b) => if *b {
            text("true")
        } else {
            text("false")
        },
        Atom::Number(q) => number_to_text(*q),
        Atom::Symbol(s) => s.clone(),
        Atom::SpecialForm(f) => text(f.name()),
        Atom::Quote(q) => text("'").concat(to_text(&**q).as_str()),
        Atom::Function(Function::Builtin(b)) => text(b.name()),
        Atom::Function(Function::Lambda(l)) => {
            proof {
                assert(decreases_to!(*a => a->Function_0));
                assert(decreases_to!(a->Function_0 => a->Function_0->Lambda_0));
                assert(decreases_to!(a->Function_0->Lambda_0 => l.body));
            }
            assert(a.model()->Lambda_1 =~= items_model(l.body@));
            assert(items_model(l.body@).subrange(0, l.body@.len() as int) =~= items_model(l.body@));
            text("(lambda (").concat(join_strings(&l.params).as_str()).concat(") ").concat(
                show_items(&l.body, l.body.len()).as_str(),
            ).concat(")")
        },
    }
}

} // verus!
