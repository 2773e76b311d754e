use vstd::prelude::*;

use crate::error::{ErrorKind, SchemeError};
use crate::rational::Rational;

verus! {

/// The tags of the special forms: list heads whose operands are not evaluated
/// before the form itself decides what to do with them.
#[derive(Clone, Copy, Debug, PartialEq, Eq, Structural)]
pub enum SpecialForm {
    Define,
    Let,
    Lambda,
    If,
    And,
    Or,
    Eval,
    Apply,
}

/// The primitive procedures of the root environment.
#[derive(Clone, Copy, Debug, PartialEq, Eq, Structural)]
pub enum Builtin {
    Display,
    Newline,
    Add,
    Sub,
    Mul,
    Div,
    NumEq,
    Lt,
    Gt,
    Lte,
    Gte,
    List,
    Cons,
    Car,
    Cdr,
    IsNumber,
    IsSymbol,
    IsEmpty,
    IsFunction,
    IsSpecialForm,
    IsQuote,
    IsBoolean,
}

/// A user-defined procedure: parameter names, body, and the handle of the
/// environment frame it captured when it was created.
#[derive(Debug, PartialEq)]
pub struct Lambda {
    pub params: Vec<String>,
    pub body: Vec<Exp>,
    pub env: usize,
}

/// Anything that can be applied to arguments.
#[derive(Debug, PartialEq)]
pub enum Function {
    Builtin(Builtin),
    Lambda(Lambda),
}

/// An indivisible value.
#[derive(Debug, PartialEq)]
pub enum Atom {
    Boolean(bool),
    Number(Rational),
    Symbol(String),
    SpecialForm(SpecialForm),
    Quote(Box<Exp>),
    Function(Function),
}

/// An expression: a proper list, an improper (dotted) list whose last element
/// is the tail, or an atom. The empty proper list is `nil`.
#[derive(Debug, PartialEq)]
pub enum Exp {
    List(Vec<Exp>),
    ImpList(Vec<Exp>),
    Atom(Atom),
}

/// The mathematical model of an expression.
pub enum SExp {
    List(Seq<SExp>),
    ImpList(Seq<SExp>),
    Bool(bool),
    Num(Rational),
    Sym(Seq<char>),
    Form(SpecialForm),
    Quote(Box<SExp>),
    Prim(Builtin),
    Lambda(Seq<Seq<char>>, Seq<SExp>, nat),
}

pub open spec fn nil() -> SExp {
    SExp::List(Seq::empty())
}

pub open spec fn strings_model(v: Seq<String>) -> Seq<Seq<char>> {
    Seq::new(v.len(), |i: int| v[i]@)
}

impl Exp {
    pub open spec fn model(&self) -> SExp
        decreases self,
    {
        match self {
            Exp::List(v) => SExp::List(
                Seq::new(v.len() as nat, |i: int| if 0 <= i < v.len() { v[i].model() } else { nil() }),
            ),
            Exp::ImpList(v) => SExp::ImpList(
                Seq::new(v.len() as nat, |i: int| if 0 <= i < v.len() { v[i].model() } else { nil() }),
            ),
            Exp::Atom(a) => a.model(),
        }
    }

    /// A copy of this expression with the same model.
    pub fn duplicate(&self) -> (r: Exp)
        ensures
            r.model() == self.model(),
        decreases self,
    {
        match self {
            Exp::List(v) => {
                proof {
                    assert(decreases_to!(*self => self->List_0));
                }
                let out = duplicate_items(v);
                let r = Exp::List(out);
                assert(r.model()->List_0 =~= self.model()->List_0);
                r
            },
            Exp::ImpList(v) => {
                proof {
                    assert(decreases_to!(*self => self->ImpList_0));
                }
                let out = duplicate_items(v);
                let r = Exp::ImpList(out);
                assert(r.model()->ImpList_0 =~= self.model()->ImpList_0);
                r
            },
            Exp::Atom(a) => Exp::Atom(a.duplicate()),
        }
    }

    pub fn new_list() -> (r: Exp)
        ensures
            r.model() == nil(),
    {
        let r = Exp::List(Vec::new());
        assert(r.model()->List_0 =~= Seq::<SExp>::empty());
        r
    }

    /// An improper list holding copies of the given items, the last being the tail.
    pub fn imp_from(list: &[Exp]) -> (r: Exp)
        ensures
            r.model() == SExp::ImpList(items_model(list@)),
    {
        let mut out: Vec<Exp> = Vec::new();
        let mut i: usize = 0;
        while i < list.len()
            invariant
                i <= list@.len(),
                out@.len() == i,
                forall|j: int| 0 <= j < i ==> (#[trigger] out@[j]).model() == list@[j].model(),
            decreases list@.len() - i,
        {
            out.push(list[i].duplicate());
            i += 1;
        }
        let r = Exp::ImpList(out);
        assert(r.model()->ImpList_0 =~= items_model(list@));
        r
    }

    /// A copy of the atom inside this expression; a list is an `ExpectedAtom` error.
    pub fn unwrap_atom(&self) -> (r: Result<Atom, SchemeError>)
        ensures
            r is Ok <==> self is Atom,
            r is Ok ==> r->Ok_0.model() == self.model(),
            r is Err ==> r->Err_0.kind == ErrorKind::ExpectedAtom,
    {
        match self {
            Exp::Atom(a) => Ok(a.duplicate()),
            _ => Err(
                SchemeError::new(
                    ErrorKind::ExpectedAtom,
                    crate::error::text("Expected an atom, found ").concat(
                        crate::text::to_text(self).as_str(),
                    ),
                ),
            ),
        }
    }

    /// Copies of the items of a proper list; anything else is an `ExpectedList` error.
    pub fn unwrap_list(&self) -> (r: Result<Vec<Exp>, SchemeError>)
        ensures
            r is Ok <==> self is List,
            r is Ok ==> self.model() == SExp::List(items_model(r->Ok_0@)),
            r is Err ==> r->Err_0.kind == ErrorKind::ExpectedList,
    {
        match self {
            Exp::List(v) => {
                let out = duplicate_items(v);
                assert(self.model()->List_0 =~= items_model(out@));
                Ok(out)
            },
            _ => Err(
                SchemeError::new(
                    ErrorKind::ExpectedList,
                    crate::error::text("Expected a list, found ").concat(
                        crate::text::to_text(self).as_str(),
                    ),
                ),
            ),
        }
    }
}

/// The outcome of an evaluation, with the error reduced to its kind.
pub open spec fn outcome(r: Result<Exp, SchemeError>) -> Result<SExp, ErrorKind> {
    match r {
        Ok(e) => Ok(e.model()),
        Err(x) => Err(x.kind),
    }
}

/// Whether two expressions have the same model.
pub fn exp_eq(a: &Exp, b: &Exp) -> (r: bool)
    ensures
        r == (a.model() == b.model()),
    decreases a,
{
    match (a, b) {
        (Exp::List(x), Exp::List(y)) => {
            proof {
                assert(decreases_to!(*a => a->List_0));
            }
            let r = items_eq(x, y);
            assert(a.model()->List_0 =~= items_model(x@));
            assert(b.model()->List_0 =~= items_model(y@));
            r
        },
        (Exp::ImpList(x), Exp::ImpList(y)) => {
            proof {
                assert(decreases_to!(*a => a->ImpList_0));
            }
            let r = items_eq(x, y);
            assert(a.model()->ImpList_0 =~= items_model(x@));
            assert(b.model()->ImpList_0 =~= items_model(y@));
            r
        },
        (Exp::Atom(x), Exp::Atom(y)) => atom_eq(x, y),
        (Exp::Atom(x), _) => {
            assert(!(x.model() is List) && !(x.model() is ImpList));
            false
        },
        (_, Exp::Atom(y)) => {
            assert(!(y.model() is List) && !(y.model() is ImpList));
            false
        },
        _ => false,
    }
}

/// Whether two sequences of expressions have the same models.
fn items_eq(x: &Vec<Exp>, y: &Vec<Exp>) -> (r: bool)
    ensures
        r == (items_model(x@) == items_model(y@)),
    decreases x,
{
    if x.len() != y.len() {
        assert(items_model(x@).len() != items_model(y@).len());
        return false;
    }
    let mut i: usize = 0;
    while i < x.len()
        invariant
            i <= x@.len(),
            x@.len() == y@.len(),
            forall|j: int| 0 <= j < i ==> (#[trigger] x@[j]).model() == y@[j].model(),
        decreases x@.len() - i,
    {
        proof {
            broadcast use vstd::std_specs::vec::axiom_vec_index_decreases;
            assert(decreases_to!(*x => x[i as int]));
        }
        if !exp_eq(&x[i], &y[i]) {
            assert(items_model(x@)[i as int] != items_model(y@)[i as int]);
            return false;
        }
        i += 1;
    }
    assert(items_model(x@) =~= items_model(y@));
    true
}

fn strings_eq(x: &Vec<String>, y: &Vec<String>) -> (r: bool)
    ensures
        r == (strings_model(x@) == strings_model(y@)),
{
    if x.len() != y.len() {
        assert(strings_model(x@).len() != strings_model(y@).len());
        return false;
    }
    let mut i: usize = 0;
    while i < x.len()
        invariant
            i <= x@.len(),
            x@.len() == y@.len(),
            forall|j: int| 0 <= j < i ==> (#[trigger] x@[j])@ == y@[j]@,
        decreases x@.len() - i,
    {
        if x[i] != y[i] {
            assert(strings_model(x@)[i as int] != strings_model(y@)[i as int]);
            return false;
        }
        i += 1;
    }
    assert(strings_model(x@) =~= strings_model(y@));
    true
}

fn atom_eq(a: &Atom, b: &Atom) -> (r: bool)
    ensures
        r == (a.model() == b.model()),
    decreases a,
{
    match (a, b) {
        (Atom::Boolean(x), Atom::Boolean(y)) => *x == *y,
        (Atom::Number(x), Atom::Number(y)) => x.numerator == y.numerator && x.denominator == y.denominator,
        (Atom::Symbol(x), Atom::Symbol(y)) => *x == *y,
        (Atom::SpecialForm(x), Atom::SpecialForm(y)) => *x == *y,
        (Atom::Quote(x), Atom::Quote(y)) => exp_eq(&**x, &**y),
        (Atom::Function(Function::Builtin(x)), Atom::Function(Function::Builtin(y))) => *x == *y,
        (Atom::Function(Function::Lambda(x)), Atom::Function(Function::Lambda(y))) => {
            proof {
                assert(decreases_to!(*a => a->Function_0));
                assert(decreases_to!(a->Function_0 => a->Function_0->Lambda_0));
                assert(decreases_to!(a->Function_0->Lambda_0 => x.body));
            }
            let same_body = items_eq(&x.body, &y.body);
            let same_params = strings_eq(&x.params, &y.params);
            assert(a.model()->Lambda_1 =~= items_model(x.body@));
            assert(b.model()->Lambda_1 =~= items_model(y.body@));
            same_params && same_body && x.env == y.env
        },
        _ => false,
    }
}

/// The models of a sequence of expressions.
pub open spec fn items_model(v: Seq<Exp>) -> Seq<SExp> {
    Seq::new(v.len(), |i: int| v[i].model())
}

/// Copies of every item, in order.
pub fn duplicate_items(v: &Vec<Exp>) -> (out: Vec<Exp>)
    ensures
        out@.len() == v@.len(),
        forall|j: int| 0 <= j < v@.len() ==> (#[trigger] out@[j]).model() == v@[j].model(),
        items_model(out@) == items_model(v@),
    decreases v,
{
    let mut out: Vec<Exp> = Vec::new();
    let mut i: usize = 0;
    while i < v.len()
        invariant
            i <= v@.len(),
            out@.len() == i,
            forall|j: int| 0 <= j < i ==> (#[trigger] out@[j]).model() == v@[j].model(),
        decreases v@.len() - i,
    {
        proof {
            broadcast use vstd::std_specs::vec::axiom_vec_index_decreases;
            assert(decreases_to!(*v => v[i as int]));
        }
        out.push(v[i].duplicate());
        i += 1;
    }
    assert(items_model(out@) =~= items_model(v@));
    out
}

/// Copies of every string, in order.
pub fn duplicate_strings(v: &Vec<String>) -> (out: Vec<String>)
    ensures
        out@ == v@,
{
    let mut out: Vec<String> = Vec::new();
    let mut i: usize = 0;
    while i < v.len()
        invariant
            i <= v@.len(),
            out@ == v@.subrange(0, i as int),
        decreases v@.len() - i,
    {
        out.push(v[i].clone());
        i += 1;
        assert(out@ =~= v@.subrange(0, i as int));
    }
    assert(out@ =~= v@);
    out
}

impl Atom {
    pub open spec fn model(&self) -> SExp
        decreases self,
    {
        match self {
            Atom::Boolean(b) => SExp::Bool(*b),
            Atom::Number(n) => SExp::Num(*n),
            Atom::Symbol(s) => SExp::Sym(s@),
            Atom::SpecialForm(f) => SExp::Form(*f),
            Atom::Quote(q) => SExp::Quote(Box::new((**q).model())),
            Atom::Function(Function::Builtin(b)) => SExp::Prim(*b),
            Atom::Function(Function::Lambda(l)) => SExp::Lambda(
                strings_model(l.params@),
                Seq::new(
                    l.body.len() as nat,
                    |i: int| if 0 <= i < l.body.len() { l.body[i].model() } else { nil() },
                ),
                l.env as nat,
            ),
        }
    }

    pub fn duplicate(&self) -> (r: Atom)
        ensures
            r.model() == self.model(),
        decreases self,
    {
        match self {
            Atom::Boolean(b) => Atom::Boolean(*b),
            Atom::Number(n) => Atom::Number(*n),
            Atom::Symbol(s) => Atom::Symbol(s.clone()),
            Atom::SpecialForm(f) => Atom::SpecialForm(*f),
            Atom::Quote(q) => {
                let inner = (**q).duplicate();
                Atom::Quote(Box::new(inner))
            },
            Atom::Function(Function::Builtin(b)) => Atom::Function(Function::Builtin(*b)),
            Atom::Function(Function::Lambda(l)) => {
                let c = l.duplicate();
                let r = Atom::Function(Function::Lambda(c));
                assert(r.model()->Lambda_1 =~= c.model()->Lambda_1);
                assert(self.model()->Lambda_1 =~= l.model()->Lambda_1);
                r
            },
        }
    }

    pub fn is_number(&self) -> (r: bool)
        ensures
            r == (self.model() is Num),
    {
        match self {
            Atom::Number(_) => true,
            _ => false,
        }
    }

    pub fn is_symbol(&self) -> (r: bool)
        ensures
            r == (self.model() is Sym),
    {
        match self {
            Atom::Symbol(_) => true,
            _ => false,
        }
    }

    /// Whether this atom is the quoted empty list, which evaluates to `nil`.
    pub fn is_nil(&self) -> (r: bool)
        ensures
            r == (self.model() == SExp::Quote(Box::new(nil()))),
    {
        match self {
            Atom::Quote(q) => match &**q {
                Exp::List(v) => {
                    if v.len() == 0 {
                        assert((**q).model()->List_0 =~= Seq::<SExp>::empty());
                        true
                    } else {
                        assert((**q).model()->List_0.len() > 0);
                        false
                    }
                },
                Exp::ImpList(_) => false,
                Exp::Atom(a) => {
                    assert((**q).model() == a.model());
                    false
                },
            },
            _ => false,
        }
    }

    pub fn is_builtin(&self) -> (r: bool)
        ensures
            r == (self.model() is Prim),
    {
        match self {
            Atom::Function(Function::Builtin(_)) => true,
            _ => false,
        }
    }

    pub fn is_special_form(&self) -> (r: bool)
        ensures
            r == (self.model() is Form),
    {
        match self {
            Atom::SpecialForm(_) => true,
            _ => false,
        }
    }

    pub fn is_quote(&self) -> (r: bool)
        ensures
            r == (self.model() is Quote),
    {
        match self {
            Atom::Quote(_) => true,
            _ => false,
        }
    }

    pub fn is_lambda(&self) -> (r: bool)
        ensures
            r == (self.model() is Lambda),
    {
        match self {
            Atom::Function(Function::Lambda(_)) => true,
            _ => false,
        }
    }

    pub fn is_boolean(&self) -> (r: bool)
        ensures
            r == (self.model() is Bool),
    {
        match self {
            Atom::Boolean(_) => true,
            _ => false,
        }
    }
}

impl Function {
    pub open spec fn model(&self) -> SExp
        decreases self,
    {
        match self {
            Function::Builtin(b) => SExp::Prim(*b),
            Function::Lambda(l) => l.model(),
        }
    }

    pub fn duplicate(&self) -> (r: Function)
        ensures
            r.model() == self.model(),
        decreases self,
    {
        match self {
            Function::Builtin(b) => Function::Builtin(*b),
            Function::Lambda(l) => Function::Lambda(l.duplicate()),
        }
    }
}

impl Lambda {
    pub open spec fn model(&self) -> SExp
        decreases self,
    {
        SExp::Lambda(
            strings_model(self.params@),
            Seq::new(
                self.body.len() as nat,
                |i: int| if 0 <= i < self.body.len() { self.body[i].model() } else { nil() },
            ),
            self.env as nat,
        )
    }

    pub fn duplicate(&self) -> (r: Lambda)
        ensures
            r.model() == self.model(),
        decreases self,
    {
        proof {
            assert(decreases_to!(*self => self.body));
        }
        let params = duplicate_strings(&self.params);
        let body = duplicate_items(&self.body);
        let r = Lambda { params, body, env: self.env };
        assert(r.model()->Lambda_1 =~= self.model()->Lambda_1);
        r
    }
}

} // verus!
