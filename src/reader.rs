use vstd::prelude::*;

use crate::environment::{Env, Store};
use crate::error::{ErrorKind, SchemeError};
use crate::evaluator::{eval_all, eval_all_s};
use crate::parser::{parse_all, parse_all_s};
use crate::text::{show, to_text};
use crate::tokenizer::{tokenize, tokens_model, tokens_s, SToken, Token};
use crate::types::{outcome, SExp};

verus! {

/// A text read, parsed and evaluated in the root scope of `st`.
pub open spec fn run_s(cs: Seq<char>, st: Store) -> (Store, Result<SExp, ErrorKind>) {
    match tokens_s(cs) {
        Err(k) => (st, Err(k)),
        Ok(ts) => match parse_all_s(ts, 0, Seq::empty()) {
            Err(k) => (st, Err(k)),
            Ok(forms) => eval_all_s(forms, st),
        },
    }
}

/// Reads, parses and evaluates a text in the root scope, and returns the value
/// of its last expression.
pub fn eval_text(input: &str, env: &mut Env) -> (r: Result<crate::types::Exp, SchemeError>)
    requires
        old(env)@.wf(),
        old(env)@.frames.len() > 0,
    ensures
        final(env)@.wf(),
        final(env)@.frames.len() >= old(env)@.frames.len(),
        (final(env)@, outcome(r)) == run_s(input@, old(env)@),
{
    let tokens = tokenize(input)?;
    let forms = parse_all(&tokens)?;
    eval_all(&forms, env)
}

/// Appends `ts[i..]` to `acc`, counting open lists in `open`, and stops at a
/// `)` that closes nothing, or at a `(` beyond what the count can hold; the
/// flag says whether every token was taken.
pub open spec fn push_s(ts: Seq<SToken>, i: int, acc: Seq<SToken>, open: nat) -> (Seq<SToken>, nat, bool)
    decreases ts.len() - i,
{
    if i < 0 || i >= ts.len() {
        (acc, open, true)
    } else {
        match ts[i] {
            SToken::Start => if open >= usize::MAX {
                (acc, open, false)
            } else {
                push_s(ts, i + 1, acc.push(ts[i]), open + 1)
            },
            SToken::End => if open == 0 {
                (acc, open, false)
            } else {
                push_s(ts, i + 1, acc.push(ts[i]), (open - 1) as nat)
            },
            _ => push_s(ts, i + 1, acc.push(ts[i]), open),
        }
    }
}

/// An interpreter session: the tokens read so far and not yet evaluated, how
/// many lists among them are still open, and the interpreter state.
pub struct Reader {
    tokens: Vec<Token>,
    open: usize,
    env: Env,
}

impl Reader {
    /// The interpreter state is well formed and has its root scope.
    pub closed spec fn wf(&self) -> bool {
        self.env@.wf() && self.env@.frames.len() > 0
    }

    pub closed spec fn pending(&self) -> Seq<SToken> {
        tokens_model(self.tokens@)
    }

    pub closed spec fn open_lists(&self) -> nat {
        self.open as nat
    }

    pub closed spec fn state(&self) -> Store {
        self.env@
    }

    pub fn new() -> (r: Reader)
        ensures
            r.wf(),
            r.pending().len() == 0,
            r.open_lists() == 0,
            r.state().frames.len() == 1,
            r.state() == crate::builtin::root_store(crate::builtin::root_frame().names.len()),
            r.state().out.len() == 0,
    {
        let r = Reader { tokens: Vec::new(), open: 0, env: Env::new() };
        assert(r.pending() =~= Seq::<SToken>::empty());
        r
    }

    /// Reads more text into the pending tokens.
    pub fn push(&mut self, input: String) -> (r: Result<(), String>)
        requires
            old(self).wf(),
        ensures
            final(self).wf(),
            final(self).state() == old(self).state(),
            match tokens_s(input@) {
                Err(_) => r is Err && final(self).pending() == old(self).pending()
                    && final(self).open_lists() == old(self).open_lists(),
                Ok(ts) => {
                    let (acc, open, ok) = push_s(ts, 0, old(self).pending(), old(self).open_lists());
                    &&& final(self).pending() == acc
                    &&& final(self).open_lists() == open
                    &&& (r is Ok <==> ok)
                },
            },
    {
        let tokens = match tokenize(input.as_str()) {
            Ok(t) => t,
            Err(e) => {
                return Err(e.message);
            },
        };
        let ghost ts = tokens_model(tokens@);
        assert(tokens_s(input@) == Ok::<Seq<SToken>, ErrorKind>(ts));
        let mut tokens = tokens;
        let mut rest: Vec<Token> = Vec::new();
        // Take the tokens out in reverse so that each can be moved, not copied.
        while tokens.len() > 0
            invariant
                ts.len() == tokens@.len() + rest@.len(),
                forall|j: int| 0 <= j < tokens@.len() ==> (#[trigger] tokens@[j]).model() == ts[j],
                forall|j: int|
                    0 <= j < rest@.len() ==> (#[trigger] rest@[j]).model() == ts[ts.len() - 1 - j],
            decreases tokens@.len(),
        {
            let t = tokens.pop().unwrap();
            rest.push(t);
        }
        let ghost start = tokens_model(self.tokens@);
        let ghost open0 = self.open as nat;
        let mut i: usize = 0;
        let n = rest.len();
        while rest.len() > 0
            invariant
                n == ts.len(),
                rest@.len() + i == n,
                forall|j: int|
                    0 <= j < rest@.len() ==> (#[trigger] rest@[j]).model() == ts[n - 1 - j],
                push_s(ts, 0, start, open0) == push_s(ts, i as int, tokens_model(self.tokens@), self.open as nat),
                self.env == old(self).env,
                old(self).wf(),
                start == old(self).pending(),
                open0 == old(self).open_lists(),
                tokens_s(input@) == Ok::<Seq<SToken>, ErrorKind>(ts),
            decreases rest@.len(),
        {
            let t = rest.pop().unwrap();
            assert(t.model() == ts[i as int]);
            match &t {
                Token::StartExp => {
                    if self.open == usize::MAX {
                        return Err(crate::error::text("Too many open lists"));
                    }
                    self.open = self.open + 1;
                },
                Token::EndExp => {
                    if self.open == 0 {
                        return Err(crate::error::text("Unexpected closing delimiter"));
                    }
                    self.open = self.open - 1;
                },
                _ => {},
            }
            let ghost before = tokens_model(self.tokens@);
            self.tokens.push(t);
            assert(tokens_model(self.tokens@) =~= before.push(ts[i as int]));
            i += 1;
        }
        Ok(())
    }

    /// Whether the pending tokens hold complete expressions.
    pub fn expression_complete(&self) -> (r: bool)
        ensures
            r == (self.open_lists() == 0 && self.pending().len() > 0),
    {
        self.open == 0 && self.tokens.len() > 0
    }

    /// Whether nothing is pending.
    pub fn new_expression(&self) -> (r: bool)
        ensures
            r == (self.pending().len() == 0),
    {
        self.tokens.len() == 0
    }

    /// Parses and evaluates the pending tokens, which are then dropped, and
    /// returns the text of the last value.
    pub fn eval(&mut self) -> (r: Result<String, String>)
        requires
            old(self).wf(),
        ensures
            final(self).wf(),
            final(self).pending().len() == 0,
            final(self).open_lists() == 0,
            match parse_all_s(old(self).pending(), 0, Seq::empty()) {
                Err(_) => r is Err && final(self).state() == old(self).state(),
                Ok(forms) => {
                    let (st, res) = eval_all_s(forms, old(self).state());
                    &&& final(self).state() == st
                    &&& match res {
                        Ok(v) => r is Ok && r->Ok_0@ == show(v),
                        Err(_) => r is Err,
                    }
                },
            },
    {
        let parsed = parse_all(&self.tokens);
        self.tokens = Vec::new();
        self.open = 0;
        assert(self.pending() =~= Seq::<SToken>::empty());
        let forms = match parsed {
            Ok(f) => f,
            Err(e) => {
                return Err(e.message);
            },
        };
        match eval_all(&forms, &mut self.env) {
            Ok(v) => Ok(to_text(&v)),
            Err(e) => Err(e.message),
        }
    }

    /// Drops the pending tokens.
    pub fn clear_buffer(&mut self)
        requires
            old(self).wf(),
        ensures
            final(self).wf(),
            final(self).pending().len() == 0,
            final(self).open_lists() == 0,
            final(self).state() == old(self).state(),
    {
        self.tokens = Vec::new();
        self.open = 0;
        assert(self.pending() =~= Seq::<SToken>::empty());
    }

    /// The text that `display` and `newline` have written since it was last taken.
    pub fn take_output(&mut self) -> (r: String)
        requires
            old(self).wf(),
        ensures
            final(self).wf(),
            r@ == old(self).state().out,
            final(self).state().frames == old(self).state().frames,
            final(self).state().out.len() == 0,
            final(self).pending() == old(self).pending(),
            final(self).open_lists() == old(self).open_lists(),
    {
        self.env.take_output()
    }
}

} // verus!
