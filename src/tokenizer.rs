use vstd::prelude::*;

use crate::error::{ErrorKind, SchemeError};
use crate::rational::{normalize, rat_div, rat_mul, rat_result, Rational};
use crate::types::{Atom, SExp, SpecialForm};

verus! {

/// A lexical token.
#[derive(Debug, PartialEq)]
pub enum Token {
    StartExp,
    EndExp,
    Dot,
    Quote,
    Literal(Atom),
}

/// The model of a token.
pub enum SToken {
    Start,
    End,
    Dot,
    Quote,
    Lit(SExp),
}

impl Token {
    pub open spec fn model(&self) -> SToken {
        match self {
            Token::StartExp => SToken::Start,
            Token::EndExp => SToken::End,
            Token::Dot => SToken::Dot,
            Token::Quote => SToken::Quote,
            Token::Literal(a) => SToken::Lit(a.model()),
        }
    }
}

pub open spec fn tokens_model(v: Seq<Token>) -> Seq<SToken> {
    Seq::new(v.len(), |i: int| v[i].model())
}

pub open spec fn is_space(c: char) -> bool {
    c == ' ' || c == '\t' || c == '\n' || c == '\r' || c == '\x0C'
}

/// The token that a delimiting character stands for on its own.
pub open spec fn delimiter(c: char) -> Option<SToken> {
    if c == '(' || c == '[' {
        Some(SToken::Start)
    } else if c == ')' || c == ']' {
        Some(SToken::End)
    } else if c == '\'' {
        Some(SToken::Quote)
    } else {
        None
    }
}

pub open spec fn is_digit(c: char) -> bool {
    '0' <= c <= '9'
}

pub open spec fn ascii_lower(c: char) -> char {
    if 'A' <= c <= 'Z' {
        (((c as u8) + 32) as u8) as char
    } else {
        c
    }
}

pub open spec fn lower(w: Seq<char>) -> Seq<char> {
    Seq::new(w.len(), |i: int| ascii_lower(w[i]))
}

/// The special form that a lower-cased word names, if any.
pub open spec fn form_of(w: Seq<char>) -> Option<SpecialForm> {
    if w == "define"@ {
        Some(SpecialForm::Define)
    } else if w == "let"@ {
        Some(SpecialForm::Let)
    } else if w == "lambda"@ {
        Some(SpecialForm::Lambda)
    } else if w == "if"@ {
        Some(SpecialForm::If)
    } else if w == "and"@ {
        Some(SpecialForm::And)
    } else if w == "or"@ {
        Some(SpecialForm::Or)
    } else if w == "eval"@ {
        Some(SpecialForm::Eval)
    } else if w == "apply"@ {
        Some(SpecialForm::Apply)
    } else {
        None
    }
}

/// Reads the digits of `w[i..]`, with at most one decimal point: the integer
/// they spell, and the power of ten to divide it by.
pub open spec fn digits_s(w: Seq<char>, i: int, n: int, scale: int, dot: bool, any: bool) -> Result<
    (int, int),
    ErrorKind,
>
    decreases w.len() - i,
{
    if i < 0 || i >= w.len() {
        if any {
            Ok((n, scale))
        } else {
            Err(ErrorKind::InvalidToken)
        }
    } else {
        let c = w[i];
        if is_digit(c) {
            let n2 = n * 10 + ((c as u32) - ('0' as u32));
            let s2 = if dot {
                scale * 10
            } else {
                scale
            };
            if n2 > i64::MAX || s2 > i64::MAX {
                Err(ErrorKind::Overflow)
            } else {
                digits_s(w, i + 1, n2, s2, dot, true)
            }
        } else if c == '.' && !dot {
            digits_s(w, i + 1, n, scale, true, any)
        } else {
            Err(ErrorKind::InvalidToken)
        }
    }
}

/// The value of a decimal literal: an optional `-`, then digits with at most one `.`.
pub open spec fn decimal_s(w: Seq<char>) -> Result<Rational, ErrorKind> {
    let neg = w.len() > 0 && w[0] == '-';
    let start: int = if neg {
        1
    } else {
        0
    };
    match digits_s(w, start, 0, 1, false, false) {
        Ok((n, s)) => normalize(
            if neg {
                -n
            } else {
                n
            },
            s,
        ),
        Err(k) => Err(k),
    }
}

/// The position of the first `/` at or after `i`, if any.
pub open spec fn slash_from(w: Seq<char>, i: int) -> Option<int>
    decreases w.len() - i,
{
    if i < 0 || i >= w.len() {
        None
    } else if w[i] == '/' {
        Some(i)
    } else {
        slash_from(w, i + 1)
    }
}

/// Ten to the power `k`.
pub open spec fn pow10(k: nat) -> int
    decreases k,
{
    if k == 0 {
        1
    } else {
        10 * pow10((k - 1) as nat)
    }
}

/// The largest exponent a literal may carry.
pub open spec fn max_exponent() -> int {
    18
}

/// The position of the first `e` or `E` at or after `i`, if any.
pub open spec fn exp_from(w: Seq<char>, i: int) -> Option<int>
    decreases w.len() - i,
{
    if i < 0 || i >= w.len() {
        None
    } else if w[i] == 'e' || w[i] == 'E' {
        Some(i)
    } else {
        exp_from(w, i + 1)
    }
}

/// The digits of `w[i..]` read as an exponent, added to `n`.
pub open spec fn exp_digits_s(w: Seq<char>, i: int, n: int, any: bool) -> Result<int, ErrorKind>
    decreases w.len() - i,
{
    if i < 0 || i >= w.len() {
        if any {
            Ok(n)
        } else {
            Err(ErrorKind::InvalidToken)
        }
    } else if is_digit(w[i]) {
        let n2 = n * 10 + ((w[i] as u32) - ('0' as u32));
        if n2 > max_exponent() {
            Err(ErrorKind::Overflow)
        } else {
            exp_digits_s(w, i + 1, n2, true)
        }
    } else {
        Err(ErrorKind::InvalidToken)
    }
}

/// An exponent: an optional sign, then digits.
pub open spec fn exponent_s(w: Seq<char>) -> Result<int, ErrorKind> {
    let signed = w.len() > 0 && (w[0] == '-' || w[0] == '+');
    match exp_digits_s(w, if signed { 1 } else { 0 }, 0, false) {
        Ok(e) => Ok(if w.len() > 0 && w[0] == '-' { -e } else { e }),
        Err(k) => Err(k),
    }
}

/// A decimal, optionally followed by `e` and a power of ten to scale it by.
pub open spec fn scaled_s(w: Seq<char>) -> Result<Rational, ErrorKind> {
    match exp_from(w, 0) {
        None => decimal_s(w),
        Some(p) => match decimal_s(w.subrange(0, p)) {
            Err(k) => Err(k),
            Ok(a) => match exponent_s(w.subrange(p + 1, w.len() as int)) {
                Err(k) => Err(k),
                Ok(e) => if e >= 0 {
                    rat_mul(a, Rational { numerator: pow10(e as nat) as i64, denominator: 1 })
                } else {
                    rat_div(a, Rational { numerator: pow10((-e) as nat) as i64, denominator: 1 })
                },
            },
        },
    }
}

/// The value of a number literal: a decimal with an optional exponent, or a
/// fraction of two such written with `/`, as the arithmetic prints fractions.
pub open spec fn number_s(w: Seq<char>) -> Result<Rational, ErrorKind> {
    match slash_from(w, 0) {
        None => scaled_s(w),
        Some(p) => match scaled_s(w.subrange(0, p)) {
            Err(k) => Err(k),
            Ok(a) => match scaled_s(w.subrange(p + 1, w.len() as int)) {
                Err(k) => Err(k),
                Ok(b) => rat_div(a, b),
            },
        },
    }
}

pub open spec fn looks_numeric(w: Seq<char>) -> bool {
    w.len() > 0 && (is_digit(w[0]) || ((w[0] == '.' || w[0] == '-') && w != "."@ && w != "-"@))
}

/// The token for a word that holds no space or delimiter.
pub open spec fn classify_s(w: Seq<char>) -> Result<SToken, ErrorKind> {
    if w == "."@ {
        Ok(SToken::Dot)
    } else if looks_numeric(w) {
        match number_s(w) {
            Ok(q) => Ok(SToken::Lit(SExp::Num(q))),
            Err(k) => Err(k),
        }
    } else if lower(w) == "true"@ || lower(w) == "#t"@ {
        Ok(SToken::Lit(SExp::Bool(true)))
    } else if lower(w) == "false"@ || lower(w) == "#f"@ {
        Ok(SToken::Lit(SExp::Bool(false)))
    } else if form_of(lower(w)) is Some {
        Ok(SToken::Lit(SExp::Form(form_of(lower(w))->0)))
    } else {
        Ok(SToken::Lit(SExp::Sym(w)))
    }
}

/// Appends the token of the word `w`, if it is not empty.
pub open spec fn flush_s(w: Seq<char>, acc: Seq<SToken>) -> Result<Seq<SToken>, ErrorKind> {
    if w.len() == 0 {
        Ok(acc)
    } else {
        match classify_s(w) {
            Ok(t) => Ok(acc.push(t)),
            Err(k) => Err(k),
        }
    }
}

/// The tokens of `cs[i..]` appended to `acc`, the current word being `cs[start..i]`.
/// Words are split at white space and at delimiters; a double quote is refused.
pub open spec fn lex_s(cs: Seq<char>, start: int, i: int, acc: Seq<SToken>) -> Result<
    Seq<SToken>,
    ErrorKind,
>
    decreases cs.len() - i,
{
    if i < 0 || i >= cs.len() || start < 0 || start > i {
        flush_s(cs.subrange(start, cs.len() as int), acc)
    } else {
        let c = cs[i];
        if c == '"' {
            Err(ErrorKind::InvalidToken)
        } else if delimiter(c) is Some {
            match flush_s(cs.subrange(start, i), acc) {
                Ok(a) => lex_s(cs, i + 1, i + 1, a.push(delimiter(c)->0)),
                Err(k) => Err(k),
            }
        } else if is_space(c) {
            match flush_s(cs.subrange(start, i), acc) {
                Ok(a) => lex_s(cs, i + 1, i + 1, a),
                Err(k) => Err(k),
            }
        } else {
            lex_s(cs, start, i + 1, acc)
        }
    }
}

/// The tokens of a text.
pub open spec fn tokens_s(cs: Seq<char>) -> Result<Seq<SToken>, ErrorKind> {
    lex_s(cs, 0, 0, Seq::empty())
}

/// The characters of a string slice, in order.
pub fn chars_of(s: &str) -> (r: Vec<char>)
    ensures
        r@ == s@,
{
    broadcast use vstd::string::group_string_axioms;

    let mut out: Vec<char> = Vec::new();
    for c in it: s.chars()
        invariant
            it.seq() == s@,
            out@ == it.seq().subrange(0, it.index() as int),
    {
        out.push(c);
    }
    out
}

fn is_digit_char(c: char) -> (r: bool)
    ensures
        r == is_digit(c),
{
    '0' <= c && c <= '9'
}

fn lower_char(c: char) -> (r: char)
    ensures
        r == ascii_lower(c),
{
    if 'A' <= c && c <= 'Z' {
        let b: u8 = (c as u8) + 32;
        b as char
    } else {
        c
    }
}

/// Whether the lower-cased word `cs[start..end]` is `lit`.
fn lower_is(cs: &Vec<char>, start: usize, end: usize, lit: &str) -> (r: bool)
    requires
        start <= end <= cs@.len(),
    ensures
        r == (lower(cs@.subrange(start as int, end as int)) == lit@),
{
    let ghost w = lower(cs@.subrange(start as int, end as int));
    let n = lit.unicode_len();
    if n != end - start {
        return false;
    }
    let mut i: usize = 0;
    while i < n
        invariant
            i <= n == end - start,
            start <= end <= cs@.len(),
            n == lit@.len(),
            w == lower(cs@.subrange(start as int, end as int)),
            forall|j: int| 0 <= j < i ==> w[j] == lit@[j],
        decreases n - i,
    {
        if lower_char(cs[start + i]) != lit.get_char(i) {
            return false;
        }
        i += 1;
    }
    assert(w =~= lit@);
    true
}

/// The value of the number literal `cs[start..end]`.
fn number(cs: &Vec<char>, start: usize, end: usize) -> (r: Result<Rational, SchemeError>)
    requires
        start <= end <= cs@.len(),
    ensures
        rat_result(r) == number_s(cs@.subrange(start as int, end as int)),
{
    let ghost w = cs@.subrange(start as int, end as int);
    let mut p = start;
    while p < end && cs[p] != '/'
        invariant
            start <= p <= end <= cs@.len(),
            w == cs@.subrange(start as int, end as int),
            slash_from(w, 0) == slash_from(w, p - start),
        decreases end - p,
    {
        assert(w[p - start] == cs@[p as int]);
        p += 1;
    }
    if p == end {
        return scaled(cs, start, end);
    }
    assert(w[p - start] == '/');
    assert(slash_from(w, 0) == Some(p - start));
    assert(w.subrange(0, p - start) =~= cs@.subrange(start as int, p as int));
    assert(w.subrange(p - start + 1, w.len() as int) =~= cs@.subrange(p + 1, end as int));
    let a = scaled(cs, start, p)?;
    let b = scaled(cs, p + 1, end)?;
    a.div(&b)
}

/// Ten to the power `k`.
fn pow10_i64(k: u32) -> (r: i64)
    requires
        k <= max_exponent(),
    ensures
        r == pow10(k as nat),
{
    let mut r: i64 = 1;
    let mut i: u32 = 0;
    while i < k
        invariant
            i <= k <= 18,
            r == pow10(i as nat),
        decreases k - i,
    {
        proof {
            lemma_pow10_monotone(i as nat, 17);
            reveal_with_fuel(pow10, 18);
            assert(pow10(17) == 100_000_000_000_000_000int);
        }
        r = r * 10;
        i += 1;
    }
    r
}

/// Powers of ten grow with the exponent.
proof fn lemma_pow10_monotone(i: nat, m: nat)
    requires
        i <= m,
    ensures
        1 <= pow10(i) <= pow10(m),
    decreases m,
{
    if m > 0 && i < m {
        lemma_pow10_monotone(i, (m - 1) as nat);
    } else if m > 0 {
        lemma_pow10_monotone((m - 1) as nat, (m - 1) as nat);
    }
}

/// The value of the literal `cs[start..end]`: a decimal with an optional exponent.
fn scaled(cs: &Vec<char>, start: usize, end: usize) -> (r: Result<Rational, SchemeError>)
    requires
        start <= end <= cs@.len(),
    ensures
        rat_result(r) == scaled_s(cs@.subrange(start as int, end as int)),
{
    let ghost w = cs@.subrange(start as int, end as int);
    let mut p = start;
    while p < end && cs[p] != 'e' && cs[p] != 'E'
        invariant
            start <= p <= end <= cs@.len(),
            w == cs@.subrange(start as int, end as int),
            exp_from(w, 0) == exp_from(w, p - start),
        decreases end - p,
    {
        assert(w[p - start] == cs@[p as int]);
        p += 1;
    }
    if p == end {
        return decimal(cs, start, end);
    }
    assert(w[p - start] == 'e' || w[p - start] == 'E');
    assert(exp_from(w, 0) == Some(p - start));
    assert(w.subrange(0, p - start) =~= cs@.subrange(start as int, p as int));
    let ghost x = w.subrange(p - start + 1, w.len() as int);
    assert(x =~= cs@.subrange(p + 1, end as int));
    let a = decimal(cs, start, p)?;
    assert(decimal_s(w.subrange(0, p - start)) == Ok::<Rational, ErrorKind>(a));
    let first = p + 1;
    let neg = first < end && cs[first] == '-';
    let signed = first < end && (cs[first] == '-' || cs[first] == '+');
    let mut i = if signed {
        first + 1
    } else {
        first
    };
    let mut e: u32 = 0;
    let mut any = false;
    while i < end
        invariant
            first <= i <= end <= cs@.len(),
            first == p + 1,
            x == cs@.subrange(first as int, end as int),
            signed == (x.len() > 0 && (x[0] == '-' || x[0] == '+')),
            neg == (x.len() > 0 && x[0] == '-'),
            i >= first + (if signed { 1int } else { 0int }),
            e <= max_exponent(),
            exp_digits_s(x, if signed { 1 } else { 0 }, 0, false) == exp_digits_s(x, i - first, e as int, any),
            w == cs@.subrange(start as int, end as int),
            start <= p < end,
            exp_from(w, 0) == Some(p - start),
            x == w.subrange(p - start + 1, w.len() as int),
            decimal_s(w.subrange(0, p - start)) == Ok::<Rational, ErrorKind>(a),
        decreases end - i,
    {
        let c = cs[i];
        assert(x[i - first] == c);
        if !is_digit_char(c) {
            return Err(SchemeError::simple(ErrorKind::InvalidToken, "Invalid number literal"));
        }
        let e2 = e as u64 * 10 + (c as u32 - '0' as u32) as u64;
        if e2 > 18 {
            return Err(SchemeError::simple(ErrorKind::Overflow, "Number literal out of range"));
        }
        e = e2 as u32;
        any = true;
        i += 1;
    }
    if !any {
        return Err(SchemeError::simple(ErrorKind::InvalidToken, "Invalid number literal"));
    }
    let power = pow10_i64(e);
    let factor = Rational::from_int(power);
    assert(exponent_s(x) == Ok::<int, ErrorKind>(if neg { -(e as int) } else { e as int }));
    if neg && e > 0 {
        assert(factor == Rational { numerator: pow10((-(-(e as int))) as nat) as i64, denominator: 1 });
        a.div(&factor)
    } else {
        assert(factor == Rational { numerator: pow10(e as nat) as i64, denominator: 1 });
        a.mul(&factor)
    }
}

/// The value of the decimal literal `cs[start..end]`.
fn decimal(cs: &Vec<char>, start: usize, end: usize) -> (r: Result<Rational, SchemeError>)
    requires
        start <= end <= cs@.len(),
    ensures
        rat_result(r) == decimal_s(cs@.subrange(start as int, end as int)),
{
    if start == end {
        return Err(SchemeError::simple(ErrorKind::InvalidToken, "Invalid number literal"));
    }
    let ghost w = cs@.subrange(start as int, end as int);
    let neg = cs[start] == '-';
    let mut i: usize = if neg {
        start + 1
    } else {
        start
    };
    let mut n: i64 = 0;
    let mut scale: i64 = 1;
    let mut dot = false;
    let mut any = false;
    while i < end
        invariant
            start <= i <= end <= cs@.len(),
            w == cs@.subrange(start as int, end as int),
            neg == (w[0] == '-'),
            0 <= n,
            1 <= scale,
            digits_s(w, (if neg { 1int } else { 0int }), 0, 1, false, false) == digits_s(
                w,
                i - start,
                n as int,
                scale as int,
                dot,
                any,
            ),
        decreases end - i,
    {
        let c = cs[i];
        assert(w[i - start] == c);
        if is_digit_char(c) {
            let d = (c as u32 - '0' as u32) as i64;
            let n2 = match n.checked_mul(10) {
                Some(t) => t.checked_add(d),
                None => None,
            };
            let s2 = if dot {
                scale.checked_mul(10)
            } else {
                Some(scale)
            };
            match (n2, s2) {
                (Some(a), Some(b)) => {
                    n = a;
                    scale = b;
                },
                _ => {
                    return Err(SchemeError::simple(ErrorKind::Overflow, "Number literal out of range"));
                },
            }
            any = true;
        } else if c == '.' && !dot {
            dot = true;
        } else {
            return Err(SchemeError::simple(ErrorKind::InvalidToken, "Invalid number literal"));
        }
        i += 1;
    }
    if !any {
        return Err(SchemeError::simple(ErrorKind::InvalidToken, "Invalid number literal"));
    }
    Rational::new(
        if neg {
            -n
        } else {
            n
        },
        scale,
    )
}

impl SpecialForm {
    /// The special form that the word `cs[start..end]` names, in any letter case.
    pub fn from_word(cs: &Vec<char>, start: usize, end: usize) -> (r: Option<SpecialForm>)
        requires
            start <= end <= cs@.len(),
        ensures
            r == form_of(lower(cs@.subrange(start as int, end as int))),
    {
        if lower_is(cs, start, end, "define") {
            Some(SpecialForm::Define)
        } else if lower_is(cs, start, end, "let") {
            Some(SpecialForm::Let)
        } else if lower_is(cs, start, end, "lambda") {
            Some(SpecialForm::Lambda)
        } else if lower_is(cs, start, end, "if") {
            Some(SpecialForm::If)
        } else if lower_is(cs, start, end, "and") {
            Some(SpecialForm::And)
        } else if lower_is(cs, start, end, "or") {
            Some(SpecialForm::Or)
        } else if lower_is(cs, start, end, "eval") {
            Some(SpecialForm::Eval)
        } else if lower_is(cs, start, end, "apply") {
            Some(SpecialForm::Apply)
        } else {
            None
        }
    }
}

/// The token for the word `cs[start..end]`, whose text is `word`.
fn classify(cs: &Vec<char>, start: usize, end: usize, word: String) -> (r: Result<Token, SchemeError>)
    requires
        start < end <= cs@.len(),
        word@ == cs@.subrange(start as int, end as int),
    ensures
        match r {
            Ok(t) => classify_s(word@) == Ok::<SToken, ErrorKind>(t.model()),
            Err(x) => classify_s(word@) == Err::<SToken, ErrorKind>(x.kind),
        },
{
    let ghost w = word@;
    proof {
        reveal_strlit(".");
        reveal_strlit("-");
    }
    let first = cs[start];
    assert(w[0] == first);
    let one = end - start == 1;
    if one && first == '.' {
        assert(w =~= "."@);
        return Ok(Token::Dot);
    }
    assert(one ==> w.len() == 1);
    let is_dot_or_dash = one && (first == '.' || first == '-');
    assert(!one ==> w != "."@ && w != "-"@);
    assert(one && first == '-' ==> w =~= "-"@);
    if is_digit_char(first) || ((first == '.' || first == '-') && !is_dot_or_dash) {
        return match number(cs, start, end) {
            Ok(q) => Ok(Token::Literal(Atom::Number(q))),
            Err(x) => Err(x),
        };
    }
    assert(!looks_numeric(w));
    if lower_is(cs, start, end, "true") || lower_is(cs, start, end, "#t") {
        return Ok(Token::Literal(Atom::Boolean(true)));
    }
    if lower_is(cs, start, end, "false") || lower_is(cs, start, end, "#f") {
        return Ok(Token::Literal(Atom::Boolean(false)));
    }
    let form = SpecialForm::from_word(cs, start, end);
    match form {
        Some(f) => Ok(Token::Literal(Atom::SpecialForm(f))),
        None => Ok(Token::Literal(Atom::Symbol(word))),
    }
}

/// Appends the token of the word `cs[start..end]` of `input`, if it is not empty.
fn flush(input: &str, cs: &Vec<char>, start: usize, end: usize, out: &mut Vec<Token>) -> (r: Result<(), SchemeError>)
    requires
        cs@ == input@,
        start <= end <= cs@.len(),
    ensures
        match flush_s(cs@.subrange(start as int, end as int), tokens_model(old(out)@)) {
            Ok(a) => r is Ok && tokens_model(final(out)@) == a,
            Err(k) => r is Err && r->Err_0.kind == k,
        },
{
    if start == end {
        assert(cs@.subrange(start as int, end as int).len() == 0);
        return Ok(());
    }
    let word = input.substring_char(start, end).to_owned();
    match classify(cs, start, end, word) {
        Ok(t) => {
            let ghost before = tokens_model(out@);
            out.push(t);
            assert(tokens_model(out@) =~= before.push(t.model()));
            Ok(())
        },
        Err(x) => Err(x),
    }
}

/// The tokens of a text: parentheses or brackets, a quote mark, a lone `.`,
/// and literal words, which white space and delimiters separate.
pub fn tokenize(input: &str) -> (r: Result<Vec<Token>, SchemeError>)
    ensures
        match tokens_s(input@) {
            Ok(ts) => r is Ok && tokens_model(r->Ok_0@) == ts,
            Err(k) => r is Err && r->Err_0.kind == k,
        },
{
    let cs = chars_of(input);
    let mut out: Vec<Token> = Vec::new();
    assert(tokens_model(out@) =~= Seq::<SToken>::empty());
    let mut start: usize = 0;
    let mut i: usize = 0;
    while i < cs.len()
        invariant
            cs@ == input@,
            start <= i <= cs@.len(),
            tokens_s(input@) == lex_s(cs@, start as int, i as int, tokens_model(out@)),
        decreases cs@.len() - i,
    {
        let c = cs[i];
        if c == '"' {
            return Err(SchemeError::simple(ErrorKind::InvalidToken, "Strings are not supported"));
        }
        let delim = if c == '(' || c == '[' {
            Some(Token::StartExp)
        } else if c == ')' || c == ']' {
            Some(Token::EndExp)
        } else if c == '\'' {
            Some(Token::Quote)
        } else {
            None
        };
        match delim {
            Some(t) => {
                flush(input, &cs, start, i, &mut out)?;
                let ghost before = tokens_model(out@);
                out.push(t);
                assert(tokens_model(out@) =~= before.push(t.model()));
                start = i + 1;
            },
            None => {
                if c == ' ' || c == '\t' || c == '\n' || c == '\r' || c == '\x0C' {
                    flush(input, &cs, start, i, &mut out)?;
                    start = i + 1;
                }
            },
        }
        i += 1;
    }
    flush(input, &cs, start, cs.len(), &mut out)?;
    Ok(out)
}

} // verus!
