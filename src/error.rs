use vstd::prelude::*;

verus! {

/// What went wrong. The arity variant carries the bounds that were expected
/// (`max == usize::MAX` means no upper bound) and the count that was found.
#[derive(Clone, Copy, Debug, PartialEq, Eq, Structural)]
pub enum ErrorKind {
    UnboundSymbol,
    Arity { min: usize, max: usize, found: usize },
    TypeMismatch,
    NotCallable,
    DivideByZero,
    Overflow,
    MalformedSpecialForm,
    EmptyList,
    ExpectedAtom,
    ExpectedList,
    UnmatchedDelimiter,
    UnexpectedEof,
    InvalidToken,
    DepthExceeded,
}

/// An error of the interpreter: its kind, a message for people, and the
/// message of the error that caused it, if any.
#[derive(Debug, PartialEq)]
pub struct SchemeError {
    pub kind: ErrorKind,
    pub message: String,
    pub cause: Option<String>,
}

/// The decimal digits of a natural number.
pub open spec fn decimal(n: nat) -> Seq<char>
    decreases n,
{
    if n < 10 {
        seq![digit_char(n)]
    } else {
        decimal(n / 10).push(digit_char(n % 10))
    }
}

pub open spec fn digit_char(d: nat) -> char {
    if d < 10 {
        (('0' as u8) + d as u8) as char
    } else {
        '?'
    }
}

/// The one-character text of a decimal digit.
fn digit_text(d: u64) -> (r: &'static str)
    requires
        d < 10,
    ensures
        r@ == seq![digit_char(d as nat)],
{
    proof {
        reveal_strlit("0");
        reveal_strlit("1");
        reveal_strlit("2");
        reveal_strlit("3");
        reveal_strlit("4");
        reveal_strlit("5");
        reveal_strlit("6");
        reveal_strlit("7");
        reveal_strlit("8");
        reveal_strlit("9");
    }
    let r = if d == 0 {
        "0"
    } else if d == 1 {
        "1"
    } else if d == 2 {
        "2"
    } else if d == 3 {
        "3"
    } else if d == 4 {
        "4"
    } else if d == 5 {
        "5"
    } else if d == 6 {
        "6"
    } else if d == 7 {
        "7"
    } else if d == 8 {
        "8"
    } else {
        "9"
    };
    assert(r@ =~= seq![digit_char(d as nat)]);
    r
}

/// The decimal digits of a natural number, without sign or padding.
pub fn decimal_text(n: u64) -> (r: String)
    ensures
        r@ == decimal(n as nat),
    decreases n,
{
    if n < 10 {
        text(digit_text(n))
    } else {
        let front = decimal_text(n / 10);
        front.concat(digit_text(n % 10))
    }
}

/// A `String` holding the characters of a string slice.
pub fn text(s: &str) -> (r: String)
    ensures
        r@ == s@,
{
    s.to_owned()
}

impl SchemeError {
    pub fn new(kind: ErrorKind, message: String) -> (r: SchemeError)
        ensures
            r.kind == kind,
            r.message == message,
            r.cause is None,
    {
        SchemeError { kind, message, cause: None }
    }

    /// An error with the given message, of the same kind as `source`, whose
    /// message it keeps as the cause.
    pub fn from(message: String, source: &SchemeError) -> (r: SchemeError)
        ensures
            r.kind == source.kind,
            r.message == message,
            r.cause == Some(source.message),
    {
        SchemeError { kind: source.kind, message, cause: Some(source.message.clone()) }
    }

    /// The error that `validate_num_args` reports.
    pub fn arity(name: &str, min: usize, max: usize, found: usize) -> (r: SchemeError)
        ensures
            r.kind == (ErrorKind::Arity { min, max, found }),
            r.message@ == arity_message(name@, min, max, found),
            r.cause is None,
    {
        let m = if found < min {
            text(name).concat(" expects at least ").concat(decimal_text(min as u64).as_str()).concat(
                " args, found ",
            ).concat(decimal_text(found as u64).as_str())
        } else {
            text(name).concat(" takes a maximum of ").concat(decimal_text(max as u64).as_str()).concat(
                " args, found ",
            ).concat(decimal_text(found as u64).as_str())
        };
        SchemeError { kind: ErrorKind::Arity { min, max, found }, message: m, cause: None }
    }

    pub fn simple(kind: ErrorKind, message: &str) -> (r: SchemeError)
        ensures
            r.kind == kind,
            r.message@ == message@,
            r.cause is None,
    {
        SchemeError { kind, message: text(message), cause: None }
    }

    /// A special form given the wrong number of operands: a malformed form,
    /// with a message that names the form, the bound and the count found.
    pub fn malformed_count(name: &str, min: usize, max: usize, found: usize) -> (r: SchemeError)
        ensures
            r.kind == ErrorKind::MalformedSpecialForm,
            r.message@ == arity_message(name@, min, max, found),
            r.cause is None,
    {
        let e = SchemeError::arity(name, min, max, found);
        SchemeError { kind: ErrorKind::MalformedSpecialForm, message: e.message, cause: None }
    }
}

/// The message of an arity error: the procedure's name, the bound it broke,
/// and the count that was found.
pub open spec fn arity_message(name: Seq<char>, min: usize, max: usize, found: usize) -> Seq<char> {
    if found < min {
        name + " expects at least "@ + decimal(min as nat) + " args, found "@ + decimal(found as nat)
    } else {
        name + " takes a maximum of "@ + decimal(max as nat) + " args, found "@ + decimal(found as nat)
    }
}

/// Checks that a count of arguments lies within `min ..= max`; a `max` of
/// `usize::MAX` sets no upper bound.
pub fn validate_num_args<T>(name: &str, args: &[T], min: usize, max: usize) -> (r: Result<(), SchemeError>)
    ensures
        r is Ok <==> arity_ok(args@.len(), min, max),
        r is Err ==> r->Err_0.kind == (ErrorKind::Arity { min, max, found: args@.len() as usize }),
        r is Err ==> r->Err_0.message@ == arity_message(name@, min, max, args@.len() as usize),
{
    let n = args.len();
    if n < min || (max < usize::MAX && n > max) {
        Err(SchemeError::arity(name, min, max, n))
    } else {
        Ok(())
    }
}

pub open spec fn arity_ok(n: nat, min: usize, max: usize) -> bool {
    min <= n && (max == usize::MAX || n <= max)
}

} // verus!
