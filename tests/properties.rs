use lisp_rs::config::Config;
use lisp_rs::environment::Env;
use lisp_rs::evaluator::evaluate;
use lisp_rs::error::{validate_num_args, ErrorKind, SchemeError};
use lisp_rs::parser::parse_all;
use lisp_rs::rational::Rational;
use lisp_rs::reader::{eval_text, Reader};
use lisp_rs::text::to_text;
use lisp_rs::tokenizer::{tokenize, Token};
use lisp_rs::types::{Atom, Exp, SpecialForm};

fn run(input: &str) -> Result<Exp, SchemeError> {
    let mut env = Env::new();
    eval_text(input, &mut env)
}

fn num(n: i64) -> Exp {
    Exp::Atom(Atom::Number(Rational::from_int(n)))
}

fn kind(input: &str) -> ErrorKind {
    run(input).unwrap_err().kind
}

fn shown(input: &str) -> String {
    to_text(&run(input).unwrap())
}

#[test]
fn define_then_reference_gives_the_value() {
    assert_eq!(run("(define x (* 6 7)) x").unwrap(), run("(* 6 7)").unwrap());
    assert_eq!(run("(define x (list 1 2)) x").unwrap(), run("(list 1 2)").unwrap());
}

#[test]
fn define_returns_nil() {
    assert_eq!(run("(define x 5)").unwrap(), Exp::new_list());
}

#[test]
fn let_bindings_are_sequential() {
    assert_eq!(run("(let ((a 1) (b (+ a 1))) b)").unwrap(), num(2));
}

#[test]
fn let_does_not_leak_bindings() {
    assert_eq!(kind("(let ((q 1)) q) q"), ErrorKind::UnboundSymbol);
}

#[test]
fn lambda_arity_mismatch_names_counts() {
    assert_eq!(
        kind("((lambda (a b) a) 1)"),
        ErrorKind::Arity { min: 2, max: 2, found: 1 }
    );
    let e = run("((lambda (a) a) 1 2)").unwrap_err();
    assert_eq!(e.kind, ErrorKind::Arity { min: 1, max: 1, found: 2 });
    assert_eq!(e.message, "lambda takes a maximum of 1 args, found 2");
}

#[test]
fn builtin_arity_mismatch_names_counts() {
    let e = run("(car '(1) '(2))").unwrap_err();
    assert_eq!(e.kind, ErrorKind::Arity { min: 1, max: 1, found: 2 });
    assert_eq!(e.message, "car takes a maximum of 1 args, found 2");
    let e = run("(-)").unwrap_err();
    assert_eq!(e.kind, ErrorKind::Arity { min: 1, max: usize::MAX, found: 0 });
    assert_eq!(e.message, "- expects at least 1 args, found 0");
}

#[test]
fn and_or_short_circuit() {
    assert_eq!(run("(and 1 2 false true)").unwrap(), Exp::Atom(Atom::Boolean(false)));
    assert_eq!(run("(or 1 2 false true)").unwrap(), num(1));
    assert_eq!(run("(and)").unwrap(), Exp::Atom(Atom::Boolean(true)));
    assert_eq!(run("(or)").unwrap(), Exp::Atom(Atom::Boolean(false)));
    // The operands after the deciding one are never evaluated.
    assert_eq!(run("(and false undefined-name)").unwrap(), Exp::Atom(Atom::Boolean(false)));
    assert_eq!(run("(or 7 undefined-name)").unwrap(), num(7));
}

#[test]
fn if_treats_only_false_as_falsy() {
    assert_eq!(run("(if 0 1 2)").unwrap(), num(1));
    assert_eq!(run("(if '() 1 2)").unwrap(), num(1));
    assert_eq!(run("(if false 1 2)").unwrap(), num(2));
    assert_eq!(kind("(if true 1)"), ErrorKind::MalformedSpecialForm);
}

#[test]
fn eval_and_apply() {
    assert_eq!(run("(eval '(+ 1 1))").unwrap(), num(2));
    assert_eq!(run("(apply + '(1 1))").unwrap(), num(2));
    assert_eq!(kind("(apply + 1)"), ErrorKind::ExpectedList);
}

#[test]
fn rational_results_are_in_lowest_terms() {
    let half = Rational::new(2, 4).unwrap();
    assert_eq!(half, Rational { numerator: 1, denominator: 2 });
    let third = Rational::new(1, 3).unwrap();
    assert_eq!(half.add(&third).unwrap(), Rational { numerator: 5, denominator: 6 });
    assert_eq!(half.sub(&third).unwrap(), Rational { numerator: 1, denominator: 6 });
    assert_eq!(half.mul(&third).unwrap(), Rational { numerator: 1, denominator: 6 });
    assert_eq!(half.div(&third).unwrap(), Rational { numerator: 3, denominator: 2 });
    assert_eq!(Rational::new(3, -6).unwrap(), Rational { numerator: -1, denominator: 2 });
    assert_eq!(Rational::new(0, 5).unwrap(), Rational { numerator: 0, denominator: 1 });
}

#[test]
fn division_by_zero_is_an_error() {
    let zero = Rational::from_int(0);
    let one = Rational::from_int(1);
    assert_eq!(one.div(&zero).unwrap_err().kind, ErrorKind::DivideByZero);
    assert_eq!(zero.div(&zero).unwrap_err().kind, ErrorKind::DivideByZero);
    assert_eq!(kind("(/ 1 0)"), ErrorKind::DivideByZero);
}

#[test]
fn arithmetic_overflow_is_an_error() {
    let big = Rational::from_int(i64::MAX);
    assert_eq!(big.add(&Rational::from_int(1)).unwrap_err().kind, ErrorKind::Overflow);
    assert_eq!(big.mul(&big).unwrap_err().kind, ErrorKind::Overflow);
}

#[test]
fn arithmetic_through_the_evaluator() {
    assert_eq!(shown("(/ 1 2)"), "1/2");
    assert_eq!(shown("(+ (/ 1 2) (/ 1 3))"), "5/6");
    assert_eq!(shown("(- 5)"), "-5");
    assert_eq!(shown("(- 10 1 2)"), "7");
    assert_eq!(shown("(* 2 3 4)"), "24");
    assert_eq!(shown("(+)"), "0");
    assert_eq!(shown("(*)"), "1");
    assert_eq!(shown("1.5"), "3/2");
    assert_eq!(shown("-.25"), "-1/4");
    assert_eq!(kind("(+ 1 'a)"), ErrorKind::TypeMismatch);
    assert_eq!(kind("(< 1 'a)"), ErrorKind::TypeMismatch);
    assert_eq!(shown("(< (/ 1 3) (/ 1 2))"), "true");
}

#[test]
fn car_and_cdr_of_empty_list_fail() {
    assert_eq!(kind("(car '())"), ErrorKind::EmptyList);
    assert_eq!(kind("(cdr '())"), ErrorKind::EmptyList);
    assert_eq!(kind("(car 1)"), ErrorKind::TypeMismatch);
}

#[test]
fn cdr_of_single_element_list_is_nil() {
    assert_eq!(run("(cdr '(1))").unwrap(), Exp::new_list());
}

#[test]
fn cons_prepends() {
    assert_eq!(shown("(cons 1 '(2 3))"), "(1 2 3)");
    assert_eq!(shown("(cons 1 2)"), "(1 . 2)");
    assert_eq!(shown("(cons 0 (cons 1 2))"), "(0 1 . 2)");
    assert_eq!(shown("(cdr (cons 1 2))"), "2");
    assert_eq!(shown("(car (cons 1 2))"), "1");
}

#[test]
fn end_to_end_programs() {
    assert_eq!(run("(define a 1) (define b 2) (define c (+ a b)) c").unwrap(), num(3));
    assert_eq!(run("((lambda (a b) (+ a b)) 1 2)").unwrap(), num(3));
    assert_eq!(run("(define (square x) (* x x)) (square 4)").unwrap(), num(16));
}

#[test]
fn recursion_through_define() {
    let program = "(define (fact n) (if (= n 0) 1 (* n (fact (- n 1))))) (fact 10)";
    assert_eq!(run(program).unwrap(), num(3628800));
}

#[test]
fn closures_see_later_definitions_in_their_scope() {
    let program = "(define (make) (lambda () y)) (define f (make)) (define y 5) (f)";
    assert_eq!(run(program).unwrap(), num(5));
}

#[test]
fn nesting_beyond_the_given_depth_is_reported() {
    let mut env = Env::new();
    let forms = parse_all(&tokenize("(+ 1 (+ 2 (+ 3 4)))").unwrap()).unwrap();
    let shallow = evaluate(&forms[0], &mut env, 0, 2).unwrap_err();
    assert_eq!(shallow.kind, ErrorKind::DepthExceeded);
    assert_eq!(evaluate(&forms[0], &mut env, 0, 3).unwrap(), num(10));
}

#[test]
fn recursion_a_few_hundred_calls_deep() {
    let program = "(define (count n) (if (= n 0) 0 (+ 1 (count (- n 1))))) (count 300)";
    assert_eq!(run(program).unwrap(), num(300));
}

#[test]
fn evaluator_error_kinds() {
    assert_eq!(kind("nothing-here"), ErrorKind::UnboundSymbol);
    assert_eq!(kind("(1 2)"), ErrorKind::NotCallable);
    assert_eq!(kind("(define 1 2)"), ErrorKind::MalformedSpecialForm);
    assert_eq!(kind("(let x 1)"), ErrorKind::MalformedSpecialForm);
    assert_eq!(kind("(lambda (1) 1)"), ErrorKind::MalformedSpecialForm);
    assert_eq!(kind("(lambda ((a)) 1)"), ErrorKind::ExpectedAtom);
    assert_eq!(kind("(empty? 1)"), ErrorKind::ExpectedList);
    assert_eq!(kind("(number? '(1))"), ErrorKind::ExpectedAtom);
}

#[test]
fn parser_error_kinds() {
    assert_eq!(kind("(+ 1 2"), ErrorKind::UnexpectedEof);
    assert_eq!(kind(")"), ErrorKind::UnmatchedDelimiter);
    assert_eq!(kind("(1 . 2 3)"), ErrorKind::UnmatchedDelimiter);
    assert_eq!(kind(". 1"), ErrorKind::InvalidToken);
    assert_eq!(kind("\"text\""), ErrorKind::InvalidToken);
    assert_eq!(kind("1x"), ErrorKind::InvalidToken);
    assert_eq!(kind("99999999999999999999"), ErrorKind::Overflow);
}

#[test]
fn type_predicates() {
    assert_eq!(shown("(number? 1)"), "true");
    assert_eq!(shown("(symbol? 'a)"), "true");
    assert_eq!(shown("(symbol? 1)"), "false");
    assert_eq!(shown("(function? car)"), "true");
    assert_eq!(shown("(function? (lambda (x) x))"), "true");
    assert_eq!(shown("(boolean? #f)"), "true");
    assert_eq!(shown("(quote? ''a)"), "true");
    assert_eq!(shown("(special_form? 1)"), "false");
    assert_eq!(shown("(empty? '())"), "true");
    assert_eq!(shown("(empty? '(1))"), "false");
}

#[test]
fn structural_equality() {
    assert_eq!(shown("(= '(1 2) (list 1 2))"), "true");
    assert_eq!(shown("(= (/ 2 4) (/ 1 2))"), "true");
    assert_eq!(shown("(= 'a 'b)"), "false");
}

#[test]
fn text_of_values() {
    assert_eq!(shown("'(1 (2 3) a)"), "(1 (2 3) a)");
    assert_eq!(shown("''a"), "'a");
    assert_eq!(shown("car"), "car");
    assert_eq!(shown("(lambda (x y) (+ x y))"), "(lambda (x y) (+ x y))");
    assert_eq!(shown("#t"), "true");
    assert_eq!(shown("'(a . b)"), "(a . b)");
}

#[test]
fn tokens_of_text() {
    let ts = tokenize("(Define [x] 'y . -3)").unwrap();
    assert_eq!(ts.len(), 10);
    assert_eq!(ts[0], Token::StartExp);
    assert_eq!(ts[1], Token::Literal(Atom::SpecialForm(SpecialForm::Define)));
    assert_eq!(ts[2], Token::StartExp);
    assert_eq!(ts[3], Token::Literal(Atom::Symbol("x".to_string())));
    assert_eq!(ts[4], Token::EndExp);
    assert_eq!(ts[5], Token::Quote);
    assert_eq!(ts[7], Token::Dot);
    assert_eq!(ts[8], Token::Literal(Atom::Number(Rational::from_int(-3))));
    assert_eq!(ts[9], Token::EndExp);
}

#[test]
fn parse_all_reads_every_form() {
    let ts = tokenize("1 (a b) '()").unwrap();
    let forms = parse_all(&ts).unwrap();
    assert_eq!(forms.len(), 3);
    assert_eq!(forms[0], num(1));
}

#[test]
fn reader_session() {
    let mut reader = Reader::new();
    assert!(reader.new_expression());
    assert!(!reader.expression_complete());
    reader.push("(define (f x)".to_string()).unwrap();
    assert!(!reader.expression_complete());
    assert!(!reader.new_expression());
    reader.push("(* x 2))".to_string()).unwrap();
    assert!(reader.expression_complete());
    assert_eq!(reader.eval().unwrap(), "()");
    assert!(reader.new_expression());
    reader.push("(display (f 21)) (newline) (f 1)".to_string()).unwrap();
    assert_eq!(reader.eval().unwrap(), "2");
    assert_eq!(reader.take_output(), "42\n");
    assert_eq!(reader.take_output(), "");
    assert!(reader.push(")".to_string()).is_err());
    reader.push("(1".to_string()).unwrap();
    reader.clear_buffer();
    assert!(reader.new_expression());
}

#[test]
fn argument_count_validation() {
    let args = vec![1, 2, 3];
    assert!(validate_num_args("f", &args, 1, usize::MAX).is_ok());
    assert!(validate_num_args("f", &args, 3, 3).is_ok());
    let e = validate_num_args("f", &args, 4, usize::MAX).unwrap_err();
    assert_eq!(e.kind, ErrorKind::Arity { min: 4, max: usize::MAX, found: 3 });
    assert_eq!(e.message, "f expects at least 4 args, found 3");
}

#[test]
fn error_from_another_error() {
    let inner = SchemeError::new(ErrorKind::Overflow, "inner".to_string());
    let outer = SchemeError::from("outer".to_string(), &inner);
    assert_eq!(outer.kind, ErrorKind::Overflow);
    assert_eq!(outer.message, "outer");
    assert_eq!(outer.cause, Some("inner".to_string()));
}

#[test]
fn config_from_flags() {
    let c = Config::from_flags(None, false, true);
    assert!(c.interactive);
    assert!(c.verbose);
    let c = Config::from_flags(Some("f.scm".to_string()), false, false);
    assert!(!c.interactive);
    let c = Config::new(None, false, false);
    assert!(!c.interactive);
}

#[test]
fn atom_predicates() {
    assert!(Atom::Number(Rational::from_int(1)).is_number());
    assert!(Atom::Symbol("a".to_string()).is_symbol());
    assert!(Atom::Quote(Box::new(Exp::new_list())).is_nil());
    assert!(!Atom::Quote(Box::new(num(1))).is_nil());
    assert!(Atom::Boolean(true).is_boolean());
    assert!(Atom::SpecialForm(SpecialForm::If).is_special_form());
    assert!(Atom::Quote(Box::new(num(1))).is_quote());
    assert!(!Atom::Boolean(true).is_lambda());
    assert!(!Atom::Boolean(true).is_builtin());
}

#[test]
fn fraction_literals_read_back() {
    assert_eq!(shown("1/2"), "1/2");
    assert_eq!(shown("-3/6"), "-1/2");
    assert_eq!(shown("(+ 1/2 1/3)"), "5/6");
    assert_eq!(kind("1/0"), ErrorKind::DivideByZero);
    assert_eq!(kind("1/"), ErrorKind::InvalidToken);
}

#[test]
fn printed_values_read_back_as_the_same_value() {
    for program in ["'(1 (2 . 3) a #t)", "(/ 7 -21)", "'(a 'b)", "(list 1/2 -4 '())"] {
        let value = run(program).unwrap();
        let text = to_text(&value);
        let again = run(&format!("'{}", text)).unwrap();
        assert_eq!(to_text(&again), text);
        assert_eq!(again, value);
    }
}

fn message(input: &str) -> String {
    run(input).unwrap_err().message
}

#[test]
fn error_messages_name_what_went_wrong() {
    assert_eq!(message("nowhere"), "Name nowhere not found");
    assert_eq!(message("(1 2)"), "Expected a function, found 1");
    assert_eq!(message("(let x x)"), "Let expects a list of definitions");
    assert_eq!(message("(if 1 2)"), "if expects at least 3 args, found 2");
    assert_eq!(message("(if 1 2 3 4)"), "if takes a maximum of 3 args, found 4");
    assert_eq!(message("(/ 1 2 3)"), "/ takes a maximum of 2 args, found 3");
    assert_eq!(message("(/ 1 0)"), "Divide by zero");
    assert_eq!(message("(lambda (a 1) a)"), "Parameter list expects symbols, found 1");
    assert_eq!(message("(lambda ((a)) a)"), "Expected an atom, found (a)");
    assert_eq!(message("((lambda (a) a))"), "lambda expects at least 1 args, found 0");
    assert_eq!(message("(lambda)"), "lambda expects at least 2 args, found 0");
}

#[test]
fn malformed_let_adds_no_scope() {
    let mut env = Env::new();
    let before = env.frame_count();
    assert!(eval_text("(let x x)", &mut env).is_err());
    assert_eq!(env.frame_count(), before);
}

#[test]
fn number_literals_with_exponents() {
    assert_eq!(run("1e3").unwrap(), num(1000));
    assert_eq!(run("1E+2").unwrap(), num(100));
    assert_eq!(shown("2.5e-1"), "1/4");
    assert_eq!(shown("-3e0"), "-3");
    assert_eq!(kind("1e19"), ErrorKind::Overflow);
    assert_eq!(kind("1e"), ErrorKind::InvalidToken);
    assert_eq!(kind("1e2x"), ErrorKind::InvalidToken);
}

#[test]
fn badly_shaped_special_forms_are_malformed() {
    for program in [
        "(define)",
        "(define x)",
        "(define x 1 2)",
        "(define () 1)",
        "(define ((a)) 1)",
        "(define (f))",
        "(let)",
        "(let ((a 1)))",
        "(let ((a)) a)",
        "(let (((a) 1)) a)",
        "(lambda)",
        "(lambda (x))",
        "(if 1 2)",
        "(eval)",
        "(apply +)",
    ] {
        assert_eq!(kind(program), ErrorKind::MalformedSpecialForm, "{}", program);
    }
    assert_eq!(message("(define x 1 2)"), "define value takes a maximum of 2 args, found 3");
    assert_eq!(message("(eval)"), "eval expects at least 1 args, found 0");
}
