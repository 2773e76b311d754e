use lisp_rs::environment::Env;
use lisp_rs::error::{ErrorKind, SchemeError};
use lisp_rs::rational::Rational;
use lisp_rs::reader::eval_text;
use lisp_rs::types::{Atom, Exp};

fn evaluate_input(input: &str) -> Result<Exp, SchemeError> {
    let mut env = Env::new();
    eval_text(input, &mut env)
}

fn evaluate_input_with_env(input: &str, env: &mut Env) -> Result<Exp, SchemeError> {
    eval_text(input, env)
}

fn num(n: i64) -> Exp {
    Exp::Atom(Atom::Number(Rational::from_int(n)))
}

fn boolean(b: bool) -> Exp {
    Exp::Atom(Atom::Boolean(b))
}

#[test]
fn test_define() {
    let input = "(define a 1) (define b 2) (define c (+ a b)) c";
    let result = evaluate_input(&input).unwrap();
    assert_eq!(result, num(3));
}

#[test]
fn test_let() {
    let result = evaluate_input("(let ((a 1)) a)").unwrap();
    assert_eq!(result, num(1));

    let result = evaluate_input("(let ((a 1) (b 2) (c (+ a b))) c)").unwrap();
    assert_eq!(result, num(3));
}

#[test]
fn test_lambda_fn() {
    let result = evaluate_input("((lambda () 1))").unwrap();
    assert_eq!(result, num(1));

    let result = evaluate_input("((lambda (a b) (+ a b)) 1 2)").unwrap();
    assert_eq!(result, num(3));
}

#[test]
fn test_define_fn() {
    let result = evaluate_input("(define a (lambda () 1)) (a)").unwrap();
    assert_eq!(result, num(1));

    let result = evaluate_input("(define (a) 1) (a)").unwrap();
    assert_eq!(result, num(1));
}

#[test]
fn test_closures() {
    let mut env = Env::new();
    evaluate_input_with_env("(define a 1)", &mut env).unwrap();

    let result = evaluate_input_with_env("((lambda (a) a) 2)", &mut env).unwrap();
    assert_eq!(result, num(2));
    let result = evaluate_input_with_env("a", &mut env).unwrap();
    assert_eq!(result, num(1));

    let result = evaluate_input_with_env("(let ((a 2)) a)", &mut env).unwrap();
    assert_eq!(result, num(2));
    let result = evaluate_input_with_env("a", &mut env).unwrap();
    assert_eq!(result, num(1));
}

#[test]
fn test_comparisons() {
    let result = evaluate_input("(= 1 1)").unwrap();
    assert_eq!(result, boolean(true));
    let result = evaluate_input("(= 1 0)").unwrap();
    assert_eq!(result, boolean(false));

    let result = evaluate_input("(> 1 2)").unwrap();
    assert_eq!(result, boolean(false));
    let result = evaluate_input("(> 1 1)").unwrap();
    assert_eq!(result, boolean(false));

    let result = evaluate_input("(>= 1 2)").unwrap();
    assert_eq!(result, boolean(false));
    let result = evaluate_input("(>= 1 1)").unwrap();
    assert_eq!(result, boolean(true));

    let result = evaluate_input("(<= 1 2)").unwrap();
    assert_eq!(result, boolean(true));
    let result = evaluate_input("(<= 1 1)").unwrap();
    assert_eq!(result, boolean(true));
}

#[test]
fn test_if() {
    let result = evaluate_input("(if true 0 1)").unwrap();
    assert_eq!(result, num(0));
    let result = evaluate_input("(if false 0 1)").unwrap();
    assert_eq!(result, num(1));

    let result = evaluate_input("(if (= 1 1) 0 1)").unwrap();
    assert_eq!(result, num(0));
    let result = evaluate_input("(if (= 1 0) 0 1)").unwrap();
    assert_eq!(result, num(1));
}

#[test]
fn test_and() {
    let result = evaluate_input("(and 1 2 false true)").unwrap();
    assert_eq!(result, boolean(false));
    let result = evaluate_input("(and true 1 2 3)").unwrap();
    assert_eq!(result, num(3));
}

#[test]
fn test_or() {
    let result = evaluate_input("(or 1 2 false true)").unwrap();
    assert_eq!(result, num(1));
    let result = evaluate_input("(and false false false false)").unwrap();
    assert_eq!(result, boolean(false));
}

#[test]
fn test_eval_apply() {
    let result = evaluate_input("(eval '(+ 1 1))").unwrap();
    assert_eq!(result, num(2));
    let result = evaluate_input("(apply + '(1 1))").unwrap();
    assert_eq!(result, num(2));
}

#[test]
fn test_list_construction() {
    let result = evaluate_input("(list)").unwrap();
    assert_eq!(result, Exp::new_list());
    let result = evaluate_input("(list 1 2 3)").unwrap();
    assert_eq!(result, Exp::List(vec![num(1), num(2), num(3)]));

    let result = evaluate_input("(cons 1 '(2 3))").unwrap();
    assert_eq!(result, Exp::List(vec![num(1), num(2), num(3)]));
}

#[test]
fn test_list_access() {
    let result = evaluate_input("(car '(1 2 3))").unwrap();
    assert_eq!(result, num(1));
    let result = evaluate_input("(car '())").unwrap_err();
    assert_eq!(result.message, "car called on empty list".to_string());

    let result = evaluate_input("(cdr '(1 2 3))").unwrap();
    assert_eq!(result, Exp::List(vec![num(2), num(3)]));
    let result = evaluate_input("(cdr '())").unwrap_err();
    assert_eq!(result.message, "cdr called on empty list".to_string());
}
