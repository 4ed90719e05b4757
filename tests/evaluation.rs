use simple_scheme::machine::{apply, evaluate, is_done, run, step, Config, EvalError, ExprConfig};
use simple_scheme::{Continuation, Env, Expr, Id, Primitive, Value};
use std::rc::Rc;

const FUEL: u64 = 100_000;

fn var(name: &str) -> Expr {
    Expr::Id(Id::new(name))
}

fn app(rator: Expr, rand: Expr) -> Expr {
    Expr::App { rator: Rc::new(rator), rand: Rc::new(rand) }
}

fn app2(f: &str, a: Expr, b: Expr) -> Expr {
    app(app(var(f), a), b)
}

fn eval_in(expr: Expr, env: Env) -> Result<Option<Rc<Value>>, EvalError> {
    evaluate(Rc::new(expr), env, FUEL)
}

fn eval(expr: Expr) -> Result<Option<Rc<Value>>, EvalError> {
    eval_in(expr, Env::primitives())
}

fn int_of(r: Result<Option<Rc<Value>>, EvalError>) -> i32 {
    match r {
        Ok(Some(v)) => match &*v {
            Value::Int(n) => *n,
            _ => panic!("expected an integer"),
        },
        _ => panic!("expected a value"),
    }
}

fn bool_of(r: Result<Option<Rc<Value>>, EvalError>) -> bool {
    match r {
        Ok(Some(v)) => match &*v {
            Value::True => true,
            Value::False => false,
            _ => panic!("expected a boolean"),
        },
        _ => panic!("expected a value"),
    }
}

/// `(cons 1 (cons 2 ... '()))` with `k` elements, `nil` being bound to the empty list.
fn list_expr(k: i32) -> Expr {
    let mut e = var("nil");
    for i in 0..k {
        e = app2("cons", Expr::Int(i), e);
    }
    e
}

fn with_nil() -> Env {
    Env::extend(Id::new("nil"), Rc::new(Value::Null), &Env::primitives())
}

/// letrec len(x) = (or (and (null? x) 0) ((add 1) (len (cdr x)))) in (len list)
fn length_program(list: Expr) -> Expr {
    let fn_body = Expr::Or(
        Rc::new(Expr::And(Rc::new(app(var("null?"), var("x"))), Rc::new(Expr::Int(0)))),
        Rc::new(app2("add", Expr::Int(1), app(var("len"), app(var("cdr"), var("x"))))),
    );
    Expr::Letrec {
        lhs: Id::new("len"),
        arg: Id::new("x"),
        rhs: Rc::new(fn_body),
        body: Rc::new(app(var("len"), list)),
    }
}

#[test]
fn add_and_sub() {
    assert_eq!(int_of(eval(app2("add", Expr::Int(3), Expr::Int(4)))), 7);
    assert_eq!(int_of(eval(app2("add", Expr::Int(-3), Expr::Int(4)))), 1);
    assert_eq!(int_of(eval(app2("sub", Expr::Int(10), Expr::Int(4)))), 6);
    assert_eq!(int_of(eval(app2("sub", Expr::Int(4), Expr::Int(10)))), -6);
}

#[test]
fn arithmetic_wraps_on_overflow() {
    assert_eq!(int_of(eval(app2("add", Expr::Int(i32::MAX), Expr::Int(1)))), i32::MIN);
    assert_eq!(int_of(eval(app2("sub", Expr::Int(i32::MIN), Expr::Int(1)))), i32::MAX);
}

#[test]
fn equal_compares_integers() {
    assert!(bool_of(eval(app2("equal?", Expr::Int(3), Expr::Int(3)))));
    assert!(!bool_of(eval(app2("equal?", Expr::Int(3), Expr::Int(4)))));
    assert!(matches!(
        eval(app2("equal?", Expr::True, Expr::True)),
        Err(EvalError::IllegalApplication)
    ));
}

#[test]
fn null_holds_only_of_the_empty_list() {
    assert!(bool_of(eval_in(app(var("null?"), var("nil")), with_nil())));
    assert!(!bool_of(eval_in(app(var("null?"), Expr::Int(0)), with_nil())));
    assert!(!bool_of(eval_in(app(var("null?"), Expr::False), with_nil())));
    assert!(!bool_of(eval_in(app(var("null?"), list_expr(1)), with_nil())));
}

#[test]
fn car_and_cdr_of_cons() {
    let pair = app2("cons", Expr::Int(1), Expr::Int(2));
    assert_eq!(int_of(eval(app(var("car"), app2("cons", Expr::Int(1), Expr::Int(2))))), 1);
    assert_eq!(int_of(eval(app(var("cdr"), pair))), 2);
}

#[test]
fn and_or_short_circuit() {
    // the second operand is unbound: evaluating it would fail
    assert!(!bool_of(eval(Expr::And(Rc::new(Expr::False), Rc::new(var("nope"))))));
    assert!(bool_of(eval(Expr::Or(Rc::new(Expr::True), Rc::new(var("nope"))))));
    assert_eq!(int_of(eval(Expr::And(Rc::new(Expr::True), Rc::new(Expr::Int(5))))), 5);
    assert_eq!(int_of(eval(Expr::Or(Rc::new(Expr::False), Rc::new(Expr::Int(6))))), 6);
    assert_eq!(int_of(eval(Expr::Or(Rc::new(Expr::Int(9)), Rc::new(var("nope"))))), 9);
    assert!(matches!(
        eval(Expr::And(Rc::new(Expr::True), Rc::new(var("nope")))),
        Err(EvalError::UnboundIdentifier(_))
    ));
}

#[test]
fn shadowing_resolves_to_innermost() {
    let inner = Expr::Let { lhs: Id::new("x"), rhs: Rc::new(Expr::Int(2)), body: Rc::new(var("x")) };
    let e = Expr::Let { lhs: Id::new("x"), rhs: Rc::new(Expr::Int(1)), body: Rc::new(inner) };
    assert_eq!(int_of(eval(e)), 2);
    // the outer binding is still seen where the inner one is out of scope
    let inner = Expr::Let { lhs: Id::new("x"), rhs: Rc::new(Expr::Int(2)), body: Rc::new(var("x")) };
    let sum = app2("add", inner, var("x"));
    let e = Expr::Let { lhs: Id::new("x"), rhs: Rc::new(Expr::Int(1)), body: Rc::new(sum) };
    assert_eq!(int_of(eval(e)), 3);
}

#[test]
fn recursive_length_of_lists() {
    for k in 0..6 {
        assert_eq!(int_of(eval_in(length_program(list_expr(k)), with_nil())), k);
    }
    assert_eq!(int_of(eval_in(length_program(list_expr(300)), with_nil())), 300);
}

#[test]
fn lambda_application() {
    let id = Expr::Lambda { arg: Id::new("y"), body: Rc::new(var("y")) };
    assert_eq!(int_of(eval(app(id, Expr::Int(5)))), 5);
    let k = Expr::Lambda {
        arg: Id::new("a"),
        body: Rc::new(Expr::Lambda { arg: Id::new("b"), body: Rc::new(var("a")) }),
    };
    assert_eq!(int_of(eval(app(app(k, Expr::Int(8)), Expr::Int(9)))), 8);
}

#[test]
fn string_literal_evaluates_to_itself() {
    match eval(Expr::String("hi".to_string())) {
        Ok(Some(v)) => assert!(matches!(&*v, Value::String(s) if s == "hi")),
        _ => panic!("expected a value"),
    }
}

#[test]
fn unbound_identifier_is_reported() {
    match eval(var("ghost")) {
        Err(EvalError::UnboundIdentifier(id)) => assert!(id == Id::new("ghost")),
        _ => panic!("expected an unbound identifier"),
    }
    assert!(matches!(
        eval(app(var("ghost"), Expr::Int(1))),
        Err(EvalError::UnboundIdentifier(_))
    ));
}

#[test]
fn illegal_applications_are_reported() {
    assert!(matches!(eval(app(var("car"), Expr::Int(1))), Err(EvalError::IllegalApplication)));
    assert!(matches!(eval(app(var("cdr"), Expr::True)), Err(EvalError::IllegalApplication)));
    assert!(matches!(eval(app(Expr::Int(1), Expr::Int(2))), Err(EvalError::IllegalApplication)));
    assert!(matches!(
        eval(app2("add", Expr::Int(1), Expr::String("x".to_string()))),
        Err(EvalError::IllegalApplication)
    ));
}

#[test]
fn running_out_of_fuel_gives_none() {
    // (let ([w (lambda x (x x))]) (w w)) never finishes
    let w = Expr::Lambda { arg: Id::new("x"), body: Rc::new(app(var("x"), var("x"))) };
    let e = Expr::Let { lhs: Id::new("w"), rhs: Rc::new(w), body: Rc::new(app(var("w"), var("w"))) };
    assert!(matches!(evaluate(Rc::new(e), Env::empty(), 10_000), Ok(None)));
}

#[test]
fn stepping_one_transition_at_a_time() {
    let c = Config::Expr(ExprConfig {
        expr: Rc::new(Expr::Int(4)),
        env: Env::empty(),
        k: Rc::new(Continuation::Halt),
    });
    assert!(!is_done(&c));
    let c = match step(c) {
        Ok(c) => c,
        Err(_) => panic!("literal cannot fail"),
    };
    assert!(is_done(&c));
    match run(c, 5) {
        Ok(Config::Value(vc)) => assert!(matches!(&*vc.value, Value::Int(4))),
        _ => panic!("terminal state must stay"),
    }
}

#[test]
fn apply_curries_primitives() {
    let halt = Rc::new(Continuation::Halt);
    let partial = match apply(
        Rc::new(Value::Prim(Primitive::Sub)),
        Rc::new(Value::Int(9)),
        Rc::clone(&halt),
    ) {
        Ok(Config::Value(vc)) => vc.value,
        _ => panic!("expected a value"),
    };
    assert!(matches!(&*partial, Value::Prim(Primitive::SubArg(9))));
    match apply(partial, Rc::new(Value::Int(2)), halt) {
        Ok(Config::Value(vc)) => assert!(matches!(&*vc.value, Value::Int(7))),
        _ => panic!("expected a value"),
    }
}
