use crate::machine::{
    apply_spec, bool_value, done, evaluates_to, expr_config, fails_with, run_spec, start, step_spec,
    value_config, Config, EvalError,
};
use crate::types::{bind, bind_rec, lookup_in, Continuation, Env, Expr, Id, Primitive, Value};
use std::rc::Rc;
use vstd::prelude::*;

verus! {

/// A reference to the variable `x`.
pub open spec fn var(x: Id) -> Expr {
    Expr::Id(x)
}

/// The application of `rator` to `rand`.
pub open spec fn app(rator: Expr, rand: Expr) -> Expr {
    Expr::App { rator: Rc::new(rator), rand: Rc::new(rand) }
}

/// Running `a + b` transitions is running `a`, then `b` more from where the first run stopped.
pub proof fn lemma_run_split(c: Config, a: nat, b: nat)
    ensures
        run_spec(c, a + b) == match run_spec(c, a) {
            Ok(mid) => run_spec(mid, b),
            Err(e) => Err(e),
        },
    decreases a,
{
    if a > 0 {
        assert((a + b - 1) as nat == (a - 1) as nat + b);
        if let Ok(next) = step_spec(c) {
            lemma_run_split(next, (a - 1) as nat, b);
        }
    }
}

/// A variable resolves to its innermost binding: a plain rib for `id` shadows every
/// outer binding of `id` and leaves every other name as it was.
pub proof fn lemma_lookup_extend(id: Id, v: Value, env: Env, name: Seq<char>)
    ensures
        bind(id, v, env).spec_lookup(name) == if id@ == name {
            Some(v)
        } else {
            env.spec_lookup(name)
        },
{
}

/// A recursive rib for `id` gives a closure over the environment that starts at that
/// rib, so the function can find itself by name inside its own body.
pub proof fn lemma_lookup_extend_rec(id: Id, arg: Id, body: Expr, env: Env)
    ensures
        bind_rec(id, arg, body, env).spec_lookup(id@) == Some(
            Value::Closure(bind_rec(id, arg, body, env), arg, Rc::new(body)),
        ),
{
}

/// `((add n) m)` evaluates to the sum of `n` and `m` (wrapping around on `i32` overflow),
/// and `((sub n) m)` to their difference.
pub proof fn lemma_add_sub(add: Id, sub: Id, n: i32, m: i32, env: Env)
    requires
        env.spec_lookup(add@) == Some(Value::Prim(Primitive::Add)),
        env.spec_lookup(sub@) == Some(Value::Prim(Primitive::Sub)),
    ensures
        evaluates_to(app(app(var(add), Expr::Int(n)), Expr::Int(m)), env, Value::Int(n.wrapping_add(m))),
        evaluates_to(app(app(var(sub), Expr::Int(n)), Expr::Int(m)), env, Value::Int(n.wrapping_sub(m))),
        i32::MIN <= n + m <= i32::MAX ==> n.wrapping_add(m) == n + m,
        i32::MIN <= n - m <= i32::MAX ==> n.wrapping_sub(m) == n - m,
{
    reveal_with_fuel(run_spec, 10);
    assert(run_spec(start(app(app(var(add), Expr::Int(n)), Expr::Int(m)), env), 9) == Ok::<Config, EvalError>(done(Value::Int(n.wrapping_add(m)))));
    assert(run_spec(start(app(app(var(sub), Expr::Int(n)), Expr::Int(m)), env), 9) == Ok::<Config, EvalError>(done(Value::Int(n.wrapping_sub(m)))));
}

/// `((equal? n m))` evaluates to true when `n == m` and to false otherwise.
pub proof fn lemma_equal(equal: Id, n: i32, m: i32, env: Env)
    requires
        env.spec_lookup(equal@) == Some(Value::Prim(Primitive::Equal)),
    ensures
        evaluates_to(app(app(var(equal), Expr::Int(n)), Expr::Int(m)), env, bool_value(n == m)),
{
    reveal_with_fuel(run_spec, 10);
    assert(run_spec(start(app(app(var(equal), Expr::Int(n)), Expr::Int(m)), env), 9) == Ok::<Config, EvalError>(done(bool_value(n == m))));
}

/// `(null? x)` evaluates to true when `x` holds the empty list, and to false for
/// every other value.
pub proof fn lemma_null(nullp: Id, x: Id, v: Value, env: Env)
    requires
        env.spec_lookup(nullp@) == Some(Value::Prim(Primitive::NullP)),
        env.spec_lookup(x@) == Some(v),
    ensures
        evaluates_to(app(var(nullp), var(x)), env, bool_value(v is Null)),
{
    reveal_with_fuel(run_spec, 7);
    assert(run_spec(start(app(var(nullp), var(x)), env), 6) == Ok::<Config, EvalError>(done(bool_value(v is Null))));
}

/// `(car ((cons a) b))` evaluates to the value of `a`, and `(cdr ((cons a) b))` to the
/// value of `b`.
pub proof fn lemma_car_cdr_cons(cons: Id, car: Id, cdr: Id, a: Id, b: Id, va: Value, vb: Value, env: Env)
    requires
        env.spec_lookup(cons@) == Some(Value::Prim(Primitive::Cons)),
        env.spec_lookup(car@) == Some(Value::Prim(Primitive::Car)),
        env.spec_lookup(cdr@) == Some(Value::Prim(Primitive::Cdr)),
        env.spec_lookup(a@) == Some(va),
        env.spec_lookup(b@) == Some(vb),
    ensures
        evaluates_to(app(var(car), app(app(var(cons), var(a)), var(b))), env, va),
        evaluates_to(app(var(cdr), app(app(var(cons), var(a)), var(b))), env, vb),
{
    reveal_with_fuel(run_spec, 14);
    assert(run_spec(start(app(var(car), app(app(var(cons), var(a)), var(b))), env), 13) == Ok::<Config, EvalError>(done(va)));
    assert(run_spec(start(app(var(cdr), app(app(var(cons), var(a)), var(b))), env), 13) == Ok::<Config, EvalError>(done(vb)));
}

/// `(and #f x)` evaluates to false and `(or #t x)` to true, whatever `x` is: `x` is
/// never evaluated, so not even a failing `x` changes the outcome.
pub proof fn lemma_short_circuit(x: Expr, env: Env)
    ensures
        evaluates_to(Expr::And(Rc::new(Expr::False), Rc::new(x)), env, Value::False),
        evaluates_to(Expr::Or(Rc::new(Expr::True), Rc::new(x)), env, Value::True),
{
    reveal_with_fuel(run_spec, 4);
    assert(run_spec(start(Expr::And(Rc::new(Expr::False), Rc::new(x)), env), 3) == Ok::<Config, EvalError>(done(Value::False)));
    assert(run_spec(start(Expr::Or(Rc::new(Expr::True), Rc::new(x)), env), 3) == Ok::<Config, EvalError>(done(Value::True)));
}

/// `(and #t x)` and `(or #f x)` become the evaluation of `x` itself, so they end as `x`
/// does: with its value, or with its failure.
pub proof fn lemma_pass_through(x: Expr, env: Env)
    ensures
        run_spec(start(Expr::And(Rc::new(Expr::True), Rc::new(x)), env), 3) == Ok::<Config, EvalError>(start(x, env)),
        run_spec(start(Expr::Or(Rc::new(Expr::False), Rc::new(x)), env), 3) == Ok::<Config, EvalError>(start(x, env)),
        forall|v: Value| #[trigger]
            evaluates_to(x, env, v) ==> evaluates_to(Expr::And(Rc::new(Expr::True), Rc::new(x)), env, v)
                && evaluates_to(Expr::Or(Rc::new(Expr::False), Rc::new(x)), env, v),
        forall|e: EvalError| #[trigger]
            fails_with(x, env, e) ==> fails_with(Expr::And(Rc::new(Expr::True), Rc::new(x)), env, e)
                && fails_with(Expr::Or(Rc::new(Expr::False), Rc::new(x)), env, e),
{
    let and_x = start(Expr::And(Rc::new(Expr::True), Rc::new(x)), env);
    let or_x = start(Expr::Or(Rc::new(Expr::False), Rc::new(x)), env);
    reveal_with_fuel(run_spec, 4);
    assert(run_spec(and_x, 3) == Ok::<Config, EvalError>(start(x, env)));
    assert(run_spec(or_x, 3) == Ok::<Config, EvalError>(start(x, env)));
    assert forall|v: Value| #[trigger] evaluates_to(x, env, v) implies evaluates_to(Expr::And(Rc::new(Expr::True), Rc::new(x)), env, v)
        && evaluates_to(Expr::Or(Rc::new(Expr::False), Rc::new(x)), env, v) by {
        let n = choose|n: nat| run_spec(start(x, env), n) == Ok::<Config, EvalError>(done(v));
        lemma_run_split(and_x, 3, n);
        lemma_run_split(or_x, 3, n);
    }
    assert forall|e: EvalError| #[trigger] fails_with(x, env, e) implies fails_with(Expr::And(Rc::new(Expr::True), Rc::new(x)), env, e)
        && fails_with(Expr::Or(Rc::new(Expr::False), Rc::new(x)), env, e) by {
        let n = choose|n: nat| run_spec(start(x, env), n) == Err::<Config, EvalError>(e);
        lemma_run_split(and_x, 3, n);
        lemma_run_split(or_x, 3, n);
    }
}

/// In `(let ([x 1]) (let ([x 2]) x))` the reference to `x` finds the inner binding.
pub proof fn lemma_shadowing(x: Id, env: Env)
    ensures
        evaluates_to(
            Expr::Let {
                lhs: x,
                rhs: Rc::new(Expr::Int(1)),
                body: Rc::new(Expr::Let { lhs: x, rhs: Rc::new(Expr::Int(2)), body: Rc::new(var(x)) }),
            },
            env,
            Value::Int(2),
        ),
{
    reveal_with_fuel(run_spec, 8);
    assert(run_spec(
        start(
            Expr::Let {
                lhs: x,
                rhs: Rc::new(Expr::Int(1)),
                body: Rc::new(Expr::Let { lhs: x, rhs: Rc::new(Expr::Int(2)), body: Rc::new(var(x)) }),
            },
            env,
        ),
        7,
    ) == Ok::<Config, EvalError>(done(Value::Int(2))));
}

/// A variable that no rib binds stops evaluation as unbound, not as an illegal application.
pub proof fn lemma_unbound(x: Id, env: Env)
    requires
        env.spec_lookup(x@) is None,
    ensures
        fails_with(var(x), env, EvalError::UnboundIdentifier(x)),
{
    assert(run_spec(start(var(x), env), 1) == Err::<Config, EvalError>(EvalError::UnboundIdentifier(x)));
}

/// `car` and `cdr` fail on anything but a pair, and a value that is neither a closure
/// nor a primitive fails when applied to anything.
pub proof fn lemma_illegal_application(rator: Value, rand: Value, k: Continuation)
    ensures
        rand !is Pair ==> apply_spec(Value::Prim(Primitive::Car), rand, k) == Err::<Config, EvalError>(EvalError::IllegalApplication),
        rand !is Pair ==> apply_spec(Value::Prim(Primitive::Cdr), rand, k) == Err::<Config, EvalError>(EvalError::IllegalApplication),
        rator !is Closure && rator !is Prim ==> apply_spec(rator, rand, k) == Err::<Config, EvalError>(EvalError::IllegalApplication),
{
}

/// `(f x)` fails as an illegal application when `f` holds `car` or `cdr` and `x` holds
/// something other than a pair, or when `f` holds neither a closure nor a primitive.
pub proof fn lemma_illegal_evaluation(f: Id, x: Id, vf: Value, vx: Value, env: Env)
    requires
        env.spec_lookup(f@) == Some(vf),
        env.spec_lookup(x@) == Some(vx),
        (vf == Value::Prim(Primitive::Car) || vf == Value::Prim(Primitive::Cdr)) && vx !is Pair
            || vf !is Closure && vf !is Prim,
    ensures
        fails_with(app(var(f), var(x)), env, EvalError::IllegalApplication),
{
    reveal_with_fuel(run_spec, 7);
    assert(run_spec(start(app(var(f), var(x)), env), 6) == Err::<Config, EvalError>(EvalError::IllegalApplication));
}

/// `v` is a proper list of `k` elements: `k` nested pairs ending in the empty list.
pub open spec fn is_list(v: Value, k: nat) -> bool
    decreases k,
{
    if k == 0 {
        v is Null
    } else {
        v matches Value::Pair(_, d) && is_list(*d, (k - 1) as nat)
    }
}

/// `(or (and (null? x) 0) ((add 1) (f (cdr x))))`: the body of a function `f` that
/// counts the elements of the list `x`.
pub open spec fn length_body(f: Id, x: Id, nullp: Id, add: Id, cdr: Id) -> Expr {
    Expr::Or(
        Rc::new(Expr::And(Rc::new(app(var(nullp), var(x))), Rc::new(Expr::Int(0)))),
        Rc::new(app(app(var(add), Expr::Int(1)), app(var(f), app(var(cdr), var(x))))),
    )
}

/// The number of transitions that the counting body takes on a list of `k` elements.
pub open spec fn length_steps(k: nat) -> nat
    decreases k,
{
    if k == 0 {
        10
    } else {
        length_steps((k - 1) as nat) + 26
    }
}

/// The names that the counting function uses are told apart, and the primitives it
/// calls are bound.
pub open spec fn length_names_ok(f: Id, x: Id, nullp: Id, add: Id, cdr: Id, env: Env) -> bool {
    &&& f@ != x@ && f@ != nullp@ && f@ != add@ && f@ != cdr@
    &&& x@ != nullp@ && x@ != add@ && x@ != cdr@
    &&& env.spec_lookup(nullp@) == Some(Value::Prim(Primitive::NullP))
    &&& env.spec_lookup(add@) == Some(Value::Prim(Primitive::Add))
    &&& env.spec_lookup(cdr@) == Some(Value::Prim(Primitive::Cdr))
}

proof fn lemma_length_body(f: Id, x: Id, nullp: Id, add: Id, cdr: Id, env: Env, l: Value, k: nat, kont: Continuation)
    requires
        length_names_ok(f, x, nullp, add, cdr, env),
        is_list(l, k),
        k <= i32::MAX,
    ensures
        ({
            let body = length_body(f, x, nullp, add, cdr);
            run_spec(expr_config(body, bind(x, l, bind_rec(f, x, body, env)), kont), length_steps(k))
                == Ok::<Config, EvalError>(value_config(Value::Int(k as i32), kont))
        }),
    decreases k,
{
    let body = length_body(f, x, nullp, add, cdr);
    let envf = bind_rec(f, x, body, env);
    let c0 = expr_config(body, bind(x, l, envf), kont);
    reveal_with_fuel(lookup_in, 3);
    if k == 0 {
        reveal_with_fuel(run_spec, 11);
        assert(run_spec(c0, 10) == Ok::<Config, EvalError>(value_config(Value::Int(0), kont)));
    } else {
        let d = *l->Pair_1;
        let envx = bind(x, l, envf);
        let clo = Value::Closure(envf, x, Rc::new(body));
        assert(envx.spec_lookup(f@) == Some(clo));
        let outer = Continuation::Rand { env: envx, rator: Rc::new(Value::Prim(Primitive::AddArg(1))), k: Rc::new(kont) };
        let c25 = expr_config(body, bind(x, d, envf), outer);
        assert(run_spec(c0, 25) == Ok::<Config, EvalError>(c25)) by {
            reveal_with_fuel(run_spec, 26);
        }
        lemma_length_body(f, x, nullp, add, cdr, env, d, (k - 1) as nat, outer);
        let c_back = value_config(Value::Int((k - 1) as i32), outer);
        let c_end = value_config(Value::Int(k as i32), kont);
        assert(run_spec(c_back, 1) == Ok::<Config, EvalError>(c_end)) by {
            reveal_with_fuel(run_spec, 2);
        }
        lemma_run_split(c0, 25, length_steps((k - 1) as nat));
        lemma_run_split(c0, 25 + length_steps((k - 1) as nat), 1);
    }
}

/// A function bound by `letrec` can call itself by name: with `f` bound to the counting
/// function, `(f lst)` evaluates to `k` for every list of `k` elements held by `lst`.
pub proof fn lemma_recursive_length(
    f: Id,
    x: Id,
    nullp: Id,
    add: Id,
    cdr: Id,
    lst: Id,
    env: Env,
    l: Value,
    k: nat,
)
    requires
        length_names_ok(f, x, nullp, add, cdr, env),
        lst@ != f@,
        env.spec_lookup(lst@) == Some(l),
        is_list(l, k),
        k <= i32::MAX,
    ensures
        evaluates_to(
            Expr::Letrec {
                lhs: f,
                arg: x,
                rhs: Rc::new(length_body(f, x, nullp, add, cdr)),
                body: Rc::new(app(var(f), var(lst))),
            },
            env,
            Value::Int(k as i32),
        ),
{
    let body = length_body(f, x, nullp, add, cdr);
    let c0 = start(
        Expr::Letrec { lhs: f, arg: x, rhs: Rc::new(body), body: Rc::new(app(var(f), var(lst))) },
        env,
    );
    let c6 = expr_config(body, bind(x, l, bind_rec(f, x, body, env)), Continuation::Halt);
    assert(run_spec(c0, 6) == Ok::<Config, EvalError>(c6)) by {
        reveal_with_fuel(run_spec, 7);
        reveal_with_fuel(lookup_in, 2);
    }
    lemma_length_body(f, x, nullp, add, cdr, env, l, k, Continuation::Halt);
    lemma_run_split(c0, 6, length_steps(k));
    assert(run_spec(c0, 6 + length_steps(k)) == Ok::<Config, EvalError>(done(Value::Int(k as i32))));
}

/// Applying a closure pushes no frame: its body runs with the very continuation that was
/// waiting for the call's result, so calls in tail position do not grow the continuation.
pub proof fn lemma_tail_call(env: Env, id: Id, body: Expr, v: Value, k: Continuation)
    ensures
        apply_spec(Value::Closure(env, id, Rc::new(body)), v, k) == Ok::<Config, EvalError>(
            expr_config(body, bind(id, v, env), k),
        ),
{
}

} // verus!
