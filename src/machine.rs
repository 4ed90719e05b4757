use crate::types::{bind, bind_rec, Continuation, Env, Expr, Id, Primitive, Value};
use std::rc::Rc;
use vstd::prelude::*;

verus! {

/// About to evaluate `expr` under `env`, then hand its value to `k`.
pub struct ExprConfig {
    pub expr: Rc<Expr>,
    pub env: Env,
    pub k: Rc<Continuation>,
}

/// Holding `value`, about to hand it to `k`.
pub struct ValueConfig {
    pub value: Rc<Value>,
    pub k: Rc<Continuation>,
}

/// A state of the machine.
pub enum Config {
    Expr(ExprConfig),
    Value(ValueConfig),
}

/// Why an evaluation stopped without a value.
pub enum EvalError {
    /// A variable that no rib of the environment binds.
    UnboundIdentifier(Id),
    /// An operator applied to an operand that it is not defined on.
    IllegalApplication,
}

pub open spec fn expr_config(expr: Expr, env: Env, k: Continuation) -> Config {
    Config::Expr(ExprConfig { expr: Rc::new(expr), env, k: Rc::new(k) })
}

pub open spec fn value_config(value: Value, k: Continuation) -> Config {
    Config::Value(ValueConfig { value: Rc::new(value), k: Rc::new(k) })
}

/// The state in which `expr` is about to be evaluated under `env`, with nothing pending.
pub open spec fn start(expr: Expr, env: Env) -> Config {
    expr_config(expr, env, Continuation::Halt)
}

/// The state in which evaluation has finished with `value`.
pub open spec fn done(value: Value) -> Config {
    value_config(value, Continuation::Halt)
}

pub open spec fn is_terminal(c: Config) -> bool {
    c matches Config::Value(vc) && *vc.k is Halt
}

pub open spec fn bool_value(b: bool) -> Value {
    if b {
        Value::True
    } else {
        Value::False
    }
}

/// What applying `rator` to `rand` does, with `k` waiting for the result.
pub open spec fn apply_spec(rator: Value, rand: Value, k: Continuation) -> Result<Config, EvalError> {
    match (rator, rand) {
        (Value::Closure(env, id, body), _) => Ok(
            expr_config(*body, bind(id, rand, env), k),
        ),
        (Value::Prim(Primitive::Add), Value::Int(n)) => Ok(value_config(Value::Prim(Primitive::AddArg(n)), k)),
        (Value::Prim(Primitive::AddArg(n)), Value::Int(m)) => Ok(value_config(Value::Int(n.wrapping_add(m)), k)),
        (Value::Prim(Primitive::Sub), Value::Int(n)) => Ok(value_config(Value::Prim(Primitive::SubArg(n)), k)),
        (Value::Prim(Primitive::SubArg(n)), Value::Int(m)) => Ok(value_config(Value::Int(n.wrapping_sub(m)), k)),
        (Value::Prim(Primitive::Equal), Value::Int(n)) => Ok(value_config(Value::Prim(Primitive::EqualArg(n)), k)),
        (Value::Prim(Primitive::EqualArg(n)), Value::Int(m)) => Ok(value_config(bool_value(n == m), k)),
        (Value::Prim(Primitive::NullP), _) => Ok(value_config(bool_value(rand is Null), k)),
        (Value::Prim(Primitive::Cons), _) => Ok(value_config(Value::Prim(Primitive::ConsArg(Rc::new(rand))), k)),
        (Value::Prim(Primitive::ConsArg(left)), _) => Ok(value_config(Value::Pair(left, Rc::new(rand)), k)),
        (Value::Prim(Primitive::Car), Value::Pair(a, _)) => Ok(value_config(*a, k)),
        (Value::Prim(Primitive::Cdr), Value::Pair(_, d)) => Ok(value_config(*d, k)),
        _ => Err(EvalError::IllegalApplication),
    }
}

/// What handing `value` to the frame `k` does.
pub open spec fn value_step_spec(value: Value, k: Continuation) -> Result<Config, EvalError> {
    match k {
        Continuation::Halt => Ok(value_config(value, k)),
        Continuation::Rator { env, rand, k: next } => Ok(
            expr_config(*rand, env, Continuation::Rand { env, rator: Rc::new(value), k: next }),
        ),
        Continuation::Rand { env, rator, k: next } => apply_spec(*rator, value, *next),
        Continuation::Let { env, id, body, k: next } => Ok(
            expr_config(*body, bind(id, value, env), *next),
        ),
        Continuation::And { env, arg, k: next } => if value is False {
            Ok(value_config(Value::False, *next))
        } else {
            Ok(expr_config(*arg, env, *next))
        },
        Continuation::Or { env, arg, k: next } => if value is False {
            Ok(expr_config(*arg, env, *next))
        } else {
            Ok(value_config(value, *next))
        },
    }
}

/// What evaluating `expr` under `env` does, with `k` waiting for its value.
pub open spec fn expr_step_spec(expr: Expr, env: Env, k: Continuation) -> Result<Config, EvalError> {
    match expr {
        Expr::Int(n) => Ok(value_config(Value::Int(n), k)),
        Expr::String(s) => Ok(value_config(Value::String(s), k)),
        Expr::True => Ok(value_config(Value::True, k)),
        Expr::False => Ok(value_config(Value::False, k)),
        Expr::Id(id) => match env.spec_lookup(id@) {
            Some(v) => Ok(value_config(v, k)),
            None => Err(EvalError::UnboundIdentifier(id)),
        },
        Expr::Lambda { arg, body } => Ok(value_config(Value::Closure(env, arg, body), k)),
        Expr::App { rator, rand } => Ok(
            expr_config(*rator, env, Continuation::Rator { env, rand, k: Rc::new(k) }),
        ),
        Expr::Let { lhs, rhs, body } => Ok(
            expr_config(*rhs, env, Continuation::Let { env, id: lhs, body, k: Rc::new(k) }),
        ),
        Expr::Letrec { lhs, arg, rhs, body } => Ok(
            expr_config(*body, bind_rec(lhs, arg, *rhs, env), k),
        ),
        Expr::And(left, right) => Ok(
            expr_config(*left, env, Continuation::And { env, arg: right, k: Rc::new(k) }),
        ),
        Expr::Or(left, right) => Ok(
            expr_config(*left, env, Continuation::Or { env, arg: right, k: Rc::new(k) }),
        ),
    }
}

/// One transition of the machine. A terminal state steps to itself.
pub open spec fn step_spec(c: Config) -> Result<Config, EvalError> {
    match c {
        Config::Expr(ec) => expr_step_spec(*ec.expr, ec.env, *ec.k),
        Config::Value(vc) => value_step_spec(*vc.value, *vc.k),
    }
}

/// The state after `n` transitions from `c`, or the failure met on the way.
pub open spec fn run_spec(c: Config, n: nat) -> Result<Config, EvalError>
    decreases n,
{
    if n == 0 {
        Ok(c)
    } else {
        match step_spec(c) {
            Ok(next) => run_spec(next, (n - 1) as nat),
            Err(e) => Err(e),
        }
    }
}

/// Evaluating `expr` under `env` finishes with `value`.
pub open spec fn evaluates_to(expr: Expr, env: Env, value: Value) -> bool {
    exists|n: nat| run_spec(start(expr, env), n) == Ok::<Config, EvalError>(done(value))
}

/// Evaluating `expr` under `env` stops with the failure `e`.
pub open spec fn fails_with(expr: Expr, env: Env, e: EvalError) -> bool {
    exists|n: nat| run_spec(start(expr, env), n) == Err::<Config, EvalError>(e)
}

fn deliver(v: Value, k: Rc<Continuation>) -> (r: Config)
    ensures
        r == value_config(v, *k),
{
    Config::Value(ValueConfig { value: Rc::new(v), k })
}

fn truth(b: bool) -> (r: Value)
    ensures
        r == bool_value(b),
{
    if b {
        Value::True
    } else {
        Value::False
    }
}

/// Applies `rator` to `rand`: a closure runs its body with its parameter bound to
/// `rand`; a primitive takes one more argument. Sums and differences wrap around
/// on `i32` overflow.
pub fn apply(rator: Rc<Value>, rand: Rc<Value>, k: Rc<Continuation>) -> (r: Result<Config, EvalError>)
    ensures
        r == apply_spec(*rator, *rand, *k),
{
    match (&*rator, &*rand) {
        (Value::Closure(env, id, body), _) => Ok(
            Config::Expr(ExprConfig { expr: Rc::clone(body), env: Env::extend(id.clone(), Rc::clone(&rand), env), k }),
        ),
        (Value::Prim(Primitive::Add), Value::Int(n)) => Ok(deliver(Value::Prim(Primitive::AddArg(*n)), k)),
        (Value::Prim(Primitive::AddArg(n)), Value::Int(m)) => Ok(deliver(Value::Int(n.wrapping_add(*m)), k)),
        (Value::Prim(Primitive::Sub), Value::Int(n)) => Ok(deliver(Value::Prim(Primitive::SubArg(*n)), k)),
        (Value::Prim(Primitive::SubArg(n)), Value::Int(m)) => Ok(deliver(Value::Int(n.wrapping_sub(*m)), k)),
        (Value::Prim(Primitive::Equal), Value::Int(n)) => Ok(deliver(Value::Prim(Primitive::EqualArg(*n)), k)),
        (Value::Prim(Primitive::EqualArg(n)), Value::Int(m)) => Ok(deliver(truth(*n == *m), k)),
        (Value::Prim(Primitive::NullP), arg) => Ok(deliver(truth(matches!(arg, Value::Null)), k)),
        (Value::Prim(Primitive::Cons), _) => Ok(deliver(Value::Prim(Primitive::ConsArg(Rc::clone(&rand))), k)),
        (Value::Prim(Primitive::ConsArg(left)), _) => Ok(deliver(Value::Pair(Rc::clone(left), Rc::clone(&rand)), k)),
        (Value::Prim(Primitive::Car), Value::Pair(a, _)) => Ok(Config::Value(ValueConfig { value: Rc::clone(a), k })),
        (Value::Prim(Primitive::Cdr), Value::Pair(_, d)) => Ok(Config::Value(ValueConfig { value: Rc::clone(d), k })),
        _ => Err(EvalError::IllegalApplication),
    }
}

/// Hands `value` to the innermost pending frame of `k`.
pub fn value_step(value: Rc<Value>, k: Rc<Continuation>) -> (r: Result<Config, EvalError>)
    ensures
        r == value_step_spec(*value, *k),
{
    match &*k {
        Continuation::Halt => Ok(Config::Value(ValueConfig { value, k })),
        Continuation::Rator { env, rand, k: next } => Ok(
            Config::Expr(
                ExprConfig {
                    expr: Rc::clone(rand),
                    env: env.clone(),
                    k: Rc::new(Continuation::Rand { env: env.clone(), rator: value, k: Rc::clone(next) }),
                },
            ),
        ),
        Continuation::Rand { env, rator, k: next } => apply(Rc::clone(rator), value, Rc::clone(next)),
        Continuation::Let { env, id, body, k: next } => Ok(
            Config::Expr(ExprConfig { expr: Rc::clone(body), env: Env::extend(id.clone(), value, env), k: Rc::clone(next) }),
        ),
        Continuation::And { env, arg, k: next } => match &*value {
            Value::False => Ok(Config::Value(ValueConfig { value, k: Rc::clone(next) })),
            _ => Ok(Config::Expr(ExprConfig { expr: Rc::clone(arg), env: env.clone(), k: Rc::clone(next) })),
        },
        Continuation::Or { env, arg, k: next } => match &*value {
            Value::False => Ok(Config::Expr(ExprConfig { expr: Rc::clone(arg), env: env.clone(), k: Rc::clone(next) })),
            _ => Ok(Config::Value(ValueConfig { value, k: Rc::clone(next) })),
        },
    }
}

/// Begins evaluating `expr` under `env`, with `k` waiting for its value.
pub fn expr_step(expr: Rc<Expr>, env: Env, k: Rc<Continuation>) -> (r: Result<Config, EvalError>)
    ensures
        r == expr_step_spec(*expr, env, *k),
{
    match &*expr {
        Expr::Int(n) => Ok(deliver(Value::Int(*n), k)),
        Expr::String(s) => Ok(deliver(Value::String(s.clone()), k)),
        Expr::True => Ok(deliver(Value::True, k)),
        Expr::False => Ok(deliver(Value::False, k)),
        Expr::Id(id) => match env.lookup(id) {
            Some(v) => Ok(Config::Value(ValueConfig { value: v, k })),
            None => Err(EvalError::UnboundIdentifier(id.clone())),
        },
        Expr::Lambda { arg, body } => Ok(deliver(Value::Closure(env, arg.clone(), Rc::clone(body)), k)),
        Expr::App { rator, rand } => {
            let frame = Continuation::Rator { env: env.clone(), rand: Rc::clone(rand), k };
            Ok(Config::Expr(ExprConfig { expr: Rc::clone(rator), env, k: Rc::new(frame) }))
        },
        Expr::Let { lhs, rhs, body } => {
            let frame = Continuation::Let { env: env.clone(), id: lhs.clone(), body: Rc::clone(body), k };
            Ok(Config::Expr(ExprConfig { expr: Rc::clone(rhs), env, k: Rc::new(frame) }))
        },
        Expr::Letrec { lhs, arg, rhs, body } => Ok(
            Config::Expr(
                ExprConfig { expr: Rc::clone(body), env: Env::extend_rec(lhs.clone(), arg.clone(), Rc::clone(rhs), &env), k },
            ),
        ),
        Expr::And(left, right) => {
            let frame = Continuation::And { env: env.clone(), arg: Rc::clone(right), k };
            Ok(Config::Expr(ExprConfig { expr: Rc::clone(left), env, k: Rc::new(frame) }))
        },
        Expr::Or(left, right) => {
            let frame = Continuation::Or { env: env.clone(), arg: Rc::clone(right), k };
            Ok(Config::Expr(ExprConfig { expr: Rc::clone(left), env, k: Rc::new(frame) }))
        },
    }
}

/// One transition of the machine.
pub fn step(c: Config) -> (r: Result<Config, EvalError>)
    ensures
        r == step_spec(c),
{
    match c {
        Config::Expr(ec) => expr_step(ec.expr, ec.env, ec.k),
        Config::Value(vc) => value_step(vc.value, vc.k),
    }
}

/// A terminal state steps to itself, however many times.
pub proof fn lemma_terminal_stays(c: Config, n: nat)
    requires
        is_terminal(c),
    ensures
        run_spec(c, n) == Ok::<Config, EvalError>(c),
    decreases n,
{
    if n > 0 {
        lemma_terminal_stays(c, (n - 1) as nat);
    }
}

/// Whether `c` is a value with nothing left pending.
pub fn is_done(c: &Config) -> (r: bool)
    ensures
        r == is_terminal(*c),
{
    match c {
        Config::Value(vc) => matches!(&*vc.k, Continuation::Halt),
        Config::Expr(_) => false,
    }
}

/// Runs the machine from `c` for at most `fuel` transitions, stopping early at a
/// terminal state or at the first failure.
pub fn run(c: Config, fuel: u64) -> (r: Result<Config, EvalError>)
    ensures
        r == run_spec(c, fuel as nat),
{
    let ghost c0 = c;
    let mut cur = c;
    let mut i: u64 = 0;
    while i < fuel
        invariant
            i <= fuel,
            c0 == c,
            run_spec(c0, fuel as nat) == run_spec(cur, (fuel - i) as nat),
        decreases fuel - i,
    {
        if is_done(&cur) {
            proof {
                lemma_terminal_stays(cur, (fuel - i) as nat);
            }
            return Ok(cur);
        }
        match step(cur) {
            Ok(next) => {
                cur = next;
            },
            Err(e) => {
                return Err(e);
            },
        }
        i = i + 1;
    }
    Ok(cur)
}

/// Evaluates `expr` under `env` with at most `fuel` transitions: `Ok(Some(v))` when it
/// finishes with `v`, `Ok(None)` when the transitions ran out first.
pub fn evaluate(expr: Rc<Expr>, env: Env, fuel: u64) -> (r: Result<Option<Rc<Value>>, EvalError>)
    ensures
        match r {
            Ok(Some(v)) => run_spec(start(*expr, env), fuel as nat) == Ok::<Config, EvalError>(done(*v)),
            Ok(None) => run_spec(start(*expr, env), fuel as nat) matches Ok(c) && !is_terminal(c),
            Err(e) => run_spec(start(*expr, env), fuel as nat) == Err::<Config, EvalError>(e),
        },
{
    let c = Config::Expr(ExprConfig { expr, env, k: Rc::new(Continuation::Halt) });
    match run(c, fuel) {
        Ok(Config::Value(vc)) => {
            if matches!(&*vc.k, Continuation::Halt) {
                Ok(Some(vc.value))
            } else {
                Ok(None)
            }
        },
        Ok(Config::Expr(_)) => Ok(None),
        Err(e) => Err(e),
    }
}

} // verus!
