//! An explicit-continuation abstract machine for a small applicative language:
//! expressions, values, persistent environments with self-referential bindings,
//! and a small-step transition function driven by an iterative loop.
pub mod laws;
pub mod machine;
pub mod types;

pub use machine::{evaluate, Config, EvalError, ExprConfig, ValueConfig};
pub use types::{extend, extend_rec, lookup, Binding, Continuation, Env, Expr, Id, PEnv, Primitive, Value};
