//! A tree-walking evaluator for a small expression language with numbers,
//! strings, booleans, conditionals, lexically scoped lambdas and a fixed set
//! of primitive operators.
//!
//! Expressions are evaluated against an environment, a scope chain of
//! name/value bindings looked up newest-first.  Every evaluation step is
//! specified against a ghost model of the syntax trees, values and
//! environments, and the evaluator is proved to agree with that model.

pub mod ast;
pub mod env;
pub mod error;
pub mod eval;
pub mod prim;
pub mod ser;
pub mod text;
pub mod value;

pub use ast::{AppC, ExprC, IdC, IfC, LamC, NumC, StringC};
pub use env::{create_env, get_binding_val, is_reserved, top_env};
pub use eval::interp;
pub use error::{EvalError, Kind};
pub use prim::interp_prim;
pub use ser::serialize;
pub use value::{Binding, CloV, Env, PrimV, Value};
