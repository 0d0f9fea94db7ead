//! The evaluator: runtime values, environments, and the interpretation of
//! syntax trees.

pub mod value;
pub mod print;
pub mod semantics;
pub mod builtins;
pub mod eval;
pub mod laws;

pub use builtins::{
    builtin_assoc, builtin_car, builtin_cdr, builtin_cons, builtin_equal, builtin_group_by,
    builtin_null, create_global_env, value_to_string,
};
pub use eval::{apply_bounded, apply_function, eval, eval_bounded, MAX_DEPTH};
pub use value::{
    values_equal, EnvView, Environment, EvalError, EvalErrorView, PrimitiveFn, Value, ValueView,
};
