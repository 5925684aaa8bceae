//! Evaluation faults, and their ghost model.
//!
//! Evaluation is fail-fast: the first fault met during the outermost-first,
//! left-to-right walk of an expression ends the whole evaluation, and exactly
//! one of these errors reports it.

use vstd::prelude::*;

use crate::value::{value_view, Value, ValueSpec};

verus! {

/// The shape of a value, named in type errors.
#[derive(Debug, Clone, Copy, PartialEq, Eq, Structural)]
pub enum Kind {
    Real,
    Boolean,
    String,
    Closure,
    Primitive,
}

/// The kind of a modeled value.
pub open spec fn kind_of(v: ValueSpec) -> Kind {
    match v {
        ValueSpec::Real(_) => Kind::Real,
        ValueSpec::Boolean(_) => Kind::Boolean,
        ValueSpec::Str(_) => Kind::String,
        ValueSpec::Clo(_, _, _) => Kind::Closure,
        ValueSpec::Prim(_) => Kind::Primitive,
    }
}

/// The kind of a runtime value.
pub fn value_kind(v: &Value) -> (k: Kind)
    ensures
        k == kind_of(value_view(*v)),
{
    match v {
        Value::Real(_) => Kind::Real,
        Value::Boolean(_) => Kind::Boolean,
        Value::String(_) => Kind::String,
        Value::CloV(_) => Kind::Closure,
        Value::PrimV(_) => Kind::Primitive,
    }
}

/// One evaluation fault.
#[derive(Debug, PartialEq)]
pub enum EvalError {
    /// An identifier with no binding in the environment.
    UnboundIdentifier(String),
    /// An identifier that is a reserved word.
    ReservedWordUsed(String),
    /// An operand of the wrong kind: the expected kind, then the actual.
    TypeMismatch(Kind, Kind),
    /// A call with the wrong number of arguments: the expected count, then
    /// the actual.
    ArityMismatch(usize, usize),
    /// A division whose divisor is zero.
    DivideByZero,
    /// Substring bounds outside `0 <= start <= stop <= length`.
    IndexOutOfRange,
    /// An application whose callee is neither a closure nor a primitive.
    NotCallable(Box<Value>),
    /// A fault raised by the program itself through the `error` primitive.
    UserError(String),
    /// An operator name outside the fixed primitive table.
    InvalidPrimitive(String),
}

/// Ghost model of an evaluation fault.
#[verifier::ext_equal]
pub enum ErrorSpec {
    UnboundIdentifier(Seq<char>),
    ReservedWordUsed(Seq<char>),
    TypeMismatch(Kind, Kind),
    ArityMismatch(int, int),
    DivideByZero,
    IndexOutOfRange,
    NotCallable(ValueSpec),
    UserError(Seq<char>),
    InvalidPrimitive(Seq<char>),
}

/// The model of an evaluation fault.
pub open spec fn error_view(e: EvalError) -> ErrorSpec {
    match e {
        EvalError::UnboundIdentifier(n) => ErrorSpec::UnboundIdentifier(n@),
        EvalError::ReservedWordUsed(n) => ErrorSpec::ReservedWordUsed(n@),
        EvalError::TypeMismatch(expected, got) => ErrorSpec::TypeMismatch(expected, got),
        EvalError::ArityMismatch(expected, got) => ErrorSpec::ArityMismatch(
            expected as int,
            got as int,
        ),
        EvalError::DivideByZero => ErrorSpec::DivideByZero,
        EvalError::IndexOutOfRange => ErrorSpec::IndexOutOfRange,
        EvalError::NotCallable(v) => ErrorSpec::NotCallable(value_view(*v)),
        EvalError::UserError(m) => ErrorSpec::UserError(m@),
        EvalError::InvalidPrimitive(op) => ErrorSpec::InvalidPrimitive(op@),
    }
}

impl View for EvalError {
    type V = ErrorSpec;

    open spec fn view(&self) -> ErrorSpec {
        error_view(*self)
    }
}

impl DeepView for EvalError {
    type V = ErrorSpec;

    open spec fn deep_view(&self) -> ErrorSpec {
        error_view(*self)
    }
}

/// The model of an evaluation result.
pub open spec fn result_view(r: Result<Value, EvalError>) -> Result<ValueSpec, ErrorSpec> {
    match r {
        Ok(v) => Ok(value_view(v)),
        Err(e) => Err(error_view(e)),
    }
}

} // verus!
