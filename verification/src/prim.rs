//! The primitive dispatcher: the fixed table of built-in operators.
//!
//! Every operator validates its own arity, then its argument kinds, then
//! computes: arity faults come before type faults, and each operator's exact
//! behaviour is given by [`apply_prim`], the ghost table that
//! [`interp_prim`] is proved to implement.
//!
//! Arithmetic is exact while the result fits a 64-bit integer and wraps
//! around beyond that, as stated through the wrapping model of `vstd`;
//! division truncates toward zero and rejects a zero divisor.

use vstd::arithmetic::div_mod::{lemma_div_is_ordered_by_denominator, lemma_div_nonincreasing};
use vstd::math::abs;
use vstd::prelude::*;
use vstd::wrapping::i64_specs;

use crate::error::{kind_of, value_kind, ErrorSpec, EvalError, Kind};
use crate::text::str_eq;
use crate::value::{value_eq, values_view, PrimV, Value, ValueSpec};

verus! {

/// Division truncated toward zero.
pub open spec fn div_trunc(a: int, b: int) -> int
    recommends
        b != 0,
{
    if (a < 0) == (b < 0) {
        abs(a) as int / abs(b) as int
    } else {
        -(abs(a) as int / abs(b) as int)
    }
}

/// Truncated 64-bit division; the one quotient out of range wraps to itself.
pub open spec fn div_wrap(a: i64, b: i64) -> i64
    recommends
        b != 0,
{
    if a == i64::MIN && b == -1 {
        i64::MIN
    } else {
        div_trunc(a as int, b as int) as i64
    }
}

/// The length of a text as a 64-bit real.
pub open spec fn str_len_real(s: Seq<char>) -> i64 {
    i64_specs::signed_crop(s.len() as int)
}

/// The fault for two-real operators given at least one other kind: the
/// first operand of the wrong kind is reported.
pub open spec fn two_reals_err(a: ValueSpec, b: ValueSpec) -> ErrorSpec {
    if !(a is Real) {
        ErrorSpec::TypeMismatch(Kind::Real, kind_of(a))
    } else {
        ErrorSpec::TypeMismatch(Kind::Real, kind_of(b))
    }
}

/// The fault for `substring` operands of the wrong kind: the first operand
/// of the wrong kind is reported.
pub open spec fn substring_err(a: ValueSpec, b: ValueSpec, c: ValueSpec) -> ErrorSpec {
    if !(a is Str) {
        ErrorSpec::TypeMismatch(Kind::String, kind_of(a))
    } else if !(b is Real) {
        ErrorSpec::TypeMismatch(Kind::Real, kind_of(b))
    } else {
        ErrorSpec::TypeMismatch(Kind::Real, kind_of(c))
    }
}

/// The primitive table: what each operator returns, or with which fault it
/// rejects, for every operator name and argument list.
pub open spec fn apply_prim(op: Seq<char>, args: Seq<ValueSpec>) -> Result<
    ValueSpec,
    ErrorSpec,
> {
    if op == "+"@ || op == "-"@ || op == "*"@ || op == "/"@ || op == "<="@ {
        if args.len() != 2 {
            Err(ErrorSpec::ArityMismatch(2, args.len() as int))
        } else {
            match (args[0], args[1]) {
                (ValueSpec::Real(x), ValueSpec::Real(y)) => {
                    if op == "+"@ {
                        Ok(ValueSpec::Real(i64_specs::wrapping_add(x, y)))
                    } else if op == "-"@ {
                        Ok(ValueSpec::Real(i64_specs::wrapping_sub(x, y)))
                    } else if op == "*"@ {
                        Ok(ValueSpec::Real(i64_specs::wrapping_mul(x, y)))
                    } else if op == "/"@ {
                        if y == 0 {
                            Err(ErrorSpec::DivideByZero)
                        } else {
                            Ok(ValueSpec::Real(div_wrap(x, y)))
                        }
                    } else {
                        Ok(ValueSpec::Boolean(x <= y))
                    }
                },
                _ => Err(two_reals_err(args[0], args[1])),
            }
        }
    } else if op == "equal?"@ {
        if args.len() != 2 {
            Err(ErrorSpec::ArityMismatch(2, args.len() as int))
        } else {
            Ok(ValueSpec::Boolean(args[0] == args[1]))
        }
    } else if op == "substring"@ {
        if args.len() != 3 {
            Err(ErrorSpec::ArityMismatch(3, args.len() as int))
        } else {
            match (args[0], args[1], args[2]) {
                (ValueSpec::Str(s), ValueSpec::Real(st), ValueSpec::Real(sp)) => {
                    if 0 <= st && st <= sp && sp <= s.len() {
                        Ok(ValueSpec::Str(s.subrange(st as int, sp as int)))
                    } else {
                        Err(ErrorSpec::IndexOutOfRange)
                    }
                },
                _ => Err(substring_err(args[0], args[1], args[2])),
            }
        }
    } else if op == "strlen"@ {
        if args.len() != 1 {
            Err(ErrorSpec::ArityMismatch(1, args.len() as int))
        } else {
            match args[0] {
                ValueSpec::Str(s) => Ok(ValueSpec::Real(str_len_real(s))),
                v => Err(ErrorSpec::TypeMismatch(Kind::String, kind_of(v))),
            }
        }
    } else if op == "error"@ {
        if args.len() != 1 {
            Err(ErrorSpec::ArityMismatch(1, args.len() as int))
        } else {
            match args[0] {
                ValueSpec::Str(m) => Err(ErrorSpec::UserError(m)),
                v => Err(ErrorSpec::TypeMismatch(Kind::String, kind_of(v))),
            }
        }
    } else {
        Err(ErrorSpec::InvalidPrimitive(op))
    }
}

/// Division of two 64-bit integers, truncated toward zero, computed through
/// the unsigned magnitudes.
fn div_i64(a: i64, b: i64) -> (q: i64)
    requires
        b != 0,
    ensures
        q == div_wrap(a, b),
{
    if a == i64::MIN && b == -1 {
        return i64::MIN;
    }
    let neg: bool = (a < 0) != (b < 0);
    let ma: u64 = if a < 0 {
        (-(a as i128)) as u64
    } else {
        a as u64
    };
    let mb: u64 = if b < 0 {
        (-(b as i128)) as u64
    } else {
        b as u64
    };
    proof {
        assert(ma == abs(a as int));
        assert(mb == abs(b as int));
        assert(mb >= 1);
    }
    let mq: u64 = ma / mb;
    proof {
        lemma_div_nonincreasing(ma as int, mb as int);
        if mb >= 2 {
            lemma_div_is_ordered_by_denominator(ma as int, 2, mb as int);
        }
    }
    if neg {
        if mq == 9223372036854775808u64 {
            i64::MIN
        } else {
            -(mq as i64)
        }
    } else {
        mq as i64
    }
}

/// The primitive dispatcher: applies the operator named by `prim` to the
/// already-evaluated arguments, exactly as the table [`apply_prim`] says.
pub fn interp_prim(prim: &PrimV, args: Vec<Value>) -> (r: Result<Value, EvalError>)
    ensures
        crate::error::result_view(r) == apply_prim(prim.op@, values_view(args@)),
{
    let op = prim.op.as_str();
    if str_eq(op, "+") || str_eq(op, "-") || str_eq(op, "*") || str_eq(op, "/") || str_eq(
        op,
        "<=",
    ) {
        if args.len() != 2 {
            return Err(EvalError::ArityMismatch(2, args.len()));
        }
        match (&args[0], &args[1]) {
            (Value::Real(x), Value::Real(y)) => {
                if str_eq(op, "+") {
                    Ok(Value::Real(x.wrapping_add(*y)))
                } else if str_eq(op, "-") {
                    Ok(Value::Real(x.wrapping_sub(*y)))
                } else if str_eq(op, "*") {
                    Ok(Value::Real(x.wrapping_mul(*y)))
                } else if str_eq(op, "/") {
                    if *y == 0 {
                        Err(EvalError::DivideByZero)
                    } else {
                        Ok(Value::Real(div_i64(*x, *y)))
                    }
                } else {
                    Ok(Value::Boolean(*x <= *y))
                }
            },
            _ => {
                let got = if !(matches!(args[0], Value::Real(_))) {
                    value_kind(&args[0])
                } else {
                    value_kind(&args[1])
                };
                Err(EvalError::TypeMismatch(Kind::Real, got))
            },
        }
    } else if str_eq(op, "equal?") {
        if args.len() != 2 {
            return Err(EvalError::ArityMismatch(2, args.len()));
        }
        Ok(Value::Boolean(value_eq(&args[0], &args[1])))
    } else if str_eq(op, "substring") {
        if args.len() != 3 {
            return Err(EvalError::ArityMismatch(3, args.len()));
        }
        match (&args[0], &args[1], &args[2]) {
            (Value::String(s), Value::Real(st), Value::Real(sp)) => {
                let l: usize = s.as_str().unicode_len();
                if *st >= 0 && *st <= *sp && (*sp as u64) <= (l as u64) {
                    let sti = *st as usize;
                    let spi = *sp as usize;
                    Ok(Value::String(s.as_str().substring_char(sti, spi).to_owned()))
                } else {
                    Err(EvalError::IndexOutOfRange)
                }
            },
            _ => {
                let e = if !(matches!(args[0], Value::String(_))) {
                    EvalError::TypeMismatch(Kind::String, value_kind(&args[0]))
                } else if !(matches!(args[1], Value::Real(_))) {
                    EvalError::TypeMismatch(Kind::Real, value_kind(&args[1]))
                } else {
                    EvalError::TypeMismatch(Kind::Real, value_kind(&args[2]))
                };
                Err(e)
            },
        }
    } else if str_eq(op, "strlen") {
        if args.len() != 1 {
            return Err(EvalError::ArityMismatch(1, args.len()));
        }
        match &args[0] {
            Value::String(s) => {
                let l: usize = s.as_str().unicode_len();
                let r: i64 = if (l as u64) <= (i64::MAX as u64) {
                    l as i64
                } else {
                    let d: u64 = u64::MAX - (l as u64);
                    -(d as i64) - 1
                };
                proof {
                    vstd::arithmetic::div_mod::lemma_small_mod(
                        l as nat,
                        0x1_0000_0000_0000_0000nat,
                    );
                }
                Ok(Value::Real(r))
            },
            v => Err(EvalError::TypeMismatch(Kind::String, value_kind(v))),
        }
    } else if str_eq(op, "error") {
        if args.len() != 1 {
            return Err(EvalError::ArityMismatch(1, args.len()));
        }
        match &args[0] {
            Value::String(m) => Err(EvalError::UserError(m.clone())),
            v => Err(EvalError::TypeMismatch(Kind::String, value_kind(v))),
        }
    } else {
        Err(EvalError::InvalidPrimitive(prim.op.clone()))
    }
}

} // verus!
