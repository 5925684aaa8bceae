//! The evaluator: a recursive walk of the syntax tree against an
//! environment.
//!
//! The ghost function [`eval`] defines evaluation over the models.  It
//! carries a fuel: the number of closure-body entries the evaluation may
//! still make.  Fuel is spent only when a closure is applied, so any
//! evaluation that applies no closure needs none, and `None` means the
//! budget ran out before a result was reached.  The executable [`interp`]
//! is proved to return exactly what [`eval`] says, for every expression,
//! environment and budget.
//!
//! Evaluation is strict and left-to-right: the callee first, then every
//! argument, then the dispatch; a conditional evaluates its test and then
//! exactly one branch.

use vstd::prelude::*;

use crate::ast::{expr_clone, expr_view, exprs_view, lemma_exprs_view_index, strings_clone,
    ExprC, ExprSpec};
use crate::env::{create_env, extend_env, get_binding_val, is_reserved, is_reserved_spec,
    lookup_res};
use crate::error::{error_view, kind_of, value_kind, ErrorSpec, EvalError, Kind};
use crate::prim::{apply_prim, interp_prim};
use crate::value::{env_clone, env_view, value_view, values_view, BindingSpec, CloV, Env, Value,
    ValueSpec};

verus! {

/// What one evaluation comes to: a value, a fault, or `None` when the fuel
/// ran out.
pub open spec fn eval(e: ExprSpec, env: Seq<BindingSpec>, fuel: nat) -> Option<
    Result<ValueSpec, ErrorSpec>,
>
    decreases fuel, e, 0int,
{
    match e {
        ExprSpec::Num(n) => Some(Ok(ValueSpec::Real(n))),
        ExprSpec::Str(s) => Some(Ok(ValueSpec::Str(s))),
        ExprSpec::Id(name) => Some(
            if is_reserved_spec(name) {
                Err(ErrorSpec::ReservedWordUsed(name))
            } else {
                lookup_res(env, name)
            },
        ),
        ExprSpec::If(t, a, b) => match eval(*t, env, fuel) {
            None => None,
            Some(Err(er)) => Some(Err(er)),
            Some(Ok(tv)) => match tv {
                ValueSpec::Boolean(c) => if c {
                    eval(*a, env, fuel)
                } else {
                    eval(*b, env, fuel)
                },
                _ => Some(Err(ErrorSpec::TypeMismatch(Kind::Boolean, kind_of(tv)))),
            },
        },
        ExprSpec::Lam(params, body) => Some(Ok(ValueSpec::Clo(params, *body, env))),
        ExprSpec::App(f, args) => match eval(*f, env, fuel) {
            None => None,
            Some(Err(er)) => Some(Err(er)),
            Some(Ok(fv)) => match eval_args(args, 0, env, fuel) {
                None => None,
                Some(Err(er)) => Some(Err(er)),
                Some(Ok(vals)) => match fv {
                    ValueSpec::Clo(params, body, cenv) => if params.len() != vals.len() {
                        Some(
                            Err(
                                ErrorSpec::ArityMismatch(
                                    params.len() as int,
                                    vals.len() as int,
                                ),
                            ),
                        )
                    } else if fuel == 0 {
                        None
                    } else {
                        eval(body, extend_env(cenv, params, vals), (fuel - 1) as nat)
                    },
                    ValueSpec::Prim(opname) => Some(apply_prim(opname, vals)),
                    _ => Some(Err(ErrorSpec::NotCallable(fv))),
                },
            },
        },
    }
}

/// The values of the arguments from position `i` on, evaluated left to
/// right; the first fault, or the first exhausted budget, ends the list.
pub open spec fn eval_args(
    args: Seq<ExprSpec>,
    i: int,
    env: Seq<BindingSpec>,
    fuel: nat,
) -> Option<Result<Seq<ValueSpec>, ErrorSpec>>
    decreases fuel, args, args.len() - i,
{
    if i < 0 || i >= args.len() {
        Some(Ok(Seq::empty()))
    } else {
        match eval(args[i], env, fuel) {
            None => None,
            Some(Err(er)) => Some(Err(er)),
            Some(Ok(v)) => match eval_args(args, i + 1, env, fuel) {
                None => None,
                Some(Err(er)) => Some(Err(er)),
                Some(Ok(rest)) => Some(Ok(seq![v] + rest)),
            },
        }
    }
}

/// The model of an interpreter outcome.
pub open spec fn outcome_view(r: Option<Result<Value, EvalError>>) -> Option<
    Result<ValueSpec, ErrorSpec>,
> {
    match r {
        None => None,
        Some(Ok(v)) => Some(Ok(value_view(v))),
        Some(Err(e)) => Some(Err(error_view(e))),
    }
}

/// The model of an argument-evaluation outcome.
pub open spec fn args_outcome_view(r: Option<Result<Vec<Value>, EvalError>>) -> Option<
    Result<Seq<ValueSpec>, ErrorSpec>,
> {
    match r {
        None => None,
        Some(Ok(vs)) => Some(Ok(values_view(vs@))),
        Some(Err(e)) => Some(Err(error_view(e))),
    }
}

/// The evaluator.  Walks the tree exactly as [`eval`] prescribes; `fuel`
/// bounds how many closure bodies may still be entered, and `None` reports
/// an exhausted budget.
pub fn interp(e: &ExprC, env: &Env, fuel: u64) -> (r: Option<Result<Value, EvalError>>)
    ensures
        outcome_view(r) == eval(expr_view(*e), env_view(env@), fuel as nat),
    decreases fuel, e, 0int,
{
    match e {
        ExprC::NumC(nc) => Some(Ok(Value::Real(nc.n))),
        ExprC::StringC(sc) => Some(Ok(Value::String(sc.s.clone()))),
        ExprC::IdC(ic) => {
            if is_reserved(ic.name.as_str()) {
                Some(Err(EvalError::ReservedWordUsed(ic.name.clone())))
            } else {
                Some(get_binding_val(ic.name.as_str(), env))
            }
        },
        ExprC::IfC(fc) => {
            match interp(&fc.v, env, fuel) {
                None => None,
                Some(Err(er)) => Some(Err(er)),
                Some(Ok(Value::Boolean(c))) => {
                    if c {
                        interp(&fc.iftrue, env, fuel)
                    } else {
                        interp(&fc.iffalse, env, fuel)
                    }
                },
                Some(Ok(tv)) => Some(
                    Err(EvalError::TypeMismatch(Kind::Boolean, value_kind(&tv))),
                ),
            }
        },
        ExprC::LamC(lc) => Some(
            Ok(
                Value::CloV(
                    CloV {
                        params: strings_clone(&lc.args),
                        body: Box::new(expr_clone(&lc.body)),
                        env: env_clone(env),
                    },
                ),
            ),
        ),
        ExprC::AppC(ac) => {
            match interp(&ac.expr, env, fuel) {
                None => None,
                Some(Err(er)) => Some(Err(er)),
                Some(Ok(fv)) => {
                    match interp_args(&ac.args, 0, env, fuel) {
                        None => None,
                        Some(Err(er)) => Some(Err(er)),
                        Some(Ok(vals)) => {
                            match fv {
                                Value::CloV(clo) => {
                                    match create_env(
                                        clo.params.as_slice(),
                                        vals.as_slice(),
                                        &clo.env,
                                    ) {
                                        Err(er) => Some(Err(er)),
                                        Ok(new_env) => {
                                            if fuel == 0 {
                                                None
                                            } else {
                                                interp(&clo.body, &new_env, fuel - 1)
                                            }
                                        },
                                    }
                                },
                                Value::PrimV(p) => Some(interp_prim(&p, vals)),
                                other => Some(Err(EvalError::NotCallable(Box::new(other)))),
                            }
                        },
                    }
                },
            }
        },
    }
}

/// Law: evaluation is a pure function.  The same expression, against equal
/// environments and with equal budgets, comes to the same outcome: there is
/// no hidden state.
pub proof fn lemma_eval_deterministic(
    e: ExprSpec,
    env1: Seq<BindingSpec>,
    env2: Seq<BindingSpec>,
    fuel: nat,
)
    requires
        env1 == env2,
    ensures
        eval(e, env1, fuel) == eval(e, env2, fuel),
{
}

/// Law: applying a closure to the wrong number of arguments always fails
/// with `ArityMismatch`, whatever the kinds or values of the arguments.
pub proof fn lemma_closure_arity(
    f: ExprSpec,
    args: Seq<ExprSpec>,
    env: Seq<BindingSpec>,
    fuel: nat,
    params: Seq<Seq<char>>,
    body: ExprSpec,
    cenv: Seq<BindingSpec>,
    vals: Seq<ValueSpec>,
)
    requires
        eval(f, env, fuel) == Some(Ok::<ValueSpec, ErrorSpec>(ValueSpec::Clo(params, body, cenv))),
        eval_args(args, 0, env, fuel) == Some(Ok::<Seq<ValueSpec>, ErrorSpec>(vals)),
        params.len() != vals.len(),
    ensures
        eval(ExprSpec::App(Box::new(f), args), env, fuel) == Some(
            Err::<ValueSpec, ErrorSpec>(
                ErrorSpec::ArityMismatch(params.len() as int, vals.len() as int),
            ),
        ),
{
}

/// Law: a conditional evaluates exactly one branch.  When the test comes to
/// a boolean, the outcome is that of the taken branch alone, so a fault in
/// the untaken branch never propagates.
pub proof fn lemma_conditional_single_branch(
    t: ExprSpec,
    a: ExprSpec,
    b: ExprSpec,
    env: Seq<BindingSpec>,
    fuel: nat,
)
    ensures
        eval(t, env, fuel) == Some(Ok::<ValueSpec, ErrorSpec>(ValueSpec::Boolean(true))) ==> eval(
            ExprSpec::If(Box::new(t), Box::new(a), Box::new(b)),
            env,
            fuel,
        ) == eval(a, env, fuel),
        eval(t, env, fuel) == Some(Ok::<ValueSpec, ErrorSpec>(ValueSpec::Boolean(false))) ==> eval(
            ExprSpec::If(Box::new(t), Box::new(a), Box::new(b)),
            env,
            fuel,
        ) == eval(b, env, fuel),
{
}

/// Law: fuel only decides how deep closure application may go.  An outcome
/// reached within some budget is the outcome under every larger budget.
pub proof fn lemma_eval_fuel_monotonic(e: ExprSpec, env: Seq<BindingSpec>, f1: nat, f2: nat)
    requires
        f1 <= f2,
        eval(e, env, f1) is Some,
    ensures
        eval(e, env, f2) == eval(e, env, f1),
    decreases f1, e, 0int,
{
    match e {
        ExprSpec::Num(_) => {},
        ExprSpec::Str(_) => {},
        ExprSpec::Id(_) => {},
        ExprSpec::If(t, a, b) => {
            lemma_eval_fuel_monotonic(*t, env, f1, f2);
            match eval(*t, env, f1) {
                Some(Ok(ValueSpec::Boolean(c))) => {
                    if c {
                        lemma_eval_fuel_monotonic(*a, env, f1, f2);
                    } else {
                        lemma_eval_fuel_monotonic(*b, env, f1, f2);
                    }
                },
                _ => {},
            }
        },
        ExprSpec::Lam(_, _) => {},
        ExprSpec::App(f, args) => {
            lemma_eval_fuel_monotonic(*f, env, f1, f2);
            match eval(*f, env, f1) {
                Some(Ok(fv)) => {
                    lemma_eval_args_fuel_monotonic(args, 0, env, f1, f2);
                    match eval_args(args, 0, env, f1) {
                        Some(Ok(vals)) => match fv {
                            ValueSpec::Clo(params, body, cenv) => {
                                if params.len() == vals.len() && f1 != 0 {
                                    lemma_eval_fuel_monotonic(
                                        body,
                                        extend_env(cenv, params, vals),
                                        (f1 - 1) as nat,
                                        (f2 - 1) as nat,
                                    );
                                }
                            },
                            _ => {},
                        },
                        _ => {},
                    }
                },
                _ => {},
            }
        },
    }
}

/// Fuel monotonicity for argument lists, companion to
/// [`lemma_eval_fuel_monotonic`].
pub proof fn lemma_eval_args_fuel_monotonic(
    args: Seq<ExprSpec>,
    i: int,
    env: Seq<BindingSpec>,
    f1: nat,
    f2: nat,
)
    requires
        f1 <= f2,
        eval_args(args, i, env, f1) is Some,
    ensures
        eval_args(args, i, env, f2) == eval_args(args, i, env, f1),
    decreases f1, args, args.len() - i,
{
    if 0 <= i < args.len() {
        lemma_eval_fuel_monotonic(args[i], env, f1, f2);
        match eval(args[i], env, f1) {
            Some(Ok(_)) => {
                lemma_eval_args_fuel_monotonic(args, i + 1, env, f1, f2);
            },
            _ => {},
        }
    }
}

/// Evaluates the arguments from position `i` on, left to right, exactly as
/// [`eval_args`] prescribes.
fn interp_args(args: &Vec<Box<ExprC>>, i: usize, env: &Env, fuel: u64) -> (r: Option<
    Result<Vec<Value>, EvalError>,
>)
    ensures
        args_outcome_view(r) == eval_args(
            exprs_view(args@),
            i as int,
            env_view(env@),
            fuel as nat,
        ),
    decreases fuel, args, args@.len() - i,
{
    proof {
        lemma_exprs_view_index(args@);
    }
    if i >= args.len() {
        let out: Vec<Value> = Vec::new();
        proof {
            assert(values_view(out@) =~= Seq::<ValueSpec>::empty());
        }
        Some(Ok(out))
    } else {
        match interp(&args[i], env, fuel) {
            None => None,
            Some(Err(er)) => Some(Err(er)),
            Some(Ok(v)) => match interp_args(args, i + 1, env, fuel) {
                None => None,
                Some(Err(er)) => Some(Err(er)),
                Some(Ok(rest)) => {
                    let ghost old_rest = rest@;
                    let mut rest = rest;
                    rest.insert(0, v);
                    proof {
                        assert(values_view(rest@) =~= seq![value_view(v)] + values_view(
                            old_rest,
                        ));
                    }
                    Some(Ok(rest))
                },
            },
        }
    }
}

} // verus!
