use expreval::{
    create_env, get_binding_val, interp, interp_prim, serialize, top_env, AppC, EvalError, ExprC,
    IdC, IfC, Kind, LamC, NumC, PrimV, StringC, Value,
};

const FUEL: u64 = 100;

fn id(name: &str) -> ExprC {
    ExprC::IdC(IdC { name: name.into() })
}

fn num(n: i64) -> ExprC {
    ExprC::NumC(NumC { n })
}

fn app(f: ExprC, args: Vec<ExprC>) -> ExprC {
    ExprC::AppC(AppC {
        expr: Box::new(f),
        args: args.into_iter().map(Box::new).collect(),
    })
}

#[test]
fn identifier_resolves_to_primitive() {
    let env = top_env();
    let v = interp(&id("+"), &env, FUEL).unwrap().unwrap();
    assert_eq!(v, Value::PrimV(PrimV { op: "+".into() }));
    assert_eq!(serialize(&v), "#<primop>");
}

#[test]
fn evaluation_is_repeatable() {
    let env1 = top_env();
    let env2 = top_env();
    let expr = app(id("*"), vec![num(6), num(7)]);
    let a = interp(&expr, &env1, FUEL).unwrap().unwrap();
    let b = interp(&expr, &env2, FUEL).unwrap().unwrap();
    assert_eq!(a, b);
    assert_eq!(a, Value::Real(42));
}

#[test]
fn closure_arity_mismatch_fails() {
    let env = top_env();
    // ((lambda (x) x) 1 2): one parameter, two arguments
    let expr = app(
        ExprC::LamC(LamC {
            args: vec!["x".into()],
            body: Box::new(id("x")),
        }),
        vec![num(1), num(2)],
    );
    let r = interp(&expr, &env, FUEL).unwrap();
    assert_eq!(r, Err(EvalError::ArityMismatch(1, 2)));

    // the argument kinds play no role
    let expr2 = app(
        ExprC::LamC(LamC {
            args: vec!["x".into()],
            body: Box::new(id("x")),
        }),
        vec![
            ExprC::StringC(StringC { s: "a".into() }),
            ExprC::StringC(StringC { s: "b".into() }),
        ],
    );
    let r2 = interp(&expr2, &env, FUEL).unwrap();
    assert_eq!(r2, Err(EvalError::ArityMismatch(1, 2)));
}

#[test]
fn later_binding_shadows_earlier() {
    let base = top_env();
    let once = create_env(&["x".to_string()], &[Value::Real(1)], &base).unwrap();
    let twice = create_env(&["x".to_string()], &[Value::Real(2)], &once).unwrap();
    assert_eq!(get_binding_val("x", &twice), Ok(Value::Real(2)));
    // the base environments are unchanged
    assert_eq!(get_binding_val("x", &once), Ok(Value::Real(1)));
    assert!(matches!(
        get_binding_val("x", &base),
        Err(EvalError::UnboundIdentifier(_))
    ));
}

#[test]
fn untaken_branch_never_evaluated() {
    let env = top_env();
    // the else branch divides by zero; the test is true, so it is never run
    let failing = app(id("/"), vec![num(1), num(0)]);
    let expr = ExprC::IfC(IfC {
        v: Box::new(id("true")),
        iftrue: Box::new(num(1)),
        iffalse: Box::new(failing),
    });
    assert_eq!(interp(&expr, &env, FUEL).unwrap(), Ok(Value::Real(1)));

    // and symmetrically when the test is false
    let failing2 = app(id("nope"), vec![]);
    let expr2 = ExprC::IfC(IfC {
        v: Box::new(id("false")),
        iftrue: Box::new(failing2),
        iffalse: Box::new(num(2)),
    });
    assert_eq!(interp(&expr2, &env, FUEL).unwrap(), Ok(Value::Real(2)));
}

#[test]
fn divide_by_zero_fails() {
    let r = interp_prim(&PrimV { op: "/".into() }, vec![Value::Real(1), Value::Real(0)]);
    assert_eq!(r, Err(EvalError::DivideByZero));
}

#[test]
fn division_truncates_toward_zero() {
    let div = PrimV { op: "/".into() };
    assert_eq!(interp_prim(&div, vec![Value::Real(-7), Value::Real(2)]), Ok(Value::Real(-3)));
    assert_eq!(interp_prim(&div, vec![Value::Real(7), Value::Real(-2)]), Ok(Value::Real(-3)));
    assert_eq!(interp_prim(&div, vec![Value::Real(-7), Value::Real(-2)]), Ok(Value::Real(3)));
    assert_eq!(
        interp_prim(&div, vec![Value::Real(i64::MIN), Value::Real(-1)]),
        Ok(Value::Real(i64::MIN))
    );
}

#[test]
fn arithmetic_wraps_at_the_edges() {
    let add = PrimV { op: "+".into() };
    assert_eq!(
        interp_prim(&add, vec![Value::Real(i64::MAX), Value::Real(1)]),
        Ok(Value::Real(i64::MIN))
    );
    let sub = PrimV { op: "-".into() };
    assert_eq!(
        interp_prim(&sub, vec![Value::Real(i64::MIN), Value::Real(1)]),
        Ok(Value::Real(i64::MAX))
    );
}

#[test]
fn reserved_word_in_identifier_position_fails() {
    let env = top_env();
    let r = interp(&id("lambda"), &env, FUEL).unwrap();
    assert_eq!(r, Err(EvalError::ReservedWordUsed("lambda".into())));
}

#[test]
fn unbound_identifier_fails() {
    let env = top_env();
    let r = interp(&id("zilch"), &env, FUEL).unwrap();
    assert_eq!(r, Err(EvalError::UnboundIdentifier("zilch".into())));
}

#[test]
fn non_callable_value_fails() {
    let env = top_env();
    let r = interp(&app(num(3), vec![num(1)]), &env, FUEL).unwrap();
    assert_eq!(r, Err(EvalError::NotCallable(Box::new(Value::Real(3)))));
}

#[test]
fn non_boolean_test_fails() {
    let env = top_env();
    let expr = ExprC::IfC(IfC {
        v: Box::new(num(1)),
        iftrue: Box::new(num(2)),
        iffalse: Box::new(num(3)),
    });
    let r = interp(&expr, &env, FUEL).unwrap();
    assert_eq!(r, Err(EvalError::TypeMismatch(Kind::Boolean, Kind::Real)));
}

#[test]
fn unknown_operator_fails() {
    let r = interp_prim(&PrimV { op: "zap".into() }, vec![]);
    assert_eq!(r, Err(EvalError::InvalidPrimitive("zap".into())));
}

#[test]
fn user_error_carries_its_message() {
    let r = interp_prim(&PrimV { op: "error".into() }, vec![Value::String("boom".into())]);
    assert_eq!(r, Err(EvalError::UserError("boom".into())));
}

#[test]
fn substring_bounds_are_checked() {
    let sub = PrimV { op: "substring".into() };
    // an empty slice at a valid position
    assert_eq!(
        interp_prim(&sub, vec![Value::String("hello".into()), Value::Real(2), Value::Real(2)]),
        Ok(Value::String("".into()))
    );
    // the whole text
    assert_eq!(
        interp_prim(&sub, vec![Value::String("hello".into()), Value::Real(0), Value::Real(5)]),
        Ok(Value::String("hello".into()))
    );
    // stop beyond the end
    assert_eq!(
        interp_prim(&sub, vec![Value::String("hello".into()), Value::Real(1), Value::Real(6)]),
        Err(EvalError::IndexOutOfRange)
    );
    // negative start
    assert_eq!(
        interp_prim(&sub, vec![Value::String("hello".into()), Value::Real(-1), Value::Real(3)]),
        Err(EvalError::IndexOutOfRange)
    );
    // start beyond stop
    assert_eq!(
        interp_prim(&sub, vec![Value::String("hello".into()), Value::Real(4), Value::Real(1)]),
        Err(EvalError::IndexOutOfRange)
    );
}

#[test]
fn structurally_equal_closures_compare_equal() {
    let env = top_env();
    let lam = || {
        ExprC::LamC(LamC {
            args: vec!["x".into()],
            body: Box::new(id("x")),
        })
    };
    let c1 = interp(&lam(), &env, FUEL).unwrap().unwrap();
    let c2 = interp(&lam(), &env, FUEL).unwrap().unwrap();
    let r = interp_prim(&PrimV { op: "equal?".into() }, vec![c1, c2]);
    assert_eq!(r, Ok(Value::Boolean(true)));
}

#[test]
fn fuel_bounds_closure_application_depth() {
    let env = top_env();
    let call = app(
        ExprC::LamC(LamC {
            args: vec!["x".into()],
            body: Box::new(id("x")),
        }),
        vec![num(5)],
    );
    // one closure application needs one unit of fuel
    assert_eq!(interp(&call, &env, 0), None);
    assert_eq!(interp(&call, &env, 1), Some(Ok(Value::Real(5))));
    // evaluation that applies no closure needs none
    assert_eq!(
        interp(&app(id("+"), vec![num(2), num(3)]), &env, 0),
        Some(Ok(Value::Real(5)))
    );
}

#[test]
fn lexical_capture_outlives_its_scope() {
    let env = top_env();
    // ((lambda (x) (lambda (y) (+ x y))) 10) applied to 32
    let inner = ExprC::LamC(LamC {
        args: vec!["y".into()],
        body: Box::new(app(id("+"), vec![id("x"), id("y")])),
    });
    let outer = ExprC::LamC(LamC {
        args: vec!["x".into()],
        body: Box::new(inner),
    });
    let expr = app(app(outer, vec![num(10)]), vec![num(32)]);
    assert_eq!(interp(&expr, &env, FUEL).unwrap(), Ok(Value::Real(42)));
}
