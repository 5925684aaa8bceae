use expreval::{
    interp, interp_prim, is_reserved, serialize, top_env, AppC, CloV, EvalError, ExprC, IdC, IfC,
    Kind, LamC, NumC, PrimV, Value,
};

const FUEL: u64 = 100;

#[test]
fn reserved_keywords_work() {
    assert!(is_reserved("if"));
    assert!(is_reserved("lambda"));
    assert_eq!(is_reserved("x"), false);
    assert_eq!(is_reserved("foo"), false);
}

#[test]
fn serialize_work() {
    assert_eq!(serialize(&Value::Real(32)), "32");
    assert_eq!(serialize(&Value::Boolean(true)), "true");
    assert_eq!(serialize(&Value::Boolean(false)), "false");
    assert_eq!(serialize(&Value::String("hello".into())), "\"hello\"");

    let env = top_env();
    let clo = Value::CloV(CloV {
        params: vec!["x".into()],
        body: Box::new(ExprC::NumC(NumC { n: 112 })),
        env: env,
    });
    assert_eq!(serialize(&clo), "#<procedure>");
    assert_eq!(serialize(&Value::PrimV(PrimV { op: "equal?".into() })), "#<primop>");
}

#[test]
fn interp_works() {
    let env = top_env();

    // a primitive addition through the full evaluator
    let expr1 = ExprC::AppC(AppC {
        expr: Box::new(ExprC::IdC(IdC { name: "+".into() })),
        args: vec![
            Box::new(ExprC::NumC(NumC { n: 1 })),
            Box::new(ExprC::NumC(NumC { n: 2 })),
        ],
    });

    let v = interp(&expr1, &env, FUEL).unwrap().unwrap();
    assert_eq!(serialize(&v), "3");
}

#[test]
fn interp_if() {
    let expr = ExprC::IfC(IfC {
        v: Box::new(ExprC::IdC(IdC { name: "true".into() })),
        iftrue: Box::new(ExprC::NumC(NumC { n: 1 })),
        iffalse: Box::new(ExprC::NumC(NumC { n: 2 })),
    });
    let env = top_env();
    let v = interp(&expr, &env, FUEL).unwrap().unwrap();
    assert!(matches!(v, Value::Real(1)))
}

#[test]
fn interp_lamda() {
    let env = top_env();

    let lam_expr = ExprC::LamC(LamC {
        args: vec!["x".into()],
        body: Box::new(ExprC::NumC(NumC { n: 5 })),
    });

    let v = interp(&lam_expr, &env, FUEL).unwrap().unwrap();

    match v {
        Value::CloV(clo) => {
            assert_eq!(clo.params, vec!["x".to_string()]);
        }
        other => panic!("expected a closure, got {:?}", other),
    }
}

#[test]
fn interp_prim_add() {
    let prim_add = PrimV { op: "+".into() };
    let v_add = interp_prim(&prim_add, vec![Value::Real(3), Value::Real(10)]).unwrap();

    assert!(matches!(v_add, Value::Real(13)));
}

#[test]
fn interp_prim_sub() {
    let prim_sub = PrimV { op: "-".into() };
    let v_sub = interp_prim(&prim_sub, vec![Value::Real(10), Value::Real(2)]).unwrap();

    assert!(matches!(v_sub, Value::Real(8)));
}

#[test]
fn interp_prim_mult() {
    let prim_mult = PrimV { op: "*".into() };
    let v_mult = interp_prim(&prim_mult, vec![Value::Real(4), Value::Real(3)]).unwrap();

    assert!(matches!(v_mult, Value::Real(12)));
}

#[test]
fn interp_prim_div() {
    let prim_div = PrimV { op: "/".into() };
    let v_div = interp_prim(&prim_div, vec![Value::Real(12), Value::Real(2)]).unwrap();

    assert!(matches!(v_div, Value::Real(6)));
}

#[test]
fn interp_prim_leq() {
    let prim_leq = PrimV { op: "<=".into() };
    let v_leq1 = interp_prim(&prim_leq, vec![Value::Real(1), Value::Real(2)]).unwrap();
    assert!(matches!(v_leq1, Value::Boolean(true)));

    let v_leq2 = interp_prim(&prim_leq, vec![Value::Real(2), Value::Real(1)]).unwrap();
    assert!(matches!(v_leq2, Value::Boolean(false)));
}

#[test]
fn interp_eq() {
    let prim_eq = PrimV { op: "equal?".into() };
    let v_eq1 = interp_prim(&prim_eq, vec![Value::Real(3), Value::Real(3)]).unwrap();
    assert!(matches!(v_eq1, Value::Boolean(true)));

    let v_eq2 = interp_prim(&prim_eq, vec![Value::Real(2), Value::Real(3)]).unwrap();
    assert!(matches!(v_eq2, Value::Boolean(false)));

    let v_eq3 = interp_prim(
        &prim_eq,
        vec![Value::String("hi".into()), Value::String("hi".into())],
    )
    .unwrap();
    assert!(matches!(v_eq3, Value::Boolean(true)));
}

#[test]
fn interp_substr() {
    let prim_substr = PrimV { op: "substring".into() };
    let v_substr = interp_prim(
        &prim_substr,
        vec![Value::String("hello".into()), Value::Real(1), Value::Real(4)],
    )
    .unwrap();
    assert_eq!(v_substr, Value::String("ell".to_string()));
}

#[test]
fn interp_strl() {
    let prim_strl = PrimV { op: "strlen".into() };
    let v_strl = interp_prim(&prim_strl, vec![Value::String("hello".into())]).unwrap();
    assert_eq!(v_strl, Value::Real(5));
}

#[test]
fn interp_prim_error_type() {
    let prim_et = PrimV { op: "error".into() };
    let r = interp_prim(&prim_et, vec![Value::Real(1)]);
    assert_eq!(r, Err(EvalError::TypeMismatch(Kind::String, Kind::Real)));
}

#[test]
fn interp_prim_error_arity() {
    let prim_ea = PrimV { op: "error".into() };
    let r = interp_prim(&prim_ea, vec![]);
    assert_eq!(r, Err(EvalError::ArityMismatch(1, 0)));
}

#[test]
fn interp_appc() {
    let env = top_env();
    // ((lambda (x) x) 42)
    let expr = ExprC::AppC(AppC {
        expr: Box::new(ExprC::LamC(LamC {
            args: vec!["x".into()],
            body: Box::new(ExprC::IdC(IdC { name: "x".into() })),
        })),
        args: vec![Box::new(ExprC::NumC(NumC { n: 42 }))],
    });

    let v_appc = interp(&expr, &env, FUEL).unwrap().unwrap();
    assert_eq!(v_appc, Value::Real(42));
}
