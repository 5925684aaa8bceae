//! The environment: reserved words, shadowing lookup, scope extension and
//! the predefined top-level bindings.
//!
//! Lookup scans the bindings newest-first and returns the first match, so a
//! binding added later shadows an earlier one of the same name.  Extension
//! never changes an existing environment: it builds a new one from a copy of
//! the base with the new bindings appended.

use vstd::prelude::*;

use crate::ast::names_view;
use crate::error::{error_view, ErrorSpec, EvalError};
use crate::text::str_eq;
use crate::value::{binding_view, env_clone, env_view, lemma_env_view_index, lemma_env_view_push,
    value_clone, value_view, values_view, Binding, BindingSpec, Env, PrimV, Value, ValueSpec};

verus! {

/// Whether a name is reserved for surface syntax and so disallowed in
/// identifier position.
pub open spec fn is_reserved_spec(name: Seq<char>) -> bool {
    name == "if"@ || name == "lambda"@ || name == "let"@ || name == "="@ || name == "in"@
        || name == "end"@ || name == "else"@
}

/// Whether a word is reserved.
pub fn is_reserved(name: &str) -> (r: bool)
    ensures
        r == is_reserved_spec(name@),
{
    str_eq(name, "if") || str_eq(name, "lambda") || str_eq(name, "let") || str_eq(name, "=")
        || str_eq(name, "in") || str_eq(name, "end") || str_eq(name, "else")
}

/// The value of the newest binding for a name, if any binding matches.
pub open spec fn lookup_spec(env: Seq<BindingSpec>, name: Seq<char>) -> Option<ValueSpec>
    decreases env.len(),
{
    if env.len() == 0 {
        None
    } else if env.last().name == name {
        Some(env.last().val)
    } else {
        lookup_spec(env.drop_last(), name)
    }
}

/// Lookup as an evaluation result: a name with no binding is a fault.
pub open spec fn lookup_res(env: Seq<BindingSpec>, name: Seq<char>) -> Result<
    ValueSpec,
    ErrorSpec,
> {
    match lookup_spec(env, name) {
        Some(v) => Ok(v),
        None => Err(ErrorSpec::UnboundIdentifier(name)),
    }
}

/// Bindings above a position that all miss the name do not change lookup.
pub proof fn lemma_lookup_prefix(env: Seq<BindingSpec>, name: Seq<char>, i: int)
    requires
        0 <= i <= env.len(),
        forall|j: int| i <= j < env.len() ==> env[j].name != name,
    ensures
        lookup_spec(env, name) == lookup_spec(env.subrange(0, i), name),
    decreases env.len() - i,
{
    if i < env.len() {
        assert(env.last() == env[env.len() - 1]);
        lemma_lookup_prefix(env.drop_last(), name, i);
        assert(env.drop_last().subrange(0, i) =~= env.subrange(0, i));
    } else {
        assert(env.subrange(0, i) =~= env);
    }
}

/// The newest binding for a name wins.
pub proof fn lemma_lookup_newest(env: Seq<BindingSpec>, name: Seq<char>, v: ValueSpec)
    ensures
        lookup_spec(env.push(BindingSpec { name, val: v }), name) == Some(v),
{
    assert(env.push(BindingSpec { name, val: v }).last() == (BindingSpec { name, val: v }));
}

/// A binding for another name leaves lookup unchanged.
pub proof fn lemma_lookup_other(env: Seq<BindingSpec>, name: Seq<char>, b: BindingSpec)
    requires
        b.name != name,
    ensures
        lookup_spec(env.push(b), name) == lookup_spec(env, name),
{
    assert(env.push(b).drop_last() =~= env);
}

/// Shadowing: after two bindings for one name, added in sequence, lookup
/// returns the value of the later one.
pub proof fn lemma_lookup_shadowing(
    env: Seq<BindingSpec>,
    name: Seq<char>,
    v1: ValueSpec,
    v2: ValueSpec,
)
    ensures
        lookup_spec(
            env.push(BindingSpec { name, val: v1 }).push(BindingSpec { name, val: v2 }),
            name,
        ) == Some(v2),
{
    lemma_lookup_newest(env.push(BindingSpec { name, val: v1 }), name, v2);
}

/// The value bound to a name: the newest binding wins, a name with no
/// binding is an `UnboundIdentifier` fault.
pub fn get_binding_val(name: &str, env: &Env) -> (r: Result<Value, EvalError>)
    ensures
        crate::error::result_view(r) == lookup_res(env_view(env@), name@),
{
    proof {
        lemma_env_view_index(env@);
    }
    let ghost evs = env_view(env@);
    let mut i: usize = env.len();
    while i > 0
        invariant
            0 <= i <= env@.len(),
            evs == env_view(env@),
            evs.len() == env@.len(),
            forall|j: int| 0 <= j < env@.len() ==> evs[j] == binding_view(env@[j]),
            forall|j: int| i <= j < env@.len() ==> evs[j].name != name@,
        decreases i,
    {
        i = i - 1;
        if str_eq(env[i].name.as_str(), name) {
            proof {
                lemma_lookup_prefix(evs, name@, i + 1);
                assert(evs.subrange(0, i + 1).last() == evs[i as int]);
                assert(evs.subrange(0, i + 1).drop_last() =~= evs.subrange(0, i as int));
            }
            return Ok(value_clone(&env[i].val));
        }
    }
    proof {
        lemma_lookup_prefix(evs, name@, 0);
        assert(evs.subrange(0, 0) =~= Seq::<BindingSpec>::empty());
    }
    Err(EvalError::UnboundIdentifier(name.to_owned()))
}

/// A base environment extended with one new binding per name/value pair, in
/// order.
pub open spec fn extend_env(
    base: Seq<BindingSpec>,
    names: Seq<Seq<char>>,
    vals: Seq<ValueSpec>,
) -> Seq<BindingSpec> {
    base + Seq::new(names.len(), |i: int| BindingSpec { name: names[i], val: vals[i] })
}

/// A new environment equal to the base plus one binding per parameter, in
/// order; an `ArityMismatch` fault when the two lists differ in length.  The
/// base environment itself is never changed.
pub fn create_env(params: &[String], vals: &[Value], base_env: &Env) -> (r: Result<
    Env,
    EvalError,
>)
    ensures
        params@.len() == vals@.len() ==> (r matches Ok(e) && env_view(e@) == extend_env(
            env_view(base_env@),
            names_view(params@),
            values_view(vals@),
        )),
        params@.len() != vals@.len() ==> (r matches Err(er) && error_view(er)
            == ErrorSpec::ArityMismatch(params@.len() as int, vals@.len() as int)),
{
    if params.len() != vals.len() {
        return Err(EvalError::ArityMismatch(params.len(), vals.len()));
    }
    let n = params.len();
    let mut out = env_clone(base_env);
    let mut i: usize = 0;
    while i < n
        invariant
            0 <= i <= n,
            params@.len() == n,
            vals@.len() == n,
            env_view(out@) == env_view(base_env@) + Seq::new(
                i as nat,
                |j: int| BindingSpec { name: params@[j]@, val: value_view(vals@[j]) },
            ),
        decreases n - i,
    {
        let b = Binding { name: params[i].clone(), val: Box::new(value_clone(&vals[i])) };
        proof {
            lemma_env_view_push(out@, b);
        }
        out.push(b);
        proof {
            assert(env_view(out@) =~= env_view(base_env@) + Seq::new(
                (i + 1) as nat,
                |j: int| BindingSpec { name: params@[j]@, val: value_view(vals@[j]) },
            ));
        }
        i += 1;
    }
    proof {
        assert(env_view(out@) =~= extend_env(
            env_view(base_env@),
            names_view(params@),
            values_view(vals@),
        ));
    }
    Ok(out)
}

/// The model of the top-level environment: `true`, `false` and the fixed
/// primitive operators, in order.
pub open spec fn top_env_spec() -> Seq<BindingSpec> {
    seq![
        BindingSpec { name: "true"@, val: ValueSpec::Boolean(true) },
        BindingSpec { name: "false"@, val: ValueSpec::Boolean(false) },
        BindingSpec { name: "+"@, val: ValueSpec::Prim("+"@) },
        BindingSpec { name: "-"@, val: ValueSpec::Prim("-"@) },
        BindingSpec { name: "*"@, val: ValueSpec::Prim("*"@) },
        BindingSpec { name: "/"@, val: ValueSpec::Prim("/"@) },
        BindingSpec { name: "<="@, val: ValueSpec::Prim("<="@) },
        BindingSpec { name: "equal?"@, val: ValueSpec::Prim("equal?"@) },
        BindingSpec { name: "substring"@, val: ValueSpec::Prim("substring"@) },
        BindingSpec { name: "strlen"@, val: ValueSpec::Prim("strlen"@) },
        BindingSpec { name: "error"@, val: ValueSpec::Prim("error"@) },
    ]
}

/// The predefined top-level environment, created once per run.
pub fn top_env() -> (env: Env)
    ensures
        env_view(env@) == top_env_spec(),
{
    let mut env: Env = Vec::new();
    env.push(Binding { name: "true".to_owned(), val: Box::new(Value::Boolean(true)) });
    env.push(Binding { name: "false".to_owned(), val: Box::new(Value::Boolean(false)) });
    env.push(
        Binding { name: "+".to_owned(), val: Box::new(Value::PrimV(PrimV { op: "+".to_owned() })) },
    );
    env.push(
        Binding { name: "-".to_owned(), val: Box::new(Value::PrimV(PrimV { op: "-".to_owned() })) },
    );
    env.push(
        Binding { name: "*".to_owned(), val: Box::new(Value::PrimV(PrimV { op: "*".to_owned() })) },
    );
    env.push(
        Binding { name: "/".to_owned(), val: Box::new(Value::PrimV(PrimV { op: "/".to_owned() })) },
    );
    env.push(
        Binding {
            name: "<=".to_owned(),
            val: Box::new(Value::PrimV(PrimV { op: "<=".to_owned() })),
        },
    );
    env.push(
        Binding {
            name: "equal?".to_owned(),
            val: Box::new(Value::PrimV(PrimV { op: "equal?".to_owned() })),
        },
    );
    env.push(
        Binding {
            name: "substring".to_owned(),
            val: Box::new(Value::PrimV(PrimV { op: "substring".to_owned() })),
        },
    );
    env.push(
        Binding {
            name: "strlen".to_owned(),
            val: Box::new(Value::PrimV(PrimV { op: "strlen".to_owned() })),
        },
    );
    env.push(
        Binding {
            name: "error".to_owned(),
            val: Box::new(Value::PrimV(PrimV { op: "error".to_owned() })),
        },
    );
    proof {
        lemma_env_view_index(env@);
        assert(env_view(env@) =~= top_env_spec());
    }
    env
}

} // verus!
