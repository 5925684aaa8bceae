//! Runtime values, bindings and environments, and their ghost model.
//!
//! A [`Value`] is the immutable result of evaluation.  A closure carries a
//! full copy of the environment that was in effect when its lambda was
//! evaluated, so closures may outlive the scope that created them.  An
//! [`Env`] is an ordered sequence of bindings, oldest first; lookup scans it
//! newest-first, which realizes shadowing.
//!
//! Equality of values is structural: two closures are equal exactly when
//! their parameter lists, bodies and captured environments are equal.
//! [`value_eq`] decides that relation and is proved to agree with equality of
//! the ghost models.

use vstd::prelude::*;

use crate::ast::{expr_clone, expr_eq, expr_view, names_view, strings_clone, strings_eq, ExprC,
    ExprSpec};

verus! {

/// A runtime value: a real, a boolean, a text, a closure or a primitive
/// operator.
#[derive(Debug, PartialEq)]
pub enum Value {
    Real(i64),
    Boolean(bool),
    String(String),
    CloV(CloV),
    PrimV(PrimV),
}

/// A closure: parameter names, a body, and the captured environment.
#[derive(Debug, PartialEq)]
pub struct CloV {
    pub params: Vec<String>,
    pub body: Box<ExprC>,
    pub env: Env,
}

/// A primitive operator, identified by its name.
#[derive(Debug, PartialEq)]
pub struct PrimV {
    pub op: String,
}

/// One name bound to one owned value.
#[derive(Debug, PartialEq)]
pub struct Binding {
    pub name: String,
    pub val: Box<Value>,
}

/// An environment: bindings in the order they were added, oldest first.
pub type Env = Vec<Binding>;

/// Ghost model of a runtime value.
#[verifier::ext_equal]
pub enum ValueSpec {
    Real(i64),
    Boolean(bool),
    Str(Seq<char>),
    Clo(Seq<Seq<char>>, ExprSpec, Seq<BindingSpec>),
    Prim(Seq<char>),
}

/// Ghost model of one binding.
#[verifier::ext_equal]
pub struct BindingSpec {
    pub name: Seq<char>,
    pub val: ValueSpec,
}

/// The model of a runtime value.
pub open spec fn value_view(v: Value) -> ValueSpec
    decreases v,
{
    match v {
        Value::Real(n) => ValueSpec::Real(n),
        Value::Boolean(b) => ValueSpec::Boolean(b),
        Value::String(s) => ValueSpec::Str(s@),
        Value::CloV(c) => ValueSpec::Clo(
            names_view(c.params@),
            expr_view(*c.body),
            env_view(c.env@),
        ),
        Value::PrimV(p) => ValueSpec::Prim(p.op@),
    }
}

/// The model of one binding.
pub open spec fn binding_view(b: Binding) -> BindingSpec
    decreases b,
{
    BindingSpec { name: b.name@, val: value_view(*b.val) }
}

/// The model of an environment, in binding order.
pub open spec fn env_view(env: Seq<Binding>) -> Seq<BindingSpec>
    decreases env,
{
    if env.len() == 0 {
        Seq::empty()
    } else {
        seq![binding_view(env[0])] + env_view(env.drop_first())
    }
}

impl View for Value {
    type V = ValueSpec;

    open spec fn view(&self) -> ValueSpec {
        value_view(*self)
    }
}

impl DeepView for Value {
    type V = ValueSpec;

    open spec fn deep_view(&self) -> ValueSpec {
        value_view(*self)
    }
}

impl View for Binding {
    type V = BindingSpec;

    open spec fn view(&self) -> BindingSpec {
        binding_view(*self)
    }
}

impl DeepView for Binding {
    type V = BindingSpec;

    open spec fn deep_view(&self) -> BindingSpec {
        binding_view(*self)
    }
}

/// The models of a list of values, in order.
pub open spec fn values_view(vs: Seq<Value>) -> Seq<ValueSpec> {
    Seq::new(vs.len(), |i: int| value_view(vs[i]))
}

/// The model of an environment is the list of the bindings' models.
pub proof fn lemma_env_view_index(env: Seq<Binding>)
    ensures
        env_view(env).len() == env.len(),
        forall|i: int| 0 <= i < env.len() ==> env_view(env)[i] == binding_view(env[i]),
    decreases env.len(),
{
    if env.len() > 0 {
        lemma_env_view_index(env.drop_first());
    }
}

/// Appending one binding appends its model.
pub proof fn lemma_env_view_push(env: Seq<Binding>, b: Binding)
    ensures
        env_view(env.push(b)) == env_view(env).push(binding_view(b)),
{
    lemma_env_view_index(env);
    lemma_env_view_index(env.push(b));
    assert(env_view(env.push(b)) =~= env_view(env).push(binding_view(b)));
}

/// Structural equality of two values, decided by content.
pub fn value_eq(a: &Value, b: &Value) -> (r: bool)
    ensures
        r == (value_view(*a) == value_view(*b)),
    decreases a,
{
    match (a, b) {
        (Value::Real(x), Value::Real(y)) => *x == *y,
        (Value::Boolean(x), Value::Boolean(y)) => *x == *y,
        (Value::String(x), Value::String(y)) => *x == *y,
        (Value::CloV(x), Value::CloV(y)) => {
            strings_eq(&x.params, &y.params) && expr_eq(&x.body, &y.body) && envs_eq(
                &x.env,
                &y.env,
            )
        },
        (Value::PrimV(x), Value::PrimV(y)) => x.op == y.op,
        _ => false,
    }
}

/// Structural equality of two environments, binding by binding.
pub fn envs_eq(a: &Env, b: &Env) -> (r: bool)
    ensures
        r == (env_view(a@) == env_view(b@)),
    decreases a,
{
    proof {
        lemma_env_view_index(a@);
        lemma_env_view_index(b@);
    }
    if a.len() != b.len() {
        return false;
    }
    let n = a.len();
    let mut i: usize = 0;
    while i < n
        invariant
            0 <= i <= n,
            a@.len() == n,
            b@.len() == n,
            env_view(a@).len() == n,
            env_view(b@).len() == n,
            forall|j: int| 0 <= j < n ==> env_view(a@)[j] == binding_view(a@[j]),
            forall|j: int| 0 <= j < n ==> env_view(b@)[j] == binding_view(b@[j]),
            forall|j: int| 0 <= j < i ==> binding_view(a@[j]) == binding_view(b@[j]),
        decreases n - i,
    {
        if !(a[i].name == b[i].name) {
            assert(env_view(a@)[i as int] != env_view(b@)[i as int]);
            return false;
        }
        if !value_eq(&a[i].val, &b[i].val) {
            assert(env_view(a@)[i as int] != env_view(b@)[i as int]);
            return false;
        }
        assert(binding_view(a@[i as int]) == binding_view(b@[i as int]));
        i += 1;
    }
    assert(env_view(a@) =~= env_view(b@));
    true
}

/// A copy of a value with the same model.
pub fn value_clone(v: &Value) -> (r: Value)
    ensures
        value_view(r) == value_view(*v),
    decreases v,
{
    match v {
        Value::Real(n) => Value::Real(*n),
        Value::Boolean(b) => Value::Boolean(*b),
        Value::String(s) => Value::String(s.clone()),
        Value::CloV(c) => Value::CloV(
            CloV {
                params: strings_clone(&c.params),
                body: Box::new(expr_clone(&c.body)),
                env: env_clone(&c.env),
            },
        ),
        Value::PrimV(p) => Value::PrimV(PrimV { op: p.op.clone() }),
    }
}

/// A copy of an environment with the same model.
pub fn env_clone(env: &Env) -> (r: Env)
    ensures
        env_view(r@) == env_view(env@),
    decreases env,
{
    proof {
        lemma_env_view_index(env@);
    }
    let n = env.len();
    let mut out: Env = Vec::new();
    let mut i: usize = 0;
    while i < n
        invariant
            0 <= i <= n,
            env@.len() == n,
            out@.len() == i,
            forall|j: int| 0 <= j < i ==> binding_view(out@[j]) == binding_view(env@[j]),
        decreases n - i,
    {
        out.push(
            Binding { name: env[i].name.clone(), val: Box::new(value_clone(&env[i].val)) },
        );
        i += 1;
    }
    proof {
        lemma_env_view_index(out@);
    }
    assert(env_view(out@) =~= env_view(env@));
    out
}

} // verus!
