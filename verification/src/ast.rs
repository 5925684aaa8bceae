//! Syntax trees of the expression language, and their ghost model.
//!
//! An [`ExprC`] is an immutable tagged union over six shapes: number and
//! string literals, identifiers, conditionals, lambdas and applications.
//! Trees are built by a caller (a surface-syntax reader is out of scope) and
//! only read here.  The ghost model [`ExprSpec`] mirrors the same shapes over
//! mathematical sequences; [`expr_view`] maps a tree to its model, and every
//! contract in this crate speaks of trees through that map.

use vstd::prelude::*;

verus! {

/// A syntax tree: one of NumC, StringC, IdC, IfC, AppC, LamC.
#[derive(Debug, PartialEq)]
pub enum ExprC {
    NumC(NumC),
    StringC(StringC),
    IdC(IdC),
    IfC(IfC),
    AppC(AppC),
    LamC(LamC),
}

/// A number literal.
#[derive(Debug, PartialEq)]
pub struct NumC {
    pub n: i64,
}

/// A string literal.
#[derive(Debug, PartialEq)]
pub struct StringC {
    pub s: String,
}

/// An identifier, resolved against the environment when evaluated.
#[derive(Debug, PartialEq)]
pub struct IdC {
    pub name: String,
}

/// A conditional: a test expression and the two branches.
#[derive(Debug, PartialEq)]
pub struct IfC {
    pub v: Box<ExprC>,
    pub iftrue: Box<ExprC>,
    pub iffalse: Box<ExprC>,
}

/// A function application: the callee expression and the ordered arguments.
#[derive(Debug, PartialEq)]
pub struct AppC {
    pub expr: Box<ExprC>,
    pub args: Vec<Box<ExprC>>,
}

/// A lambda: ordered parameter names and a body.
#[derive(Debug, PartialEq)]
pub struct LamC {
    pub args: Vec<String>,
    pub body: Box<ExprC>,
}

/// Ghost model of a syntax tree: the same six shapes over `Seq`.
#[verifier::ext_equal]
pub enum ExprSpec {
    Num(i64),
    Str(Seq<char>),
    Id(Seq<char>),
    If(Box<ExprSpec>, Box<ExprSpec>, Box<ExprSpec>),
    App(Box<ExprSpec>, Seq<ExprSpec>),
    Lam(Seq<Seq<char>>, Box<ExprSpec>),
}

/// The model of a list of parameter names: each name as its character
/// sequence.
pub open spec fn names_view(names: Seq<String>) -> Seq<Seq<char>> {
    Seq::new(names.len(), |i: int| names[i]@)
}

/// The model of a syntax tree.
pub open spec fn expr_view(e: ExprC) -> ExprSpec
    decreases e,
{
    match e {
        ExprC::NumC(nc) => ExprSpec::Num(nc.n),
        ExprC::StringC(sc) => ExprSpec::Str(sc.s@),
        ExprC::IdC(ic) => ExprSpec::Id(ic.name@),
        ExprC::IfC(fc) => ExprSpec::If(
            Box::new(expr_view(*fc.v)),
            Box::new(expr_view(*fc.iftrue)),
            Box::new(expr_view(*fc.iffalse)),
        ),
        ExprC::AppC(ac) => ExprSpec::App(Box::new(expr_view(*ac.expr)), exprs_view(ac.args@)),
        ExprC::LamC(lc) => ExprSpec::Lam(names_view(lc.args@), Box::new(expr_view(*lc.body))),
    }
}

/// The model of an argument list, in order.
pub open spec fn exprs_view(es: Seq<Box<ExprC>>) -> Seq<ExprSpec>
    decreases es,
{
    if es.len() == 0 {
        Seq::empty()
    } else {
        seq![expr_view(*es[0])] + exprs_view(es.drop_first())
    }
}

impl View for ExprC {
    type V = ExprSpec;

    open spec fn view(&self) -> ExprSpec {
        expr_view(*self)
    }
}

impl DeepView for ExprC {
    type V = ExprSpec;

    open spec fn deep_view(&self) -> ExprSpec {
        expr_view(*self)
    }
}

/// The model of an argument list is the list of the elements' models.
pub proof fn lemma_exprs_view_index(es: Seq<Box<ExprC>>)
    ensures
        exprs_view(es).len() == es.len(),
        forall|i: int| 0 <= i < es.len() ==> exprs_view(es)[i] == expr_view(*es[i]),
    decreases es.len(),
{
    if es.len() > 0 {
        lemma_exprs_view_index(es.drop_first());
    }
}

/// Structural equality of two parameter-name lists, decided by content.
pub fn strings_eq(a: &Vec<String>, b: &Vec<String>) -> (r: bool)
    ensures
        r == (names_view(a@) == names_view(b@)),
{
    if a.len() != b.len() {
        assert(names_view(a@).len() != names_view(b@).len());
        return false;
    }
    let n = a.len();
    let mut i: usize = 0;
    while i < n
        invariant
            0 <= i <= n,
            a@.len() == n,
            b@.len() == n,
            forall|j: int| 0 <= j < i ==> a@[j]@ == b@[j]@,
        decreases n - i,
    {
        if !(a[i] == b[i]) {
            assert(names_view(a@)[i as int] != names_view(b@)[i as int]);
            return false;
        }
        i += 1;
    }
    assert(names_view(a@) =~= names_view(b@));
    true
}

/// A copy of a parameter-name list with the same content.
pub fn strings_clone(v: &Vec<String>) -> (r: Vec<String>)
    ensures
        names_view(r@) == names_view(v@),
        r@.len() == v@.len(),
        forall|i: int| 0 <= i < v@.len() ==> r@[i]@ == v@[i]@,
{
    let n = v.len();
    let mut out: Vec<String> = Vec::new();
    let mut i: usize = 0;
    while i < n
        invariant
            0 <= i <= n,
            v@.len() == n,
            out@.len() == i,
            forall|j: int| 0 <= j < i ==> out@[j]@ == v@[j]@,
        decreases n - i,
    {
        out.push(v[i].clone());
        i += 1;
    }
    assert(names_view(out@) =~= names_view(v@));
    out
}

/// Structural equality of two syntax trees: same shape, equal leaves.
pub fn expr_eq(a: &ExprC, b: &ExprC) -> (r: bool)
    ensures
        r == (expr_view(*a) == expr_view(*b)),
    decreases a,
{
    match (a, b) {
        (ExprC::NumC(x), ExprC::NumC(y)) => x.n == y.n,
        (ExprC::StringC(x), ExprC::StringC(y)) => x.s == y.s,
        (ExprC::IdC(x), ExprC::IdC(y)) => x.name == y.name,
        (ExprC::IfC(x), ExprC::IfC(y)) => {
            expr_eq(&x.v, &y.v) && expr_eq(&x.iftrue, &y.iftrue) && expr_eq(
                &x.iffalse,
                &y.iffalse,
            )
        },
        (ExprC::AppC(x), ExprC::AppC(y)) => expr_eq(&x.expr, &y.expr) && exprs_eq(
            &x.args,
            &y.args,
        ),
        (ExprC::LamC(x), ExprC::LamC(y)) => strings_eq(&x.args, &y.args) && expr_eq(
            &x.body,
            &y.body,
        ),
        _ => false,
    }
}

/// Structural equality of two argument lists, element by element.
pub fn exprs_eq(a: &Vec<Box<ExprC>>, b: &Vec<Box<ExprC>>) -> (r: bool)
    ensures
        r == (exprs_view(a@) == exprs_view(b@)),
    decreases a,
{
    proof {
        lemma_exprs_view_index(a@);
        lemma_exprs_view_index(b@);
    }
    if a.len() != b.len() {
        return false;
    }
    let n = a.len();
    let mut i: usize = 0;
    while i < n
        invariant
            0 <= i <= n,
            a@.len() == n,
            b@.len() == n,
            exprs_view(a@).len() == n,
            exprs_view(b@).len() == n,
            forall|j: int| 0 <= j < n ==> exprs_view(a@)[j] == expr_view(*a@[j]),
            forall|j: int| 0 <= j < n ==> exprs_view(b@)[j] == expr_view(*b@[j]),
            forall|j: int| 0 <= j < i ==> expr_view(*a@[j]) == expr_view(*b@[j]),
        decreases n - i,
    {
        if !expr_eq(&a[i], &b[i]) {
            assert(exprs_view(a@)[i as int] != exprs_view(b@)[i as int]);
            return false;
        }
        i += 1;
    }
    assert(exprs_view(a@) =~= exprs_view(b@));
    true
}

/// A copy of a syntax tree with the same model.
pub fn expr_clone(e: &ExprC) -> (r: ExprC)
    ensures
        expr_view(r) == expr_view(*e),
    decreases e,
{
    match e {
        ExprC::NumC(x) => ExprC::NumC(NumC { n: x.n }),
        ExprC::StringC(x) => ExprC::StringC(StringC { s: x.s.clone() }),
        ExprC::IdC(x) => ExprC::IdC(IdC { name: x.name.clone() }),
        ExprC::IfC(x) => ExprC::IfC(
            IfC {
                v: Box::new(expr_clone(&x.v)),
                iftrue: Box::new(expr_clone(&x.iftrue)),
                iffalse: Box::new(expr_clone(&x.iffalse)),
            },
        ),
        ExprC::AppC(x) => ExprC::AppC(
            AppC { expr: Box::new(expr_clone(&x.expr)), args: exprs_clone(&x.args) },
        ),
        ExprC::LamC(x) => ExprC::LamC(
            LamC { args: strings_clone(&x.args), body: Box::new(expr_clone(&x.body)) },
        ),
    }
}

/// A copy of an argument list with the same model.
pub fn exprs_clone(es: &Vec<Box<ExprC>>) -> (r: Vec<Box<ExprC>>)
    ensures
        exprs_view(r@) == exprs_view(es@),
    decreases es,
{
    proof {
        lemma_exprs_view_index(es@);
    }
    let n = es.len();
    let mut out: Vec<Box<ExprC>> = Vec::new();
    let mut i: usize = 0;
    while i < n
        invariant
            0 <= i <= n,
            es@.len() == n,
            out@.len() == i,
            forall|j: int| 0 <= j < i ==> expr_view(*out@[j]) == expr_view(*es@[j]),
        decreases n - i,
    {
        out.push(Box::new(expr_clone(&es[i])));
        i += 1;
    }
    proof {
        lemma_exprs_view_index(out@);
    }
    assert(exprs_view(out@) =~= exprs_view(es@));
    out
}

} // verus!
