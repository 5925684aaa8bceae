//! The serializer: a pure converter from a value to its display text.
//!
//! Reals print as their canonical decimal text; booleans as `true` and
//! `false`; texts quoted, with escapes for embedded quotes, backslashes and
//! control characters; closures and primitives as opaque markers that
//! reveal nothing of their contents.  Serialization never fails.

use vstd::prelude::*;

use crate::error::ErrorSpec;
use crate::eval::eval;
use crate::text::{escape_str, escape_text, int_text, int_to_text, nat_text};
use crate::value::{value_view, BindingSpec, Value, ValueSpec};

verus! {

/// The display text of a value.
pub open spec fn serialize_spec(v: ValueSpec) -> Seq<char> {
    match v {
        ValueSpec::Real(n) => int_text(n as int),
        ValueSpec::Boolean(b) => if b {
            "true"@
        } else {
            "false"@
        },
        ValueSpec::Str(s) => seq!['"'] + escape_text(s) + seq!['"'],
        ValueSpec::Clo(_, _, _) => "#<procedure>"@,
        ValueSpec::Prim(_) => "#<primop>"@,
    }
}

/// The display text of a value, as a string.
pub fn serialize(v: &Value) -> (r: String)
    ensures
        r@ == serialize_spec(value_view(*v)),
{
    match v {
        Value::Real(n) => int_to_text(*n),
        Value::Boolean(b) => if *b {
            "true".to_owned()
        } else {
            "false".to_owned()
        },
        Value::String(s) => {
            let mut out = "\"".to_owned();
            out.append(escape_str(s.as_str()).as_str());
            out.append("\"");
            proof {
                reveal_strlit("\"");
                assert(out@ =~= serialize_spec(value_view(*v)));
            }
            out
        },
        Value::CloV(_) => "#<procedure>".to_owned(),
        Value::PrimV(_) => "#<primop>".to_owned(),
    }
}

/// Law: a number literal evaluates, in every environment and under every
/// budget, to the real it holds, and that value's display text is the
/// canonical decimal text of the number.
pub proof fn lemma_number_literal_serializes(n: i64, env: Seq<BindingSpec>, fuel: nat)
    ensures
        eval(crate::ast::ExprSpec::Num(n), env, fuel) == Some(
            Ok::<ValueSpec, ErrorSpec>(ValueSpec::Real(n)),
        ),
        serialize_spec(ValueSpec::Real(n)) == int_text(n as int),
{
}

/// Every character of a natural number's decimal text is a digit.
proof fn lemma_nat_text_digits(m: nat)
    ensures
        nat_text(m).len() >= 1,
        forall|i: int| 0 <= i < nat_text(m).len() ==> '0' <= #[trigger] nat_text(m)[i] <= '9',
    decreases m,
{
    if m >= 10 {
        lemma_nat_text_digits(m / 10);
    }
}

/// Longer numbers have longer decimal texts; within one length the digits
/// decide: the decimal text names the number uniquely.
proof fn lemma_nat_text_injective(m: nat, k: nat)
    requires
        nat_text(m) == nat_text(k),
    ensures
        m == k,
    decreases m,
{
    reveal_with_fuel(nat_text, 2);
    lemma_nat_text_digits(m / 10);
    lemma_nat_text_digits(k / 10);
    if m < 10 && k < 10 {
        assert(nat_text(m)[0] == digit_char_of(m));
        assert(nat_text(k)[0] == digit_char_of(k));
        assert(m == k);
    } else if m < 10 {
        assert(nat_text(m).len() == 1);
        assert(nat_text(k).len() == nat_text(k / 10).len() + 1);
        assert(false);
    } else if k < 10 {
        assert(nat_text(k).len() == 1);
        assert(nat_text(m).len() == nat_text(m / 10).len() + 1);
        assert(false);
    } else {
        let a = nat_text(m / 10);
        let b = nat_text(k / 10);
        assert(nat_text(m).len() == a.len() + 1 && nat_text(k).len() == b.len() + 1);
        assert(nat_text(m)[a.len() as int] == digit_char_of(m % 10));
        assert(nat_text(k)[b.len() as int] == digit_char_of(k % 10));
        assert(a =~= b) by {
            assert(forall|i: int| 0 <= i < a.len() ==> #[trigger] a[i] == nat_text(m)[i]);
            assert(forall|i: int| 0 <= i < b.len() ==> #[trigger] b[i] == nat_text(k)[i]);
        }
        lemma_nat_text_injective(m / 10, k / 10);
        assert(m % 10 == k % 10);
        vstd::arithmetic::div_mod::lemma_fundamental_div_mod(m as int, 10);
        vstd::arithmetic::div_mod::lemma_fundamental_div_mod(k as int, 10);
        assert(m == k);
    }
}

/// The decimal digit character of a value below ten.
spec fn digit_char_of(d: nat) -> char {
    crate::text::digit_char(d as int)
}

/// Law: serialization of reals is canonical: two reals with the same
/// display text are the same real, so the text names its number uniquely.
pub proof fn lemma_real_text_canonical(a: i64, b: i64)
    requires
        serialize_spec(ValueSpec::Real(a)) == serialize_spec(ValueSpec::Real(b)),
    ensures
        a == b,
{
    lemma_nat_text_digits(abs_nat(a));
    lemma_nat_text_digits(abs_nat(b));
    if a < 0 && b < 0 {
        assert(seq!['-'] + nat_text(abs_nat(a)) =~= seq!['-'] + nat_text(abs_nat(b)));
        assert(nat_text(abs_nat(a)) =~= nat_text(abs_nat(b))) by {
            let sa = seq!['-'] + nat_text(abs_nat(a));
            let sb = seq!['-'] + nat_text(abs_nat(b));
            assert(forall|i: int|
                0 <= i < nat_text(abs_nat(a)).len() ==> #[trigger] nat_text(abs_nat(a))[i]
                    == sa[i + 1]);
            assert(forall|i: int|
                0 <= i < nat_text(abs_nat(b)).len() ==> #[trigger] nat_text(abs_nat(b))[i]
                    == sb[i + 1]);
        }
        lemma_nat_text_injective(abs_nat(a), abs_nat(b));
    } else if a < 0 || b < 0 {
        if a < 0 {
            assert(int_text(a as int)[0] == '-');
            assert(int_text(b as int)[0] == nat_text(abs_nat(b))[0]);
        } else {
            assert(int_text(b as int)[0] == '-');
            assert(int_text(a as int)[0] == nat_text(abs_nat(a))[0]);
        }
        assert(false);
    } else {
        lemma_nat_text_injective(abs_nat(a), abs_nat(b));
    }
}

/// The magnitude of a 64-bit integer.
spec fn abs_nat(n: i64) -> nat {
    if n < 0 {
        (-(n as int)) as nat
    } else {
        n as nat
    }
}

} // verus!
