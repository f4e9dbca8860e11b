//! The tagged scalar value model: integer, float, string, boolean and null,
//! with the coercion matrix for arithmetic, comparison and text rendering.
//!
//! Arithmetic between two integers wraps around 32 bits; a boolean coerces
//! to zero or one and combines as a float with any numeric partner; float
//! arithmetic is IEEE binary32 through the trusted wrappers of
//! `crate::floats`; string addition is concatenation of renderings and
//! string subtraction removes the first occurrence of the right operand's
//! rendering. Comparisons are defined only between two operands of the same
//! kind and yield false on mismatched kinds.

use vstd::prelude::*;

verus! {

use vstd::string::StringExecFns;
use crate::floats::{
    single_add, single_sub, single_mul, single_div, single_rem, single_cmp, single_to_int,
    single_of_int, single_pow, single_text, add_bits, sub_bits, mul_bits, div_bits, rem_bits,
    cmp_bits, bits_to_int, int_to_bits, pow_bits, render_bits, ONE_BITS,
};
use crate::text::{
    int_text, lex_lt, remove_first, remove_first_occurrence, i32_to_string, i128_to_string,
    str_compare, Order,
};

/// A scalar value of the machine; exactly one kind at a time. The float kind
/// carries the IEEE binary32 bit pattern of its value.
#[derive(Debug)]
pub enum ScalarType {
    Int(i32),
    Float(u32),
    Str(String),
    Bool(bool),
    Null,
}

/// The mathematical model of a scalar: strings as character sequences.
pub enum AbsVal {
    Int(i32),
    Float(u32),
    Str(Seq<char>),
    Bool(bool),
    Null,
}

impl View for ScalarType {
    type V = AbsVal;

    open spec fn view(&self) -> AbsVal {
        match self {
            ScalarType::Int(i) => AbsVal::Int(*i),
            ScalarType::Float(b) => AbsVal::Float(*b),
            ScalarType::Str(s) => AbsVal::Str(s@),
            ScalarType::Bool(b) => AbsVal::Bool(*b),
            ScalarType::Null => AbsVal::Null,
        }
    }
}

/// The rendering of a float bit pattern: exact integer values render as
/// decimal integers, everything else renders as the software float's
/// decimal form.
pub open spec fn float_text(b: u32) -> Seq<char> {
    let c = single_to_int(b, false);
    if c.1 {
        int_text(c.0 as int)
    } else {
        single_text(b)
    }
}

/// The textual rendering of a scalar: strings verbatim, integers and floats
/// in decimal, booleans as `true`/`false`, null as `Null`.
pub open spec fn render(v: AbsVal) -> Seq<char> {
    match v {
        AbsVal::Int(i) => int_text(i as int),
        AbsVal::Float(b) => float_text(b),
        AbsVal::Str(s) => s,
        AbsVal::Bool(b) => if b {
            "true"@
        } else {
            "false"@
        },
        AbsVal::Null => "Null"@,
    }
}

/// The numeric value of a boolean, as a float bit pattern operand.
pub open spec fn bool_bits(b: bool) -> u32 {
    if b {
        ONE_BITS
    } else {
        0
    }
}

/// Addition under the coercion matrix. `None` is an unsupported pairing.
pub open spec fn eval_add(l: AbsVal, r: AbsVal) -> Option<AbsVal> {
    match (l, r) {
        (AbsVal::Int(a), AbsVal::Int(b)) => Some(AbsVal::Int(a.wrapping_add(b))),
        (AbsVal::Float(a), AbsVal::Float(b)) => Some(AbsVal::Float(single_add(a, b))),
        (AbsVal::Int(a), AbsVal::Float(b)) => Some(
            AbsVal::Float(single_add(single_of_int(a as i128), b)),
        ),
        (AbsVal::Float(a), AbsVal::Int(b)) => Some(
            AbsVal::Float(single_add(a, single_of_int(b as i128))),
        ),
        (AbsVal::Str(a), AbsVal::Str(b)) => Some(AbsVal::Str(a + b)),
        (AbsVal::Bool(a), AbsVal::Bool(b)) => Some(
            AbsVal::Float(single_add(bool_bits(a), bool_bits(b))),
        ),
        (AbsVal::Int(a), AbsVal::Bool(b)) => Some(
            AbsVal::Float(single_add(single_of_int(a as i128), bool_bits(b))),
        ),
        (AbsVal::Bool(a), AbsVal::Int(b)) => Some(
            AbsVal::Float(single_add(bool_bits(a), single_of_int(b as i128))),
        ),
        (AbsVal::Float(a), AbsVal::Bool(b)) => Some(AbsVal::Float(single_add(a, bool_bits(b)))),
        (AbsVal::Bool(a), AbsVal::Float(b)) => Some(AbsVal::Float(single_add(bool_bits(a), b))),
        (AbsVal::Str(a), AbsVal::Bool(b)) => Some(AbsVal::Str(a + render(AbsVal::Bool(b)))),
        (AbsVal::Bool(a), AbsVal::Str(b)) => Some(AbsVal::Str(render(AbsVal::Bool(a)) + b)),
        (AbsVal::Str(a), AbsVal::Int(b)) => Some(AbsVal::Str(a + render(AbsVal::Int(b)))),
        (AbsVal::Int(a), AbsVal::Str(b)) => Some(AbsVal::Str(render(AbsVal::Int(a)) + b)),
        (AbsVal::Str(a), AbsVal::Float(b)) => Some(AbsVal::Str(a + render(AbsVal::Float(b)))),
        (AbsVal::Float(a), AbsVal::Str(b)) => Some(AbsVal::Str(render(AbsVal::Float(a)) + b)),
        (AbsVal::Str(a), AbsVal::Null) => Some(AbsVal::Str(a + render(AbsVal::Null))),
        (AbsVal::Null, AbsVal::Str(b)) => Some(AbsVal::Str(render(AbsVal::Null) + b)),
        _ => None,
    }
}

/// Subtraction under the coercion matrix: numeric subtraction, and for a
/// string on the left, removal of the first occurrence of the right
/// operand's rendering. `None` is an unsupported pairing.
pub open spec fn eval_sub(l: AbsVal, r: AbsVal) -> Option<AbsVal> {
    match (l, r) {
        (AbsVal::Int(a), AbsVal::Int(b)) => Some(AbsVal::Int(a.wrapping_sub(b))),
        (AbsVal::Float(a), AbsVal::Float(b)) => Some(AbsVal::Float(single_sub(a, b))),
        (AbsVal::Int(a), AbsVal::Float(b)) => Some(
            AbsVal::Float(single_sub(single_of_int(a as i128), b)),
        ),
        (AbsVal::Float(a), AbsVal::Int(b)) => Some(
            AbsVal::Float(single_sub(a, single_of_int(b as i128))),
        ),
        (AbsVal::Str(a), AbsVal::Str(b)) => Some(AbsVal::Str(remove_first(a, b))),
        (AbsVal::Bool(a), AbsVal::Bool(b)) => Some(
            AbsVal::Float(single_sub(bool_bits(a), bool_bits(b))),
        ),
        (AbsVal::Int(a), AbsVal::Bool(b)) => Some(
            AbsVal::Float(single_sub(single_of_int(a as i128), bool_bits(b))),
        ),
        (AbsVal::Bool(a), AbsVal::Int(b)) => Some(
            AbsVal::Float(single_sub(bool_bits(a), single_of_int(b as i128))),
        ),
        (AbsVal::Float(a), AbsVal::Bool(b)) => Some(AbsVal::Float(single_sub(a, bool_bits(b)))),
        (AbsVal::Bool(a), AbsVal::Float(b)) => Some(AbsVal::Float(single_sub(bool_bits(a), b))),
        (AbsVal::Str(a), AbsVal::Bool(b)) => Some(
            AbsVal::Str(remove_first(a, render(AbsVal::Bool(b)))),
        ),
        (AbsVal::Str(a), AbsVal::Int(b)) => Some(
            AbsVal::Str(remove_first(a, render(AbsVal::Int(b)))),
        ),
        (AbsVal::Str(a), AbsVal::Float(b)) => Some(
            AbsVal::Str(remove_first(a, render(AbsVal::Float(b)))),
        ),
        (AbsVal::Str(a), AbsVal::Null) => Some(AbsVal::Str(remove_first(a, render(AbsVal::Null)))),
        _ => None,
    }
}

/// Multiplication under the coercion matrix; strings do not multiply.
pub open spec fn eval_mul(l: AbsVal, r: AbsVal) -> Option<AbsVal> {
    match (l, r) {
        (AbsVal::Int(a), AbsVal::Int(b)) => Some(AbsVal::Int(a.wrapping_mul(b))),
        (AbsVal::Float(a), AbsVal::Float(b)) => Some(AbsVal::Float(single_mul(a, b))),
        (AbsVal::Int(a), AbsVal::Float(b)) => Some(
            AbsVal::Float(single_mul(single_of_int(a as i128), b)),
        ),
        (AbsVal::Float(a), AbsVal::Int(b)) => Some(
            AbsVal::Float(single_mul(a, single_of_int(b as i128))),
        ),
        (AbsVal::Bool(a), AbsVal::Bool(b)) => Some(
            AbsVal::Float(single_mul(bool_bits(a), bool_bits(b))),
        ),
        (AbsVal::Int(a), AbsVal::Bool(b)) => Some(
            AbsVal::Float(single_mul(single_of_int(a as i128), bool_bits(b))),
        ),
        (AbsVal::Bool(a), AbsVal::Int(b)) => Some(
            AbsVal::Float(single_mul(bool_bits(a), single_of_int(b as i128))),
        ),
        (AbsVal::Float(a), AbsVal::Bool(b)) => Some(AbsVal::Float(single_mul(a, bool_bits(b)))),
        (AbsVal::Bool(a), AbsVal::Float(b)) => Some(AbsVal::Float(single_mul(bool_bits(a), b))),
        _ => None,
    }
}

/// The magnitude of a 32-bit integer, as a mathematical integer.
pub open spec fn int_abs(a: i32) -> int {
    if a >= 0 {
        a as int
    } else {
        -(a as int)
    }
}

/// Truncating 32-bit integer division; `None` for a zero divisor and for
/// the one overflowing quotient.
pub open spec fn int_div(a: i32, b: i32) -> Option<i32> {
    if b == 0 || (a == i32::MIN && b == -1) {
        None
    } else if (a >= 0) == (b >= 0) {
        Some((int_abs(a) / int_abs(b)) as i32)
    } else {
        Some((-(int_abs(a) / int_abs(b))) as i32)
    }
}

/// Truncating 32-bit integer remainder, with the sign of the dividend;
/// `None` for a zero divisor and for the one overflowing dividend/divisor pair.
pub open spec fn int_rem(a: i32, b: i32) -> Option<i32> {
    if b == 0 || (a == i32::MIN && b == -1) {
        None
    } else if a >= 0 {
        Some((a as int % int_abs(b)) as i32)
    } else {
        Some((-((-(a as int)) % int_abs(b))) as i32)
    }
}

/// Division under the coercion matrix; `None` is an unsupported pairing or
/// an undefined integer quotient.
pub open spec fn eval_div(l: AbsVal, r: AbsVal) -> Option<AbsVal> {
    match (l, r) {
        (AbsVal::Int(a), AbsVal::Int(b)) => match int_div(a, b) {
            Some(q) => Some(AbsVal::Int(q)),
            None => None,
        },
        (AbsVal::Float(a), AbsVal::Float(b)) => Some(AbsVal::Float(single_div(a, b))),
        (AbsVal::Int(a), AbsVal::Float(b)) => Some(
            AbsVal::Float(single_div(single_of_int(a as i128), b)),
        ),
        (AbsVal::Float(a), AbsVal::Int(b)) => Some(
            AbsVal::Float(single_div(a, single_of_int(b as i128))),
        ),
        (AbsVal::Bool(a), AbsVal::Bool(b)) => Some(
            AbsVal::Float(single_div(bool_bits(a), bool_bits(b))),
        ),
        (AbsVal::Int(a), AbsVal::Bool(b)) => Some(
            AbsVal::Float(single_div(single_of_int(a as i128), bool_bits(b))),
        ),
        (AbsVal::Bool(a), AbsVal::Int(b)) => Some(
            AbsVal::Float(single_div(bool_bits(a), single_of_int(b as i128))),
        ),
        (AbsVal::Float(a), AbsVal::Bool(b)) => Some(AbsVal::Float(single_div(a, bool_bits(b)))),
        (AbsVal::Bool(a), AbsVal::Float(b)) => Some(AbsVal::Float(single_div(bool_bits(a), b))),
        _ => None,
    }
}

/// Remainder under the coercion matrix; `None` is an unsupported pairing or
/// an undefined integer remainder.
pub open spec fn eval_rem(l: AbsVal, r: AbsVal) -> Option<AbsVal> {
    match (l, r) {
        (AbsVal::Int(a), AbsVal::Int(b)) => match int_rem(a, b) {
            Some(q) => Some(AbsVal::Int(q)),
            None => None,
        },
        (AbsVal::Float(a), AbsVal::Float(b)) => Some(AbsVal::Float(single_rem(a, b))),
        (AbsVal::Int(a), AbsVal::Float(b)) => Some(
            AbsVal::Float(single_rem(single_of_int(a as i128), b)),
        ),
        (AbsVal::Float(a), AbsVal::Int(b)) => Some(
            AbsVal::Float(single_rem(a, single_of_int(b as i128))),
        ),
        (AbsVal::Bool(a), AbsVal::Bool(b)) => Some(
            AbsVal::Float(single_rem(bool_bits(a), bool_bits(b))),
        ),
        (AbsVal::Int(a), AbsVal::Bool(b)) => Some(
            AbsVal::Float(single_rem(single_of_int(a as i128), bool_bits(b))),
        ),
        (AbsVal::Bool(a), AbsVal::Int(b)) => Some(
            AbsVal::Float(single_rem(bool_bits(a), single_of_int(b as i128))),
        ),
        (AbsVal::Float(a), AbsVal::Bool(b)) => Some(AbsVal::Float(single_rem(a, bool_bits(b)))),
        (AbsVal::Bool(a), AbsVal::Float(b)) => Some(AbsVal::Float(single_rem(bool_bits(a), b))),
        _ => None,
    }
}

/// The magnitude of a mathematical integer.
pub open spec fn mag(x: int) -> int {
    if x >= 0 {
        x
    } else {
        -x
    }
}

/// The exact integer power: one multiplied by the base, exponent many times.
pub open spec fn int_pow(b: int, e: nat) -> int
    decreases e,
{
    if e == 0 {
        1
    } else {
        b * int_pow(b, (e - 1) as nat)
    }
}

/// The unsigned exponent a 32-bit integer denotes when taken as a word:
/// non-negative values directly, negative values wrapped around 32 bits.
pub open spec fn wrap_exp(x: i32) -> nat {
    if x >= 0 {
        x as nat
    } else {
        (x + 0x1_0000_0000) as nat
    }
}

proof fn lemma_mag_mul(b: int, y: int)
    ensures
        mag(b * y) == mag(b) * mag(y),
{
    if b >= 0 && y >= 0 {
        assert(b * y >= 0) by (nonlinear_arith)
            requires
                b >= 0,
                y >= 0,
        ;
    } else if b >= 0 && y < 0 {
        assert(b * y <= 0) by (nonlinear_arith)
            requires
                b >= 0,
                y < 0,
        ;
        assert(-(b * y) == b * (-y)) by (nonlinear_arith);
    } else if b < 0 && y >= 0 {
        assert(b * y <= 0) by (nonlinear_arith)
            requires
                b < 0,
                y >= 0,
        ;
        assert(-(b * y) == (-b) * y) by (nonlinear_arith);
    } else {
        assert(b * y >= 0) by (nonlinear_arith)
            requires
                b < 0,
                y < 0,
        ;
        assert(b * y == (-b) * (-y)) by (nonlinear_arith);
    }
}

proof fn lemma_int_pow_zero(e: nat)
    requires
        e > 0,
    ensures
        int_pow(0, e) == 0,
    decreases e,
{
    if e > 1 {
        lemma_int_pow_zero((e - 1) as nat);
    }
}

proof fn lemma_int_pow_one(e: nat)
    ensures
        int_pow(1, e) == 1,
    decreases e,
{
    if e > 0 {
        lemma_int_pow_one((e - 1) as nat);
    }
}

proof fn lemma_int_pow_neg_one(e: nat)
    ensures
        int_pow(-1, e) == if e % 2 == 0 {
            1int
        } else {
            -1int
        },
    decreases e,
{
    if e > 0 {
        lemma_int_pow_neg_one((e - 1) as nat);
    }
}

proof fn lemma_int_pow_mag_grows(b: int, k: nat, e: nat)
    requires
        mag(b) >= 2,
        k <= e,
    ensures
        mag(int_pow(b, e)) >= mag(int_pow(b, k)),
        k < e ==> mag(int_pow(b, e)) >= 2 * mag(int_pow(b, k)),
    decreases e,
{
    if k < e {
        lemma_int_pow_mag_grows(b, k, (e - 1) as nat);
        let y = int_pow(b, (e - 1) as nat);
        lemma_mag_mul(b, y);
        assert(mag(b) * mag(y) >= 2 * mag(y)) by (nonlinear_arith)
            requires
                mag(b) >= 2,
                mag(y) >= 0,
        ;
    }
}

/// The float bit pattern a numeric operand contributes to exponentiation.
pub open spec fn pow_base(v: AbsVal) -> Option<u32> {
    match v {
        AbsVal::Int(i) => Some(single_of_int(i as i128)),
        AbsVal::Float(b) => Some(b),
        _ => None,
    }
}

/// The integer exponent a numeric operand denotes: an integer directly, a
/// float only when its value is an exact integer.
pub open spec fn pow_exponent(v: AbsVal) -> Option<i128> {
    match v {
        AbsVal::Int(i) => Some(i as i128),
        AbsVal::Float(b) => {
            let c = single_to_int(b, false);
            if c.1 {
                Some(c.0)
            } else {
                None
            }
        },
        _ => None,
    }
}

/// Exponentiation, always yielding a float. Two integers compute the exact
/// integer power (the exponent taken as a 32-bit word) and convert once;
/// an out-of-range integer power is unsupported. Any other numeric pairing
/// with an exact integer exponent computes the float power by squaring, a
/// negative exponent through the reciprocal. `None` is an unsupported
/// pairing or a non-integral float exponent.
pub open spec fn eval_pow(l: AbsVal, r: AbsVal) -> Option<AbsVal> {
    match (l, r) {
        (AbsVal::Int(a), AbsVal::Int(b)) => {
            let v = int_pow(a as int, wrap_exp(b));
            if i32::MIN <= v <= i32::MAX {
                Some(AbsVal::Float(single_of_int(v as i128)))
            } else {
                None
            }
        },
        _ => match (pow_base(l), pow_exponent(r)) {
            (Some(base), Some(e)) => if e >= 0 {
                Some(AbsVal::Float(single_pow(base, e as nat)))
            } else {
                Some(AbsVal::Float(single_div(ONE_BITS, single_pow(base, (-(e as int)) as nat))))
            },
            _ => None,
        },
    }
}

/// True when two scalars hold the same kind of value.
pub open spec fn same_kind(l: AbsVal, r: AbsVal) -> bool {
    match (l, r) {
        (AbsVal::Int(_), AbsVal::Int(_)) => true,
        (AbsVal::Float(_), AbsVal::Float(_)) => true,
        (AbsVal::Str(_), AbsVal::Str(_)) => true,
        (AbsVal::Bool(_), AbsVal::Bool(_)) => true,
        (AbsVal::Null, AbsVal::Null) => true,
        _ => false,
    }
}

/// Equality: same-kind comparison only; mismatched kinds are unequal.
/// Floats compare by IEEE equality.
pub open spec fn val_eq(l: AbsVal, r: AbsVal) -> bool {
    match (l, r) {
        (AbsVal::Int(a), AbsVal::Int(b)) => a == b,
        (AbsVal::Float(a), AbsVal::Float(b)) => single_cmp(a, b) == 1,
        (AbsVal::Str(a), AbsVal::Str(b)) => a == b,
        (AbsVal::Bool(a), AbsVal::Bool(b)) => a == b,
        _ => false,
    }
}

/// Inequality: same-kind comparison only; mismatched kinds compare false
/// under every relational operator, inequality included.
pub open spec fn val_neq(l: AbsVal, r: AbsVal) -> bool {
    match (l, r) {
        (AbsVal::Int(a), AbsVal::Int(b)) => a != b,
        (AbsVal::Float(a), AbsVal::Float(b)) => single_cmp(a, b) != 1 && single_cmp(a, b) != 3,
        (AbsVal::Str(a), AbsVal::Str(b)) => a != b,
        (AbsVal::Bool(a), AbsVal::Bool(b)) => a != b,
        _ => false,
    }
}

/// Strictly-below: same-kind comparison only; false on mismatched kinds.
/// Strings compare lexicographically by character.
pub open spec fn val_lt(l: AbsVal, r: AbsVal) -> bool {
    match (l, r) {
        (AbsVal::Int(a), AbsVal::Int(b)) => a < b,
        (AbsVal::Float(a), AbsVal::Float(b)) => single_cmp(a, b) == 0,
        (AbsVal::Str(a), AbsVal::Str(b)) => lex_lt(a, b),
        (AbsVal::Bool(a), AbsVal::Bool(b)) => !a && b,
        _ => false,
    }
}

/// At-most: same-kind comparison only; false on mismatched kinds.
pub open spec fn val_le(l: AbsVal, r: AbsVal) -> bool {
    match (l, r) {
        (AbsVal::Int(a), AbsVal::Int(b)) => a <= b,
        (AbsVal::Float(a), AbsVal::Float(b)) => single_cmp(a, b) == 0 || single_cmp(a, b) == 1,
        (AbsVal::Str(a), AbsVal::Str(b)) => lex_lt(a, b) || a == b,
        (AbsVal::Bool(a), AbsVal::Bool(b)) => !a || b,
        _ => false,
    }
}

/// Strictly-above: same-kind comparison only; false on mismatched kinds.
pub open spec fn val_gt(l: AbsVal, r: AbsVal) -> bool {
    match (l, r) {
        (AbsVal::Int(a), AbsVal::Int(b)) => a > b,
        (AbsVal::Float(a), AbsVal::Float(b)) => single_cmp(a, b) == 2,
        (AbsVal::Str(a), AbsVal::Str(b)) => lex_lt(b, a),
        (AbsVal::Bool(a), AbsVal::Bool(b)) => a && !b,
        _ => false,
    }
}

/// At-least: same-kind comparison only; false on mismatched kinds.
pub open spec fn val_ge(l: AbsVal, r: AbsVal) -> bool {
    match (l, r) {
        (AbsVal::Int(a), AbsVal::Int(b)) => a >= b,
        (AbsVal::Float(a), AbsVal::Float(b)) => single_cmp(a, b) == 1 || single_cmp(a, b) == 2,
        (AbsVal::Str(a), AbsVal::Str(b)) => lex_lt(b, a) || a == b,
        (AbsVal::Bool(a), AbsVal::Bool(b)) => a || !b,
        _ => false,
    }
}

impl ScalarType {
    /// A copy of this value; values are immutable once produced and copied,
    /// never aliased.
    pub fn duplicate(&self) -> (r: ScalarType)
        ensures
            r@ == self@,
    {
        match self {
            ScalarType::Int(i) => ScalarType::Int(*i),
            ScalarType::Float(b) => ScalarType::Float(*b),
            ScalarType::Str(s) => ScalarType::Str(s.clone()),
            ScalarType::Bool(b) => ScalarType::Bool(*b),
            ScalarType::Null => ScalarType::Null,
        }
    }

    /// Renders this value to text: strings verbatim, numbers in decimal,
    /// booleans as `true`/`false`, null as `Null`.
    pub fn render_text(&self) -> (r: String)
        ensures
            r@ == render(self@),
    {
        match self {
            ScalarType::Int(i) => i32_to_string(*i),
            ScalarType::Float(b) => {
                let c = bits_to_int(*b, false);
                if c.1 {
                    i128_to_string(c.0)
                } else {
                    render_bits(*b)
                }
            },
            ScalarType::Str(s) => s.clone(),
            ScalarType::Bool(b) => {
                if *b {
                    "true".to_owned()
                } else {
                    "false".to_owned()
                }
            },
            ScalarType::Null => "Null".to_owned(),
        }
    }

    fn to_float_operand(&self) -> (r: Option<u32>)
        ensures
            r == pow_base(self@),
    {
        match self {
            ScalarType::Int(i) => Some(int_to_bits(*i as i128)),
            ScalarType::Float(b) => Some(*b),
            _ => None,
        }
    }

    /// Addition under the coercion matrix; `None` is an unsupported pairing.
    pub fn add(&self, rhs: &ScalarType) -> (r: Option<ScalarType>)
        ensures
            match r {
                Some(v) => eval_add(self@, rhs@) == Some(v@),
                None => eval_add(self@, rhs@) is None,
            },
    {
        match (self, rhs) {
            (ScalarType::Int(a), ScalarType::Int(b)) => Some(ScalarType::Int(a.wrapping_add(*b))),
            (ScalarType::Float(a), ScalarType::Float(b)) => Some(
                ScalarType::Float(add_bits(*a, *b)),
            ),
            (ScalarType::Int(a), ScalarType::Float(b)) => Some(
                ScalarType::Float(add_bits(int_to_bits(*a as i128), *b)),
            ),
            (ScalarType::Float(a), ScalarType::Int(b)) => Some(
                ScalarType::Float(add_bits(*a, int_to_bits(*b as i128))),
            ),
            (ScalarType::Str(a), ScalarType::Str(b)) => {
                let mut s = a.clone();
                s.append(b.as_str());
                Some(ScalarType::Str(s))
            },
            (ScalarType::Bool(a), ScalarType::Bool(b)) => Some(
                ScalarType::Float(add_bits(if *a { ONE_BITS } else { 0 }, if *b { ONE_BITS } else { 0 })),
            ),
            (ScalarType::Int(a), ScalarType::Bool(b)) => Some(
                ScalarType::Float(add_bits(int_to_bits(*a as i128), if *b { ONE_BITS } else { 0 })),
            ),
            (ScalarType::Bool(a), ScalarType::Int(b)) => Some(
                ScalarType::Float(add_bits(if *a { ONE_BITS } else { 0 }, int_to_bits(*b as i128))),
            ),
            (ScalarType::Float(a), ScalarType::Bool(b)) => Some(
                ScalarType::Float(add_bits(*a, if *b { ONE_BITS } else { 0 })),
            ),
            (ScalarType::Bool(a), ScalarType::Float(b)) => Some(
                ScalarType::Float(add_bits(if *a { ONE_BITS } else { 0 }, *b)),
            ),
            (ScalarType::Str(a), ScalarType::Bool(_)) | (ScalarType::Str(a), ScalarType::Int(_))
            | (ScalarType::Str(a), ScalarType::Float(_)) | (ScalarType::Str(a), ScalarType::Null) => {
                let mut s = a.clone();
                let t = rhs.render_text();
                s.append(t.as_str());
                Some(ScalarType::Str(s))
            },
            (ScalarType::Bool(_), ScalarType::Str(b)) | (ScalarType::Int(_), ScalarType::Str(b))
            | (ScalarType::Float(_), ScalarType::Str(b)) | (ScalarType::Null, ScalarType::Str(b)) => {
                let mut s = self.render_text();
                s.append(b.as_str());
                Some(ScalarType::Str(s))
            },
            _ => None,
        }
    }

    /// Subtraction under the coercion matrix; for a string on the left the
    /// first occurrence of the right operand's rendering is removed.
    pub fn sub(&self, rhs: &ScalarType) -> (r: Option<ScalarType>)
        ensures
            match r {
                Some(v) => eval_sub(self@, rhs@) == Some(v@),
                None => eval_sub(self@, rhs@) is None,
            },
    {
        match (self, rhs) {
            (ScalarType::Int(a), ScalarType::Int(b)) => Some(ScalarType::Int(a.wrapping_sub(*b))),
            (ScalarType::Float(a), ScalarType::Float(b)) => Some(
                ScalarType::Float(sub_bits(*a, *b)),
            ),
            (ScalarType::Int(a), ScalarType::Float(b)) => Some(
                ScalarType::Float(sub_bits(int_to_bits(*a as i128), *b)),
            ),
            (ScalarType::Float(a), ScalarType::Int(b)) => Some(
                ScalarType::Float(sub_bits(*a, int_to_bits(*b as i128))),
            ),
            (ScalarType::Bool(a), ScalarType::Bool(b)) => Some(
                ScalarType::Float(sub_bits(if *a { ONE_BITS } else { 0 }, if *b { ONE_BITS } else { 0 })),
            ),
            (ScalarType::Int(a), ScalarType::Bool(b)) => Some(
                ScalarType::Float(sub_bits(int_to_bits(*a as i128), if *b { ONE_BITS } else { 0 })),
            ),
            (ScalarType::Bool(a), ScalarType::Int(b)) => Some(
                ScalarType::Float(sub_bits(if *a { ONE_BITS } else { 0 }, int_to_bits(*b as i128))),
            ),
            (ScalarType::Float(a), ScalarType::Bool(b)) => Some(
                ScalarType::Float(sub_bits(*a, if *b { ONE_BITS } else { 0 })),
            ),
            (ScalarType::Bool(a), ScalarType::Float(b)) => Some(
                ScalarType::Float(sub_bits(if *a { ONE_BITS } else { 0 }, *b)),
            ),
            (ScalarType::Str(a), ScalarType::Str(b)) => Some(
                ScalarType::Str(remove_first_occurrence(a.as_str(), b.as_str())),
            ),
            (ScalarType::Str(a), ScalarType::Bool(_)) | (ScalarType::Str(a), ScalarType::Int(_))
            | (ScalarType::Str(a), ScalarType::Float(_)) | (ScalarType::Str(a), ScalarType::Null) => {
                let t = rhs.render_text();
                Some(ScalarType::Str(remove_first_occurrence(a.as_str(), t.as_str())))
            },
            _ => None,
        }
    }

    /// Multiplication under the coercion matrix; strings do not multiply.
    pub fn mul(&self, rhs: &ScalarType) -> (r: Option<ScalarType>)
        ensures
            match r {
                Some(v) => eval_mul(self@, rhs@) == Some(v@),
                None => eval_mul(self@, rhs@) is None,
            },
    {
        match (self, rhs) {
            (ScalarType::Int(a), ScalarType::Int(b)) => Some(ScalarType::Int(a.wrapping_mul(*b))),
            (ScalarType::Float(a), ScalarType::Float(b)) => Some(
                ScalarType::Float(mul_bits(*a, *b)),
            ),
            (ScalarType::Int(a), ScalarType::Float(b)) => Some(
                ScalarType::Float(mul_bits(int_to_bits(*a as i128), *b)),
            ),
            (ScalarType::Float(a), ScalarType::Int(b)) => Some(
                ScalarType::Float(mul_bits(*a, int_to_bits(*b as i128))),
            ),
            (ScalarType::Bool(a), ScalarType::Bool(b)) => Some(
                ScalarType::Float(mul_bits(if *a { ONE_BITS } else { 0 }, if *b { ONE_BITS } else { 0 })),
            ),
            (ScalarType::Int(a), ScalarType::Bool(b)) => Some(
                ScalarType::Float(mul_bits(int_to_bits(*a as i128), if *b { ONE_BITS } else { 0 })),
            ),
            (ScalarType::Bool(a), ScalarType::Int(b)) => Some(
                ScalarType::Float(mul_bits(if *a { ONE_BITS } else { 0 }, int_to_bits(*b as i128))),
            ),
            (ScalarType::Float(a), ScalarType::Bool(b)) => Some(
                ScalarType::Float(mul_bits(*a, if *b { ONE_BITS } else { 0 })),
            ),
            (ScalarType::Bool(a), ScalarType::Float(b)) => Some(
                ScalarType::Float(mul_bits(if *a { ONE_BITS } else { 0 }, *b)),
            ),
            _ => None,
        }
    }

    fn int_div_exec(a: i32, b: i32) -> (r: Option<i32>)
        ensures
            r == int_div(a, b),
    {
        proof {
            if b != 0 && !(a == i32::MIN && b == -1) {
                let x = a as int;
                let d = b as int;
                assert(x < 0 ==> x * -1 == int_abs(a));
                assert(x >= 0 ==> x == int_abs(a));
                assert(d < 0 ==> d * -1 == int_abs(b));
                assert(d > 0 ==> d == int_abs(b));
                vstd::arithmetic::div_mod::lemma_div_basics_4(int_abs(a), int_abs(b));
                vstd::arithmetic::div_mod::lemma_div_basics_5(int_abs(a), int_abs(b));
                if int_abs(b) >= 2 {
                    vstd::arithmetic::div_mod::lemma_div_is_ordered_by_denominator(
                        int_abs(a),
                        2,
                        int_abs(b),
                    );
                    vstd::arithmetic::div_mod::lemma_div_is_ordered(
                        int_abs(a),
                        0x8000_0000,
                        2,
                    );
                    assert(int_abs(a) / int_abs(b) <= 0x4000_0000);
                }
                if x == 0 {
                    assert(int_abs(a) / int_abs(b) == 0);
                }
            }
        }
        match a.checked_div(b) {
            Some(q) => Some(q),
            None => None,
        }
    }

    fn int_rem_exec(a: i32, b: i32) -> (r: Option<i32>)
        ensures
            r == int_rem(a, b),
    {
        proof {
            if b != 0 && !(a == i32::MIN && b == -1) {
                let x = a as int;
                let d = b as int;
                assert(x < 0 ==> x * -1 == -x);
                assert(d < 0 ==> d * -1 == int_abs(b));
                assert(d > 0 ==> d == int_abs(b));
                if x == 0 {
                    assert(0int % int_abs(b) == 0);
                }
            }
        }
        match a.checked_rem(b) {
            Some(q) => Some(q),
            None => None,
        }
    }

    /// Division under the coercion matrix; an undefined integer quotient
    /// (zero divisor, overflow) is unsupported.
    pub fn div(&self, rhs: &ScalarType) -> (r: Option<ScalarType>)
        ensures
            match r {
                Some(v) => eval_div(self@, rhs@) == Some(v@),
                None => eval_div(self@, rhs@) is None,
            },
    {
        match (self, rhs) {
            (ScalarType::Int(a), ScalarType::Int(b)) => match Self::int_div_exec(*a, *b) {
                Some(q) => Some(ScalarType::Int(q)),
                None => None,
            },
            (ScalarType::Float(a), ScalarType::Float(b)) => Some(
                ScalarType::Float(div_bits(*a, *b)),
            ),
            (ScalarType::Int(a), ScalarType::Float(b)) => Some(
                ScalarType::Float(div_bits(int_to_bits(*a as i128), *b)),
            ),
            (ScalarType::Float(a), ScalarType::Int(b)) => Some(
                ScalarType::Float(div_bits(*a, int_to_bits(*b as i128))),
            ),
            (ScalarType::Bool(a), ScalarType::Bool(b)) => Some(
                ScalarType::Float(div_bits(if *a { ONE_BITS } else { 0 }, if *b { ONE_BITS } else { 0 })),
            ),
            (ScalarType::Int(a), ScalarType::Bool(b)) => Some(
                ScalarType::Float(div_bits(int_to_bits(*a as i128), if *b { ONE_BITS } else { 0 })),
            ),
            (ScalarType::Bool(a), ScalarType::Int(b)) => Some(
                ScalarType::Float(div_bits(if *a { ONE_BITS } else { 0 }, int_to_bits(*b as i128))),
            ),
            (ScalarType::Float(a), ScalarType::Bool(b)) => Some(
                ScalarType::Float(div_bits(*a, if *b { ONE_BITS } else { 0 })),
            ),
            (ScalarType::Bool(a), ScalarType::Float(b)) => Some(
                ScalarType::Float(div_bits(if *a { ONE_BITS } else { 0 }, *b)),
            ),
            _ => None,
        }
    }

    /// Remainder under the coercion matrix; an undefined integer remainder
    /// (zero divisor) is unsupported.
    pub fn rem(&self, rhs: &ScalarType) -> (r: Option<ScalarType>)
        ensures
            match r {
                Some(v) => eval_rem(self@, rhs@) == Some(v@),
                None => eval_rem(self@, rhs@) is None,
            },
    {
        match (self, rhs) {
            (ScalarType::Int(a), ScalarType::Int(b)) => match Self::int_rem_exec(*a, *b) {
                Some(q) => Some(ScalarType::Int(q)),
                None => None,
            },
            (ScalarType::Float(a), ScalarType::Float(b)) => Some(
                ScalarType::Float(rem_bits(*a, *b)),
            ),
            (ScalarType::Int(a), ScalarType::Float(b)) => Some(
                ScalarType::Float(rem_bits(int_to_bits(*a as i128), *b)),
            ),
            (ScalarType::Float(a), ScalarType::Int(b)) => Some(
                ScalarType::Float(rem_bits(*a, int_to_bits(*b as i128))),
            ),
            (ScalarType::Bool(a), ScalarType::Bool(b)) => Some(
                ScalarType::Float(rem_bits(if *a { ONE_BITS } else { 0 }, if *b { ONE_BITS } else { 0 })),
            ),
            (ScalarType::Int(a), ScalarType::Bool(b)) => Some(
                ScalarType::Float(rem_bits(int_to_bits(*a as i128), if *b { ONE_BITS } else { 0 })),
            ),
            (ScalarType::Bool(a), ScalarType::Int(b)) => Some(
                ScalarType::Float(rem_bits(if *a { ONE_BITS } else { 0 }, int_to_bits(*b as i128))),
            ),
            (ScalarType::Float(a), ScalarType::Bool(b)) => Some(
                ScalarType::Float(rem_bits(*a, if *b { ONE_BITS } else { 0 })),
            ),
            (ScalarType::Bool(a), ScalarType::Float(b)) => Some(
                ScalarType::Float(rem_bits(if *a { ONE_BITS } else { 0 }, *b)),
            ),
            _ => None,
        }
    }

    fn wrap_exponent(b: i32) -> (r: u32)
        ensures
            r as nat == wrap_exp(b),
    {
        if b >= 0 {
            b as u32
        } else {
            ((b as i64) + 0x1_0000_0000i64) as u32
        }
    }

    fn int_pow_exec(b: i32, e: u32) -> (r: Option<i32>)
        ensures
            match r {
                Some(v) => v as int == int_pow(b as int, e as nat),
                None => int_pow(b as int, e as nat) > i32::MAX || int_pow(b as int, e as nat)
                    < i32::MIN,
            },
    {
        if e == 0 {
            return Some(1);
        }
        if b == 0 {
            proof {
                lemma_int_pow_zero(e as nat);
            }
            return Some(0);
        }
        if b == 1 {
            proof {
                lemma_int_pow_one(e as nat);
            }
            return Some(1);
        }
        if b == -1 {
            proof {
                lemma_int_pow_neg_one(e as nat);
            }
            if e % 2 == 0 {
                return Some(1);
            } else {
                return Some(-1);
            }
        }
        let mut acc: i32 = 1;
        let mut i: u32 = 0;
        while i < e
            invariant
                mag(b as int) >= 2,
                0 <= i <= e,
                acc as int == int_pow(b as int, i as nat),
            decreases e - i,
        {
            acc = match acc.checked_mul(b) {
                Some(v) => v,
                None => {
                    proof {
                        assert(int_pow(b as int, (i + 1) as nat) == (b as int) * int_pow(
                            b as int,
                            i as nat,
                        ));
                        lemma_int_pow_mag_grows(b as int, (i + 1) as nat, e as nat);
                    }
                    return None;
                },
            };
            i = i + 1;
        }
        Some(acc)
    }

    /// Exponentiation: numeric operands with an exact integer exponent;
    /// always yields a float. Two integers compute the exact integer power
    /// and convert it once.
    pub fn pow(&self, rhs: &ScalarType) -> (r: Option<ScalarType>)
        ensures
            match r {
                Some(v) => eval_pow(self@, rhs@) == Some(v@),
                None => eval_pow(self@, rhs@) is None,
            },
    {
        if let (ScalarType::Int(a), ScalarType::Int(b)) = (self, rhs) {
            let e = Self::wrap_exponent(*b);
            return match Self::int_pow_exec(*a, e) {
                Some(v) => Some(ScalarType::Float(int_to_bits(v as i128))),
                None => None,
            };
        }
        let base = match self.to_float_operand() {
            Some(b) => b,
            None => {
                return None;
            },
        };
        let e: i128 = match rhs {
            ScalarType::Int(i) => *i as i128,
            ScalarType::Float(b) => {
                let c = bits_to_int(*b, false);
                if c.1 {
                    c.0
                } else {
                    return None;
                }
            },
            _ => {
                return None;
            },
        };
        if e >= 0 {
            Some(ScalarType::Float(pow_bits(base, e as u128)))
        } else {
            let mag: u128 = ((-(e + 1)) as u128) + 1;
            Some(ScalarType::Float(div_bits(ONE_BITS, pow_bits(base, mag))))
        }
    }

    /// Equality under the comparison rules: mismatched kinds are unequal,
    /// never an error.
    pub fn eq_value(&self, rhs: &ScalarType) -> (r: bool)
        ensures
            r == val_eq(self@, rhs@),
    {
        match (self, rhs) {
            (ScalarType::Int(a), ScalarType::Int(b)) => *a == *b,
            (ScalarType::Float(a), ScalarType::Float(b)) => cmp_bits(*a, *b) == Some(Order::Equal),
            (ScalarType::Str(a), ScalarType::Str(b)) => {
                str_compare(a.as_str(), b.as_str()) == Order::Equal
            },
            (ScalarType::Bool(a), ScalarType::Bool(b)) => *a == *b,
            _ => false,
        }
    }

    /// Inequality under the comparison rules; false on mismatched kinds.
    /// Two floats are unequal only when they are ordered and distinct.
    pub fn ne_value(&self, rhs: &ScalarType) -> (r: bool)
        ensures
            r == val_neq(self@, rhs@),
    {
        match (self, rhs) {
            (ScalarType::Int(a), ScalarType::Int(b)) => !(*a == *b),
            (ScalarType::Float(a), ScalarType::Float(b)) => {
                match cmp_bits(*a, *b) {
                    Some(Order::Less) => true,
                    Some(Order::Greater) => true,
                    Some(Order::Equal) => false,
                    None => false,
                }
            },
            (ScalarType::Str(a), ScalarType::Str(b)) => {
                !(str_compare(a.as_str(), b.as_str()) == Order::Equal)
            },
            (ScalarType::Bool(a), ScalarType::Bool(b)) => !(*a == *b),
            _ => false,
        }
    }

    /// Strictly-below under the comparison rules; false on mismatched kinds.
    pub fn lt(&self, rhs: &ScalarType) -> (r: bool)
        ensures
            r == val_lt(self@, rhs@),
    {
        match (self, rhs) {
            (ScalarType::Int(a), ScalarType::Int(b)) => *a < *b,
            (ScalarType::Float(a), ScalarType::Float(b)) => cmp_bits(*a, *b) == Some(Order::Less),
            (ScalarType::Str(a), ScalarType::Str(b)) => {
                str_compare(a.as_str(), b.as_str()) == Order::Less
            },
            (ScalarType::Bool(a), ScalarType::Bool(b)) => !*a && *b,
            _ => false,
        }
    }

    /// At-most under the comparison rules; false on mismatched kinds.
    pub fn le(&self, rhs: &ScalarType) -> (r: bool)
        ensures
            r == val_le(self@, rhs@),
    {
        match (self, rhs) {
            (ScalarType::Int(a), ScalarType::Int(b)) => *a <= *b,
            (ScalarType::Float(a), ScalarType::Float(b)) => {
                let c = cmp_bits(*a, *b);
                c == Some(Order::Less) || c == Some(Order::Equal)
            },
            (ScalarType::Str(a), ScalarType::Str(b)) => {
                let c = str_compare(a.as_str(), b.as_str());
                c == Order::Less || c == Order::Equal
            },
            (ScalarType::Bool(a), ScalarType::Bool(b)) => !*a || *b,
            _ => false,
        }
    }

    /// Strictly-above under the comparison rules; false on mismatched kinds.
    pub fn gt(&self, rhs: &ScalarType) -> (r: bool)
        ensures
            r == val_gt(self@, rhs@),
    {
        match (self, rhs) {
            (ScalarType::Int(a), ScalarType::Int(b)) => *a > *b,
            (ScalarType::Float(a), ScalarType::Float(b)) => cmp_bits(*a, *b) == Some(
                Order::Greater,
            ),
            (ScalarType::Str(a), ScalarType::Str(b)) => {
                str_compare(a.as_str(), b.as_str()) == Order::Greater
            },
            (ScalarType::Bool(a), ScalarType::Bool(b)) => *a && !*b,
            _ => false,
        }
    }

    /// At-least under the comparison rules; false on mismatched kinds.
    pub fn ge(&self, rhs: &ScalarType) -> (r: bool)
        ensures
            r == val_ge(self@, rhs@),
    {
        match (self, rhs) {
            (ScalarType::Int(a), ScalarType::Int(b)) => *a >= *b,
            (ScalarType::Float(a), ScalarType::Float(b)) => {
                let c = cmp_bits(*a, *b);
                c == Some(Order::Greater) || c == Some(Order::Equal)
            },
            (ScalarType::Str(a), ScalarType::Str(b)) => {
                let c = str_compare(a.as_str(), b.as_str());
                c == Order::Greater || c == Order::Equal
            },
            (ScalarType::Bool(a), ScalarType::Bool(b)) => *a || !*b,
            _ => false,
        }
    }

    /// Three-way comparison: equal, above or below when the kinds agree and
    /// the values are ordered, nothing otherwise.
    pub fn partial_cmp(&self, rhs: &ScalarType) -> (r: Option<Order>)
        ensures
            (r == Some(Order::Equal)) == val_eq(self@, rhs@),
            (r == Some(Order::Greater)) == (!val_eq(self@, rhs@) && val_gt(self@, rhs@)),
            (r == Some(Order::Less)) == (!val_eq(self@, rhs@) && !val_gt(self@, rhs@) && val_lt(
                self@,
                rhs@,
            )),
    {
        if self.eq_value(rhs) {
            Some(Order::Equal)
        } else if self.gt(rhs) {
            Some(Order::Greater)
        } else if self.lt(rhs) {
            Some(Order::Less)
        } else {
            None
        }
    }
}

} // verus!
