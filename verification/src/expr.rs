//! Discriminant expressions and their typed evaluation.
//!
//! A discriminant is an expression over integer literals and arithmetic or
//! bitwise operators. Evaluation happens at the width and signedness of the
//! chosen integer type: every literal and every intermediate result must be
//! representable in that type, exactly as if the expression were written with
//! typed literals in the host language. Any violation (overflow, division by
//! zero, negation at an unsigned type, a bitwise operator on a negative
//! operand) makes the whole expression unevaluable.

use vstd::prelude::*;

use crate::int_type::IntTypeTag;

verus! {

/// A signed-magnitude integer, wide enough to hold every value of all twelve
/// supported discriminant types.
#[derive(Clone, Copy, Debug, PartialEq, Eq, Structural)]
pub struct IntVal {
    /// Whether the value is negative.
    pub neg: bool,
    /// The magnitude of the value.
    pub mag: u128,
}

impl IntVal {
    /// The mathematical value.
    pub open spec fn value(self) -> int {
        if self.neg {
            -(self.mag as int)
        } else {
            self.mag as int
        }
    }

    /// Canonical form: zero is never marked negative.
    pub open spec fn wf(self) -> bool {
        self.neg ==> self.mag > 0
    }

    /// The value of a nonnegative magnitude.
    pub fn from_mag(mag: u128) -> (r: IntVal)
        ensures
            r.wf(),
            r.value() == mag as int,
    {
        IntVal { neg: false, mag }
    }

    /// The negated value.
    pub fn negated(self) -> (r: IntVal)
        requires
            self.wf(),
        ensures
            r.wf(),
            r.value() == -self.value(),
    {
        if self.mag == 0 {
            self
        } else {
            IntVal { neg: !self.neg, mag: self.mag }
        }
    }

    /// Value comparison.
    pub fn le(self, other: IntVal) -> (r: bool)
        requires
            self.wf(),
            other.wf(),
        ensures
            r == (self.value() <= other.value()),
    {
        match (self.neg, other.neg) {
            (true, false) => true,
            (false, true) => false,
            (false, false) => self.mag <= other.mag,
            (true, true) => other.mag <= self.mag,
        }
    }
}

impl IntTypeTag {
    /// The smallest value of the type, as a signed-magnitude value.
    pub fn min_val(self) -> (r: IntVal)
        ensures
            r.wf(),
            r.value() == self.min_value(),
    {
        match self {
            IntTypeTag::I8 => IntVal { neg: true, mag: 128 },
            IntTypeTag::I16 => IntVal { neg: true, mag: 32768 },
            IntTypeTag::I32 => IntVal { neg: true, mag: 2147483648 },
            IntTypeTag::I64 => IntVal { neg: true, mag: 9223372036854775808 },
            IntTypeTag::I128 => IntVal { neg: true, mag: 170141183460469231731687303715884105728 },
            IntTypeTag::Isize => IntVal {
                neg: true,
                mag: ((-(isize::MIN as i128 + 1)) as u128) + 1,
            },
            _ => IntVal { neg: false, mag: 0 },
        }
    }

    /// The largest value of the type, as a signed-magnitude value.
    pub fn max_val(self) -> (r: IntVal)
        ensures
            r.wf(),
            r.value() == self.max_value(),
    {
        match self {
            IntTypeTag::I8 => IntVal { neg: false, mag: i8::MAX as u128 },
            IntTypeTag::U8 => IntVal { neg: false, mag: u8::MAX as u128 },
            IntTypeTag::I16 => IntVal { neg: false, mag: i16::MAX as u128 },
            IntTypeTag::U16 => IntVal { neg: false, mag: u16::MAX as u128 },
            IntTypeTag::I32 => IntVal { neg: false, mag: i32::MAX as u128 },
            IntTypeTag::U32 => IntVal { neg: false, mag: u32::MAX as u128 },
            IntTypeTag::I64 => IntVal { neg: false, mag: i64::MAX as u128 },
            IntTypeTag::U64 => IntVal { neg: false, mag: u64::MAX as u128 },
            IntTypeTag::I128 => IntVal { neg: false, mag: i128::MAX as u128 },
            IntTypeTag::U128 => IntVal { neg: false, mag: u128::MAX },
            IntTypeTag::Isize => IntVal { neg: false, mag: isize::MAX as u128 },
            IntTypeTag::Usize => IntVal { neg: false, mag: usize::MAX as u128 },
        }
    }

    /// Whether a value is representable in the type.
    pub fn val_in_range(self, v: IntVal) -> (r: bool)
        requires
            v.wf(),
        ensures
            r == self.in_range(v.value()),
    {
        self.min_val().le(v) && v.le(self.max_val())
    }
}

/// Every supported type's range lies within the signed-magnitude range of a
/// 128-bit magnitude.
pub proof fn lemma_tag_range_bounded(tag: IntTypeTag)
    ensures
        tag.max_value() <= u128::MAX as int,
        -(u128::MAX as int) <= tag.min_value(),
{
}

/// Canonical signed-magnitude values are unique: two well-formed values with
/// the same mathematical value have the same representation.
pub proof fn lemma_intval_value_unique(a: IntVal, b: IntVal)
    requires
        a.wf(),
        b.wf(),
        a.value() == b.value(),
    ensures
        a == b,
{
}

/// A discriminant expression: integer literals combined with negation, the
/// four basic arithmetic operators and the bitwise operators.
#[derive(Debug)]
pub enum IntExpr {
    Lit(u128),
    Neg(Box<IntExpr>),
    Add(Box<IntExpr>, Box<IntExpr>),
    Sub(Box<IntExpr>, Box<IntExpr>),
    Mul(Box<IntExpr>, Box<IntExpr>),
    Div(Box<IntExpr>, Box<IntExpr>),
    BitAnd(Box<IntExpr>, Box<IntExpr>),
    BitOr(Box<IntExpr>, Box<IntExpr>),
    BitXor(Box<IntExpr>, Box<IntExpr>),
}

/// `v` if it is representable in the type, and nothing otherwise.
pub open spec fn clip(v: int, tag: IntTypeTag) -> Option<int> {
    if tag.in_range(v) {
        Some(v)
    } else {
        None
    }
}

/// Division truncating toward zero, as the host language evaluates it.
pub open spec fn trunc_div(x: int, y: int) -> int {
    let ax = if x < 0 {
        -x
    } else {
        x
    };
    let ay = if y < 0 {
        -y
    } else {
        y
    };
    let q = ax / ay;
    if (x < 0) != (y < 0) {
        -q
    } else {
        q
    }
}

/// The value of an expression at the chosen type, if every literal and every
/// intermediate result is representable there.
pub open spec fn eval_spec(e: IntExpr, tag: IntTypeTag) -> Option<int>
    decreases e,
{
    match e {
        IntExpr::Lit(m) => clip(m as int, tag),
        IntExpr::Neg(a) => if tag.spec_is_signed() {
            match *a {
                // A negated literal is one value, as the host language reads
                // it, so the type's minimum is expressible.
                IntExpr::Lit(m) => clip(-(m as int), tag),
                _ => match eval_spec(*a, tag) {
                    Some(x) => clip(-x, tag),
                    None => None,
                },
            }
        } else {
            None
        },
        IntExpr::Add(a, b) => match (eval_spec(*a, tag), eval_spec(*b, tag)) {
            (Some(x), Some(y)) => clip(x + y, tag),
            _ => None,
        },
        IntExpr::Sub(a, b) => match (eval_spec(*a, tag), eval_spec(*b, tag)) {
            (Some(x), Some(y)) => clip(x - y, tag),
            _ => None,
        },
        IntExpr::Mul(a, b) => match (eval_spec(*a, tag), eval_spec(*b, tag)) {
            (Some(x), Some(y)) => clip(x * y, tag),
            _ => None,
        },
        IntExpr::Div(a, b) => match (eval_spec(*a, tag), eval_spec(*b, tag)) {
            (Some(x), Some(y)) => if y == 0 {
                None
            } else {
                clip(trunc_div(x, y), tag)
            },
            _ => None,
        },
        IntExpr::BitAnd(a, b) => match (eval_spec(*a, tag), eval_spec(*b, tag)) {
            (Some(x), Some(y)) => if x >= 0 && y >= 0 {
                clip(((x as u128) & (y as u128)) as int, tag)
            } else {
                None
            },
            _ => None,
        },
        IntExpr::BitOr(a, b) => match (eval_spec(*a, tag), eval_spec(*b, tag)) {
            (Some(x), Some(y)) => if x >= 0 && y >= 0 {
                clip(((x as u128) | (y as u128)) as int, tag)
            } else {
                None
            },
            _ => None,
        },
        IntExpr::BitXor(a, b) => match (eval_spec(*a, tag), eval_spec(*b, tag)) {
            (Some(x), Some(y)) => if x >= 0 && y >= 0 {
                clip(((x as u128) ^ (y as u128)) as int, tag)
            } else {
                None
            },
            _ => None,
        },
    }
}

/// The sum, unless its magnitude exceeds the 128-bit magnitude range.
fn add_vals(a: IntVal, b: IntVal) -> (r: Option<IntVal>)
    requires
        a.wf(),
        b.wf(),
    ensures
        match r {
            Some(v) => v.wf() && v.value() == a.value() + b.value(),
            None => a.value() + b.value() > u128::MAX as int || a.value() + b.value() < -(
            u128::MAX as int),
        },
{
    if a.neg == b.neg {
        match a.mag.checked_add(b.mag) {
            Some(m) => Some(
                IntVal {
                    neg: if m == 0 {
                        false
                    } else {
                        a.neg
                    },
                    mag: m,
                },
            ),
            None => None,
        }
    } else {
        if a.mag >= b.mag {
            Some(
                IntVal {
                    neg: if a.mag == b.mag {
                        false
                    } else {
                        a.neg
                    },
                    mag: a.mag - b.mag,
                },
            )
        } else {
            Some(IntVal { neg: b.neg, mag: b.mag - a.mag })
        }
    }
}

/// The product, unless its magnitude exceeds the 128-bit magnitude range.
fn mul_vals(a: IntVal, b: IntVal) -> (r: Option<IntVal>)
    requires
        a.wf(),
        b.wf(),
    ensures
        match r {
            Some(v) => v.wf() && v.value() == a.value() * b.value(),
            None => a.value() * b.value() > u128::MAX as int || a.value() * b.value() < -(
            u128::MAX as int),
        },
{
    proof {
        assert(a.value() * b.value() == if (a.neg != b.neg) && a.mag * b.mag != 0 {
            -((a.mag * b.mag) as int)
        } else {
            (a.mag * b.mag) as int
        }) by (nonlinear_arith)
            requires
                a.wf(),
                b.wf(),
        ;
    }
    match a.mag.checked_mul(b.mag) {
        Some(m) => Some(
            IntVal {
                neg: if m == 0 {
                    false
                } else {
                    a.neg != b.neg
                },
                mag: m,
            },
        ),
        None => None,
    }
}

/// The quotient, truncated toward zero.
fn div_vals(a: IntVal, b: IntVal) -> (r: IntVal)
    requires
        a.wf(),
        b.wf(),
        b.value() != 0,
    ensures
        r.wf(),
        r.value() == trunc_div(a.value(), b.value()),
{
    let q = a.mag / b.mag;
    IntVal {
        neg: if q == 0 {
            false
        } else {
            a.neg != b.neg
        },
        mag: q,
    }
}

/// Evaluates a discriminant expression at the chosen type.
pub fn eval(e: &IntExpr, tag: IntTypeTag) -> (r: Option<IntVal>)
    ensures
        match r {
            Some(v) => v.wf() && eval_spec(*e, tag) == Some(v.value()),
            None => eval_spec(*e, tag) is None,
        },
    decreases *e,
{
    match e {
        IntExpr::Lit(m) => {
            let v = IntVal::from_mag(*m);
            if tag.val_in_range(v) {
                Some(v)
            } else {
                None
            }
        },
        IntExpr::Neg(a) => {
            if !tag.is_signed() {
                return None;
            }
            match &**a {
                IntExpr::Lit(m) => {
                    let v = IntVal::from_mag(*m).negated();
                    if tag.val_in_range(v) {
                        Some(v)
                    } else {
                        None
                    }
                },
                _ => {
                    match eval(&**a, tag) {
                        Some(x) => {
                            let v = x.negated();
                            if tag.val_in_range(v) {
                                Some(v)
                            } else {
                                None
                            }
                        },
                        None => None,
                    }
                },
            }
        },
        IntExpr::Add(a, b) => {
            match (eval(&**a, tag), eval(&**b, tag)) {
                (Some(x), Some(y)) => {
                    match add_vals(x, y) {
                        Some(v) => {
                            if tag.val_in_range(v) {
                                Some(v)
                            } else {
                                None
                            }
                        },
                        None => {
                            proof {
                                lemma_tag_range_bounded(tag);
                            }
                            None
                        },
                    }
                },
                _ => None,
            }
        },
        IntExpr::Sub(a, b) => {
            match (eval(&**a, tag), eval(&**b, tag)) {
                (Some(x), Some(y)) => {
                    match add_vals(x, y.negated()) {
                        Some(v) => {
                            if tag.val_in_range(v) {
                                Some(v)
                            } else {
                                None
                            }
                        },
                        None => {
                            proof {
                                lemma_tag_range_bounded(tag);
                            }
                            None
                        },
                    }
                },
                _ => None,
            }
        },
        IntExpr::Mul(a, b) => {
            match (eval(&**a, tag), eval(&**b, tag)) {
                (Some(x), Some(y)) => {
                    match mul_vals(x, y) {
                        Some(v) => {
                            if tag.val_in_range(v) {
                                Some(v)
                            } else {
                                None
                            }
                        },
                        None => {
                            proof {
                                lemma_tag_range_bounded(tag);
                            }
                            None
                        },
                    }
                },
                _ => None,
            }
        },
        IntExpr::Div(a, b) => {
            match (eval(&**a, tag), eval(&**b, tag)) {
                (Some(x), Some(y)) => {
                    if y.mag == 0 {
                        return None;
                    }
                    let v = div_vals(x, y);
                    if tag.val_in_range(v) {
                        Some(v)
                    } else {
                        None
                    }
                },
                _ => None,
            }
        },
        IntExpr::BitAnd(a, b) => {
            match (eval(&**a, tag), eval(&**b, tag)) {
                (Some(x), Some(y)) => {
                    if x.neg || y.neg {
                        return None;
                    }
                    let v = IntVal::from_mag(x.mag & y.mag);
                    if tag.val_in_range(v) {
                        Some(v)
                    } else {
                        None
                    }
                },
                _ => None,
            }
        },
        IntExpr::BitOr(a, b) => {
            match (eval(&**a, tag), eval(&**b, tag)) {
                (Some(x), Some(y)) => {
                    if x.neg || y.neg {
                        return None;
                    }
                    let v = IntVal::from_mag(x.mag | y.mag);
                    if tag.val_in_range(v) {
                        Some(v)
                    } else {
                        None
                    }
                },
                _ => None,
            }
        },
        IntExpr::BitXor(a, b) => {
            match (eval(&**a, tag), eval(&**b, tag)) {
                (Some(x), Some(y)) => {
                    if x.neg || y.neg {
                        return None;
                    }
                    let v = IntVal::from_mag(x.mag ^ y.mag);
                    if tag.val_in_range(v) {
                        Some(v)
                    } else {
                        None
                    }
                },
                _ => None,
            }
        },
    }
}

} // verus!
