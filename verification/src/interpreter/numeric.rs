//! Arithmetic and comparison on integers, as the language defines them.
//!
//! The language computes every arithmetic operator in double precision and,
//! where both operands are integers, converts the result back to a 32-bit
//! integer, cutting off the fraction and saturating at the ends of the
//! range. On two 32-bit integers that is the exact result of the operator,
//! cut off toward zero and clamped to the range, so it is computed here in
//! integers. Division by zero follows the same conversion of an infinity or
//! of an undefined quotient.
use vstd::prelude::*;
use vstd::arithmetic::div_mod::lemma_fundamental_div_mod;
use vstd::arithmetic::div_mod::lemma_div_pos_is_pos;
use vstd::arithmetic::div_mod::lemma_mod_bound;
use crate::ir::ast::ArithOp;
use crate::ir::ast::BoolOp;
use crate::ir::ast::Real;
use crate::ir::ast::RelOp;

verus! {

/// A number: an integer or a real.
#[derive(Clone, Copy, Debug, PartialEq, Eq)]
pub enum Number {
    Int(i32),
    Real(Real),
}

/// The nearest value to `x` in the range of a 32-bit integer.
pub open spec fn clamp(x: int) -> int {
    if x < i32::MIN {
        i32::MIN as int
    } else if x > i32::MAX {
        i32::MAX as int
    } else {
        x
    }
}

/// The absolute value of `x`.
pub open spec fn magnitude(x: int) -> int {
    if x < 0 {
        -x
    } else {
        x
    }
}

/// The quotient of `a` by `b`, cut off toward zero: the quotient of the
/// magnitudes, negated where the signs differ. Meant for `b != 0`.
pub open spec fn truncated_quotient(a: int, b: int) -> int {
    if a >= 0 && b > 0 {
        a / b
    } else if a < 0 && b > 0 {
        -((-a) / b)
    } else if a >= 0 {
        -(a / (-b))
    } else {
        (-a) / (-b)
    }
}

/// What an integer division by zero yields: the greatest integer for a
/// positive dividend, the least for a negative one, zero for zero.
pub open spec fn quotient_by_zero(a: int) -> int {
    if a > 0 {
        i32::MAX as int
    } else if a < 0 {
        i32::MIN as int
    } else {
        0
    }
}

/// The result of an arithmetic operator on two integers.
pub open spec fn integer_result(op: ArithOp, a: int, b: int) -> int {
    match op {
        ArithOp::Add => clamp(a + b),
        ArithOp::Sub => clamp(a - b),
        ArithOp::Mul => clamp(a * b),
        ArithOp::Div => if b == 0 {
            quotient_by_zero(a)
        } else {
            clamp(truncated_quotient(a, b))
        },
    }
}

/// The result of a relational operator on two integers.
pub open spec fn integer_relation(op: RelOp, a: int, b: int) -> bool {
    match op {
        RelOp::EQ => a == b,
        RelOp::GT => a > b,
        RelOp::LT => a < b,
        RelOp::GTE => a >= b,
        RelOp::LTE => a <= b,
    }
}

/// The result of a binary boolean operator.
pub open spec fn boolean_result(op: BoolOp, a: bool, b: bool) -> bool {
    match op {
        BoolOp::And => a && b,
        BoolOp::Or => a || b,
    }
}

/// `q` is the quotient of `a` by `b` cut off toward zero: `q * b` lies
/// between zero and `a`, and what is left of `a` is smaller in magnitude
/// than `b`.
pub open spec fn is_truncated_quotient(q: int, a: int, b: int) -> bool {
    &&& a >= 0 ==> 0 <= q * b <= a
    &&& a <= 0 ==> a <= q * b <= 0
    &&& magnitude(a - q * b) < magnitude(b)
}

/// At most one integer is the truncated quotient of `a` by `b`.
pub proof fn lemma_truncated_quotient_unique(q1: int, q2: int, a: int, b: int)
    requires
        b != 0,
        is_truncated_quotient(q1, a, b),
        is_truncated_quotient(q2, a, b),
    ensures
        q1 == q2,
{
    assert(q1 == q2) by (nonlinear_arith)
        requires
            b != 0,
            a >= 0 ==> 0 <= q1 * b <= a && 0 <= q2 * b <= a,
            a <= 0 ==> a <= q1 * b <= 0 && a <= q2 * b <= 0,
            -b < a - q1 * b < b || b < a - q1 * b < -b,
            -b < a - q2 * b < b || b < a - q2 * b < -b,
    ;
}

/// Integer division cuts off toward zero. For every dividend `a` and every
/// divisor `b` other than zero, the result of `/` is the truncated quotient
/// of `a` by `b`; the one quotient that does not fit in 32 bits, that of the
/// least integer by -1, gives the greatest integer.
pub proof fn lemma_division_truncates(a: i32, b: i32)
    requires
        b != 0,
    ensures
        a == i32::MIN && b == -1 ==> integer_result(ArithOp::Div, a as int, b as int) == i32::MAX,
        !(a == i32::MIN && b == -1) ==> is_truncated_quotient(
            integer_result(ArithOp::Div, a as int, b as int),
            a as int,
            b as int,
        ),
{
    let ma = magnitude(a as int);
    let mb = magnitude(b as int);
    let m = ma / mb;
    lemma_fundamental_div_mod(ma, mb);
    lemma_mod_bound(ma, mb);
    lemma_div_pos_is_pos(ma, mb);
    assert(ma == mb * m + ma % mb);
    assert(0 <= m <= ma) by (nonlinear_arith)
        requires
            ma == mb * m + ma % mb,
            0 <= ma % mb < mb,
            0 <= m,
            mb >= 1,
    ;
    let q = truncated_quotient(a as int, b as int);
    assert(q * b == (if a < 0 { -(m * mb) } else { m * mb })) by (nonlinear_arith)
        requires
            q == (if (a < 0) == (b < 0) { m } else { -m }),
            mb == (if b < 0 { -b } else { b as int }),
    ;
    assert(m * mb == mb * m) by (nonlinear_arith);
    if a == i32::MIN && b == -1 {
        assert(m == ma) by (nonlinear_arith)
            requires
                ma == mb * m + ma % mb,
                0 <= ma % mb < mb,
                mb == 1,
        ;
    } else {
        assert(-0x8000_0000 <= q <= 0x7fff_ffff) by (nonlinear_arith)
            requires
                q == (if (a < 0) == (b < 0) { m } else { -m }),
                0 <= m <= ma,
                ma <= 0x8000_0000,
                ma == mb * m + ma % mb,
                0 <= ma % mb < mb,
                mb >= 1,
                ma == 0x8000_0000 && mb == 1 ==> (a < 0) != (b < 0),
        ;
    }
}

/// The arithmetic operators on two integers.
pub fn integer_arith(op: ArithOp, a: i32, b: i32) -> (res: i32)
    ensures
        res == integer_result(op, a as int, b as int),
{
    let wide: i64 = match op {
        ArithOp::Add => a as i64 + b as i64,
        ArithOp::Sub => a as i64 - b as i64,
        ArithOp::Mul => {
            assert(-0x4000_0000_0000_0000 <= a * b <= 0x4000_0000_0000_0000) by (nonlinear_arith)
                requires
                    -0x8000_0000 <= a <= 0x7fff_ffff,
                    -0x8000_0000 <= b <= 0x7fff_ffff,
            ;
            a as i64 * b as i64
        },
        ArithOp::Div => {
            if b == 0 {
                if a > 0 {
                    i32::MAX as i64
                } else if a < 0 {
                    i32::MIN as i64
                } else {
                    0
                }
            } else {
                let ma: i64 = if a < 0 {
                    -(a as i64)
                } else {
                    a as i64
                };
                let mb: i64 = if b < 0 {
                    -(b as i64)
                } else {
                    b as i64
                };
                let m: i64 = ma / mb;
                proof {
                    lemma_fundamental_div_mod(ma as int, mb as int);
                    lemma_mod_bound(ma as int, mb as int);
                    lemma_div_pos_is_pos(ma as int, mb as int);
                    assert(0 <= m <= ma) by (nonlinear_arith)
                        requires
                            ma == mb * m + ma % mb,
                            0 <= ma % mb < mb,
                            0 <= m,
                            mb >= 1,
                    ;
                }
                if (a < 0) == (b < 0) {
                    m
                } else {
                    -m
                }
            }
        },
    };
    if wide < i32::MIN as i64 {
        i32::MIN
    } else if wide > i32::MAX as i64 {
        i32::MAX
    } else {
        wide as i32
    }
}

/// The relational operators on two integers.
pub fn integer_compare(op: RelOp, a: i32, b: i32) -> (res: bool)
    ensures
        res == integer_relation(op, a as int, b as int),
{
    match op {
        RelOp::EQ => a == b,
        RelOp::GT => a > b,
        RelOp::LT => a < b,
        RelOp::GTE => a >= b,
        RelOp::LTE => a <= b,
    }
}

/// The binary boolean operators.
pub fn boolean_op(op: BoolOp, a: bool, b: bool) -> (res: bool)
    ensures
        res == boolean_result(op, a, b),
{
    match op {
        BoolOp::And => a && b,
        BoolOp::Or => a || b,
    }
}

} // verus!
