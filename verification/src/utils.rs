//! Integer division helpers.
use vstd::prelude::*;

verus! {

/// Computes the quotient and remainder using Euclidean division.
///
/// This is similar to Python's `divmod` function.
pub fn divmod_i64(lhs: i64, rhs: i64) -> (r: (i64, i64))
    requires
        rhs > 0,
    ensures
        r.0 == lhs as int / rhs as int,
        r.1 == lhs as int % rhs as int,
        0 <= r.1 < rhs,
        lhs == r.0 * rhs + r.1,
{
    proof {
        assert(i64::MIN <= lhs as int / rhs as int <= i64::MAX) by (nonlinear_arith)
            requires
                rhs >= 1,
                i64::MIN <= lhs <= i64::MAX,
        {
            if lhs >= 0 {
                assert(lhs as int / rhs as int <= lhs);
            } else {
                assert(lhs as int / rhs as int >= lhs);
            }
        }
        vstd::arithmetic::div_mod::lemma_fundamental_div_mod(lhs as int, rhs as int);
        assert(lhs as int % rhs as int >= 0);
    }
    let q = lhs.checked_div_euclid(rhs).unwrap();
    let m = lhs.checked_rem_euclid(rhs).unwrap();
    (q, m)
}

/// Computes the quotient and remainder using Euclidean division.
pub fn divmod_i32(lhs: i32, rhs: i32) -> (r: (i32, i32))
    requires
        rhs > 0,
    ensures
        r.0 == lhs as int / rhs as int,
        r.1 == lhs as int % rhs as int,
        0 <= r.1 < rhs,
        lhs == r.0 * rhs + r.1,
{
    let (q, m) = divmod_i64(lhs as i64, rhs as i64);
    proof {
        assert(i32::MIN <= lhs as int / rhs as int <= i32::MAX) by (nonlinear_arith)
            requires
                rhs >= 1,
                i32::MIN <= lhs <= i32::MAX,
        {
            if lhs >= 0 {
                assert(lhs as int / rhs as int <= lhs);
            } else {
                assert(lhs as int / rhs as int >= lhs);
            }
        }
    }
    (q as i32, m as i32)
}

/// Truncating division, the rounding of `/` on signed integers.
pub open spec fn trunc_div(a: int, b: int) -> int {
    if a >= 0 { a / b } else { -((-a) / b) }
}

/// The remainder that goes with [`trunc_div`]: it takes the sign of `a`.
pub open spec fn trunc_rem(a: int, b: int) -> int {
    if a >= 0 { a % b } else { -((-a) % b) }
}

/// Computes the quotient and remainder of a positive divisor using truncating division.
fn divrem_positive_i32(lhs: i32, rhs: i32) -> (r: (i32, i32))
    requires
        rhs > 0,
    ensures
        r.0 == trunc_div(lhs as int, rhs as int),
        r.1 == trunc_rem(lhs as int, rhs as int),
        lhs == r.0 * rhs + r.1,
{
    let q = lhs / rhs;
    let m = lhs % rhs;
    proof {
        let a = lhs as int;
        let b = rhs as int;
        assert(q == trunc_div(a, b));
        assert(m == trunc_rem(a, b));
        if a >= 0 {
            vstd::arithmetic::div_mod::lemma_fundamental_div_mod(a, b);
            assert(a == (a / b) * b + a % b) by (nonlinear_arith)
                requires
                    a == b * (a / b) + a % b,
            ;
        } else {
            vstd::arithmetic::div_mod::lemma_fundamental_div_mod(-a, b);
            assert(a == (-((-a) / b)) * b + (-((-a) % b))) by (nonlinear_arith)
                requires
                    -a == b * ((-a) / b) + (-a) % b,
            ;
        }
    }
    (q, m)
}

/// Truncating division: the quotient rounds toward zero.
pub open spec fn trunc_quotient(a: int, b: int) -> int {
    if b > 0 {
        trunc_div(a, b)
    } else {
        -trunc_div(a, -b)
    }
}

/// The remainder that goes with [`trunc_quotient`]: it takes the sign of `a`.
pub open spec fn trunc_remainder(a: int, b: int) -> int {
    if b > 0 {
        trunc_rem(a, b)
    } else {
        trunc_rem(a, -b)
    }
}

/// Computes the quotient and remainder using truncating division.
///
/// Equivalent to `(lhs / rhs, lhs % rhs)`.
pub fn divrem_i32(lhs: i32, rhs: i32) -> (r: (i32, i32))
    requires
        rhs != 0,
        !(lhs == i32::MIN && rhs == -1),
    ensures
        r.0 == trunc_quotient(lhs as int, rhs as int),
        r.1 == trunc_remainder(lhs as int, rhs as int),
        lhs == r.0 * rhs + r.1,
{
    if rhs > 0 {
        divrem_positive_i32(lhs, rhs)
    } else if rhs == i32::MIN {
        proof {
            let a = lhs as int;
            let b = 0x8000_0000int;
            if a >= 0 {
                assert(a / b == 0 && a % b == a) by (nonlinear_arith)
                    requires
                        0 <= a < b,
                ;
            } else if a > i32::MIN {
                assert((-a) / b == 0 && (-a) % b == -a) by (nonlinear_arith)
                    requires
                        0 < -a < b,
                ;
            } else {
                assert((-a) / b == 1 && (-a) % b == 0) by (nonlinear_arith)
                    requires
                        -a == b,
                        b == 0x8000_0000,
                ;
            }
        }
        if lhs == i32::MIN {
            (1, 0)
        } else {
            (0, lhs)
        }
    } else {
        let (q, m) = divrem_positive_i32(lhs, -rhs);
        proof {
            assert(q <= 0x7fff_ffff && q >= -0x7fff_ffff) by (nonlinear_arith)
                requires
                    lhs == q * (-rhs) + m,
                    -rhs >= 1,
                    lhs >= 0 ==> 0 <= m < -rhs && q >= 0,
                    lhs < 0 ==> -(-rhs) < m <= 0 && q <= 0,
                    i32::MIN <= lhs <= i32::MAX,
                    !(lhs == i32::MIN && rhs == -1),
            ;
            assert(lhs == (-q) * rhs + m) by (nonlinear_arith)
                requires
                    lhs == q * (-rhs) + m,
            ;
        }
        (-q, m)
    }
}

/// Computes the quotient and remainder of 64-bit integers using truncating division.
///
/// Equivalent to `(lhs / rhs, lhs % rhs)`.
pub fn divrem_i64(lhs: i64, rhs: i64) -> (r: (i64, i64))
    requires
        rhs > 0,
    ensures
        r.0 == trunc_div(lhs as int, rhs as int),
        r.1 == trunc_rem(lhs as int, rhs as int),
        lhs == r.0 * rhs + r.1,
{
    let q = lhs / rhs;
    let m = lhs % rhs;
    proof {
        let a = lhs as int;
        let b = rhs as int;
        assert(q == trunc_div(a, b));
        assert(m == trunc_rem(a, b));
        if a >= 0 {
            vstd::arithmetic::div_mod::lemma_fundamental_div_mod(a, b);
            assert(a == (a / b) * b + a % b) by (nonlinear_arith)
                requires
                    a == b * (a / b) + a % b,
            ;
        } else {
            vstd::arithmetic::div_mod::lemma_fundamental_div_mod(-a, b);
            assert(a == (-((-a) / b)) * b + (-((-a) % b))) by (nonlinear_arith)
                requires
                    -a == b * ((-a) / b) + (-a) % b,
            ;
        }
    }
    (q, m)
}

} // verus!
