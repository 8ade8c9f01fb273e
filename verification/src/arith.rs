//! Number semantics of the interpreter's stack values.
//!
//! Stack values are 64-bit signed integers.  Addition, subtraction and
//! multiplication wrap modulo `2^64`; division truncates toward zero and the
//! remainder takes the dividend's sign.  Division or modulo by zero is not
//! handled here at all: the engine suspends the instruction and asks the
//! interface process for the result (see the engine module).

use vstd::arithmetic::div_mod::{
    lemma_div_is_ordered_by_denominator, lemma_div_nonincreasing, lemma_fundamental_div_mod,
    lemma_fundamental_div_mod_converse_mod, lemma_mod_bound,
};
use vstd::arithmetic::mul::lemma_mul_unary_negation;
use vstd::prelude::*;

verus! {

/// The sign of an integer: `-1`, `0` or `1`.
pub open spec fn sign_of(a: int) -> int {
    if a > 0 {
        1
    } else if a < 0 {
        -1
    } else {
        0
    }
}

/// Quotient of `a` and `b`, rounded toward zero.
pub open spec fn trunc_div(a: int, b: int) -> int
    recommends
        b != 0,
{
    if a == 0 {
        0
    } else if a > 0 && b > 0 {
        a / b
    } else if a < 0 && b < 0 {
        (-a) / (-b)
    } else if a < 0 {
        -((-a) / b)
    } else {
        -(a / (-b))
    }
}

/// Remainder of truncating division: `a - b * trunc_div(a, b)`.
pub open spec fn trunc_mod(a: int, b: int) -> int
    recommends
        b != 0,
{
    a - b * trunc_div(a, b)
}

/// Reduction of an unbounded integer into the `i64` range, modulo `2^64`.
pub open spec fn wrap_i64(x: int) -> int {
    let r = x % 0x1_0000_0000_0000_0000;
    if r > i64::MAX as int {
        r - 0x1_0000_0000_0000_0000
    } else {
        r
    }
}

/// `wrap_i64` leaves values that already fit in an `i64` unchanged.
pub proof fn lemma_wrap_i64_identity(x: int)
    requires
        i64::MIN <= x <= i64::MAX,
    ensures
        wrap_i64(x) == x,
{
    let range = 0x1_0000_0000_0000_0000int;
    if x >= 0 {
        lemma_fundamental_div_mod_converse_mod(x, range, 0, x);
    } else {
        lemma_fundamental_div_mod_converse_mod(x, range, -1, x + range);
    }
}

/// Sum with the standard wraparound of 64-bit signed integers.
pub fn value_add(a: i64, b: i64) -> (r: i64)
    ensures
        r as int == wrap_i64(a + b),
{
    proof {
        let range = 0x1_0000_0000_0000_0000int;
        if a + b > i64::MAX {
            lemma_fundamental_div_mod_converse_mod(a + b, range, 0, a + b);
        } else if a + b < i64::MIN {
            lemma_fundamental_div_mod_converse_mod(a + b, range, -1, a + b + range);
        } else {
            lemma_wrap_i64_identity(a + b);
        }
    }
    a.wrapping_add(b)
}

/// Difference with the standard wraparound of 64-bit signed integers.
pub fn value_sub(a: i64, b: i64) -> (r: i64)
    ensures
        r as int == wrap_i64(a - b),
{
    proof {
        let range = 0x1_0000_0000_0000_0000int;
        if a - b > i64::MAX {
            lemma_fundamental_div_mod_converse_mod(a - b, range, 0, a - b);
        } else if a - b < i64::MIN {
            lemma_fundamental_div_mod_converse_mod(a - b, range, -1, a - b + range);
        } else {
            lemma_wrap_i64_identity(a - b);
        }
    }
    a.wrapping_sub(b)
}

/// Product with the standard wraparound of 64-bit signed integers.
pub fn value_mul(a: i64, b: i64) -> (r: i64)
    ensures
        r as int == wrap_i64(a * b),
{
    a.wrapping_mul(b)
}

/// Quotient rounded toward zero, with the single wrapping case
/// `i64::MIN / -1` reduced back into range.
pub fn value_div(a: i64, b: i64) -> (r: i64)
    requires
        b != 0,
    ensures
        r as int == wrap_i64(trunc_div(a as int, b as int)),
{
    match a.checked_div(b) {
        Some(q) => {
            proof {
                lemma_wrap_i64_identity(trunc_div(a as int, b as int));
            }
            q
        },
        None => {
            // Only `i64::MIN / -1` overflows; its quotient `2^63` wraps to `i64::MIN`.
            proof {
                let range = 0x1_0000_0000_0000_0000int;
                let q = trunc_div(a as int, b as int);
                let pa = abs_int(a as int);
                let pb = abs_int(b as int);
                lemma_div_nonincreasing(pa, pb);
                if pb >= 2 {
                    lemma_div_is_ordered_by_denominator(pa, 2, pb);
                }
                assert(a == i64::MIN && b == -1);
                assert(q == pa / pb);
                lemma_fundamental_div_mod_converse_mod(q, range, 0, q);
            }
            i64::MIN
        },
    }
}

/// Remainder of truncating division; it always fits in an `i64`.
pub fn value_mod(a: i64, b: i64) -> (r: i64)
    requires
        b != 0,
    ensures
        r as int == trunc_mod(a as int, b as int),
{
    match a.checked_rem(b) {
        Some(m) => {
            proof {
                lemma_trunc_mod_formula(a as int, b as int);
            }
            m
        },
        None => {
            // Only `i64::MIN % -1` escapes `checked_rem`; the remainder is 0.
            proof {
                lemma_trunc_mod_formula(a as int, b as int);
                lemma_fundamental_div_mod_converse_mod(abs_int(a as int), 1, abs_int(a as int), 0);
            }
            0
        },
    }
}

/// The remainder formula written over magnitudes: `trunc_mod(a, b)` is
/// `|a| % |b|` carrying the sign of `a`.
pub proof fn lemma_trunc_mod_formula(a: int, b: int)
    requires
        b != 0,
    ensures
        trunc_mod(a, b) == if a >= 0 {
            abs_int(a) % abs_int(b)
        } else {
            -(abs_int(a) % abs_int(b))
        },
{
    let pa = abs_int(a);
    let pb = abs_int(b);
    let q = pa / pb;
    lemma_fundamental_div_mod(pa, pb);
    assert(pa == pb * q + pa % pb);
    if a == 0 {
        lemma_fundamental_div_mod_converse_mod(0, pb, 0, 0);
    } else if a > 0 && b > 0 {
        assert(trunc_mod(a, b) == a - b * (a / b));
    } else if a < 0 && b < 0 {
        assert(trunc_div(a, b) == q);
        lemma_mul_unary_negation(pb, q);
        assert(b * q == -(pb * q));
        assert(trunc_mod(a, b) == -pa + pb * q);
    } else if a < 0 {
        assert(trunc_div(a, b) == -q);
        lemma_mul_unary_negation(b, q);
        assert(b * (-q) == -(b * q));
        assert(trunc_mod(a, b) == -pa + pb * q);
    } else {
        assert(trunc_div(a, b) == -q);
        lemma_mul_unary_negation(b, q);
        lemma_mul_unary_negation(pb, q);
        assert(b * (-q) == pb * q);
        assert(trunc_mod(a, b) == pa - pb * q);
    }
}

/// Absolute value.
pub open spec fn abs_int(a: int) -> int {
    if a < 0 {
        -a
    } else {
        a
    }
}

/// The defining identity of truncating division and its remainder: the
/// quotient and remainder reassemble the dividend, and the remainder is
/// either zero or carries the dividend's sign.
pub proof fn lemma_divmod_identity(a: int, b: int)
    requires
        b != 0,
    ensures
        a == b * trunc_div(a, b) + trunc_mod(a, b),
        sign_of(trunc_mod(a, b)) == 0 || sign_of(trunc_mod(a, b)) == sign_of(a),
{
    lemma_trunc_mod_formula(a, b);
    lemma_mod_bound(abs_int(a), abs_int(b));
}

} // verus!
