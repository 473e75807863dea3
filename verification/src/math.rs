//! Exact integer arithmetic used throughout the library: per-million
//! fractions (fees, slippage tolerances, volume-limit fractions) and
//! checked rational multiplication for price conversions.

use vstd::arithmetic::div_mod::{lemma_fundamental_div_mod, lemma_div_multiples_vanish_fancy};
use vstd::arithmetic::mul::{lemma_mul_inequality, lemma_mul_is_distributive_add_other_way};
use vstd::prelude::*;

verus! {

/// Number of parts in one whole for per-million fractions.
pub const PERMILL_ONE: u32 = 1_000_000;

/// `floor(x * parts / 1_000_000)` over unbounded integers.
pub open spec fn permill_of(x: u128, parts: u32) -> int {
    (x as int * parts as int) / (PERMILL_ONE as int)
}

/// `floor(x * parts / 1_000_000)`, computed without intermediate overflow
/// by splitting `x` into quotient and remainder by one million.
pub fn permill_mul_floor(x: u128, parts: u32) -> (r: u128)
    requires
        parts <= PERMILL_ONE,
    ensures
        r == permill_of(x, parts),
        r <= x,
{
    let m: u128 = PERMILL_ONE as u128;
    let q: u128 = x / m;
    let s: u128 = x % m;
    let p: u128 = parts as u128;
    proof {
        lemma_fundamental_div_mod(x as int, m as int);
        lemma_mul_inequality(p as int, m as int, q as int);
        assert(q * p <= q * m) by {
            vstd::arithmetic::mul::lemma_mul_is_commutative(q as int, p as int);
            vstd::arithmetic::mul::lemma_mul_is_commutative(q as int, m as int);
        }
        lemma_mul_inequality(p as int, m as int, s as int);
        assert(s * p <= s * m) by {
            vstd::arithmetic::mul::lemma_mul_is_commutative(s as int, p as int);
            vstd::arithmetic::mul::lemma_mul_is_commutative(s as int, m as int);
        }
        assert(s * m / m as int == s) by {
            vstd::arithmetic::div_mod::lemma_div_by_multiple(s as int, m as int);
        }
        assert(s * p / m as int <= s * m / m as int) by {
            vstd::arithmetic::div_mod::lemma_div_is_ordered(
                (s * p) as int,
                (s * m) as int,
                m as int,
            );
        }
    }
    let hi: u128 = q * p;
    let lo: u128 = (s * p) / m;
    proof {
        // x * parts == s * p + (q * p) * m, so dividing by m leaves
        // q * p plus the low part.
        assert(x as int * p as int == (s * p) as int + (q * p) as int * m as int) by {
            assert(x as int * p as int == (m as int * q as int + s as int) * p as int);
            lemma_mul_is_distributive_add_other_way(
                p as int,
                m as int * q as int,
                s as int,
            );
            vstd::arithmetic::mul::lemma_mul_is_associative(m as int, q as int, p as int);
            vstd::arithmetic::mul::lemma_mul_is_commutative(m as int, (q * p) as int);
        }
        vstd::arithmetic::div_mod::lemma_hoist_over_denominator(
            (s * p) as int,
            (q * p) as int,
            m as nat,
        );
    }
    hi + lo
}

/// `floor(a * b / c)` when the product fits in `u128`; `None` on overflow.
/// Division by zero is excluded by precondition.
pub fn checked_mul_div(a: u128, b: u128, c: u128) -> (r: Option<u128>)
    requires
        c > 0,
    ensures
        match r {
            Some(v) => a as int * b as int <= u128::MAX && v == (a as int * b as int) / (c as int),
            None => a as int * b as int > u128::MAX,
        },
{
    match a.checked_mul(b) {
        Some(prod) => Some(prod / c),
        None => None,
    }
}

/// `ceil(a * b / c)` when the product fits in `u128`; `None` on overflow.
pub fn checked_mul_div_ceil(a: u128, b: u128, c: u128) -> (r: Option<u128>)
    requires
        c > 0,
    ensures
        match r {
            Some(v) => a as int * b as int <= u128::MAX && v == ((a as int * b as int) + (c as int)
                - 1) / (c as int),
            None => a as int * b as int > u128::MAX,
        },
{
    match a.checked_mul(b) {
        Some(prod) => {
            let rem = prod % c;
            let q = prod / c;
            if rem == 0 {
                proof {
                    lemma_fundamental_div_mod(prod as int, c as int);
                    lemma_div_multiples_vanish_fancy(q as int, (c - 1) as int, c as int);
                    vstd::arithmetic::div_mod::lemma_basic_div((c - 1) as int, c as int);
                }
                Some(q)
            } else {
                proof {
                    lemma_fundamental_div_mod(prod as int, c as int);
                    // rem != 0 rules out c == 1, so q + 1 cannot overflow.
                    assert(c >= 2);
                    lemma_mul_inequality(2int, c as int, q as int);
                    vstd::arithmetic::mul::lemma_mul_is_commutative(q as int, 2int);
                    vstd::arithmetic::mul::lemma_mul_is_commutative(q as int, c as int);
                    assert(q < u128::MAX);
                    // prod + c - 1 == c * (q + 1) + (rem - 1)
                    lemma_div_multiples_vanish_fancy(
                        (q + 1) as int,
                        (rem - 1) as int,
                        c as int,
                    );
                    vstd::arithmetic::div_mod::lemma_basic_div((rem - 1) as int, c as int);
                    lemma_mul_inequality(q as int, (q + 1) as int, c as int);
                    assert(c as int * (q + 1) as int == c as int * q as int + c as int) by {
                        vstd::arithmetic::mul::lemma_mul_is_distributive_add(
                            c as int,
                            q as int,
                            1int,
                        );
                    }
                }
                Some(q + 1)
            }
        },
        None => None,
    }
}

} // verus!
