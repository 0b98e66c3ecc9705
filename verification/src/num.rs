//! Small verified numeric helpers shared by the renderer.

use vstd::prelude::*;

verus! {

/// The absolute value.
pub open spec fn abs_spec(a: int) -> int {
    if a >= 0 {
        a
    } else {
        -a
    }
}

/// The integer square root at the specification level: the unique `r`
/// with `r^2 <= n < (r + 1)^2`.
pub open spec fn sqrt_nat(n: nat) -> nat {
    choose|r: nat| #![trigger r * r] r * r <= n < (r + 1) * (r + 1)
}

/// There is exactly one integer square root, so `sqrt_nat` names it.
pub proof fn lemma_sqrt_nat_is(n: nat, r: nat)
    requires
        r * r <= n,
        n < (r + 1) * (r + 1),
    ensures
        sqrt_nat(n) == r,
{
    assert(r * r <= n < (r + 1) * (r + 1));
    let c = sqrt_nat(n);
    assert(c * c <= n < (c + 1) * (c + 1));
    assert(c == r) by (nonlinear_arith)
        requires
            c * c <= n < (c + 1) * (c + 1),
            r * r <= n < (r + 1) * (r + 1),
    ;
}

/// The integer square root: the largest `r` with `r * r <= n`.
pub fn isqrt(n: u64) -> (r: u64)
    ensures
        r * r <= n,
        n < (r + 1) * (r + 1),
        r as nat == sqrt_nat(n as nat),
{
    if n == 0 {
        proof {
            assert((0nat + 1) * (0nat + 1) == 1) by (nonlinear_arith);
            lemma_sqrt_nat_is(0, 0);
        }
        return 0;
    }
    let mut lo: u64 = 0;
    let mut hi: u64 = if n < 0xFFFF_FFFF {
        n + 1
    } else {
        0x1_0000_0000
    };
    proof {
        assert(n < hi * hi) by (nonlinear_arith)
            requires
                hi == if n < 0xFFFF_FFFF {
                    n + 1
                } else {
                    0x1_0000_0000
                },
        ;
    }
    while lo + 1 < hi
        invariant
            lo < hi <= 0x1_0000_0000,
            lo * lo <= n,
            n < hi * hi,
        decreases hi - lo,
    {
        let mid = lo + (hi - lo) / 2;
        proof {
            assert(mid * mid <= 0xFFFF_FFFF * 0xFFFF_FFFF) by (nonlinear_arith)
                requires
                    mid <= 0xFFFF_FFFF,
            ;
        }
        if mid * mid <= n {
            lo = mid;
        } else {
            hi = mid;
        }
    }
    proof {
        lemma_sqrt_nat_is(n as nat, lo as nat);
    }
    lo
}

/// Truncating division of a possibly negative value by a positive one:
/// the magnitudes are divided and the sign is put back, so the result is
/// rounded toward zero as the renderer's projections expect.
pub open spec fn div_trunc(a: int, b: int) -> int {
    if a >= 0 {
        a / b
    } else {
        -((-a) / b)
    }
}

/// Truncating division by a positive divisor.
pub fn div_toward_zero(a: i64, b: i64) -> (r: i64)
    requires
        0 < b,
        -0x4000_0000_0000_0000 <= a <= 0x4000_0000_0000_0000,
    ensures
        r == div_trunc(a as int, b as int),
        a >= 0 ==> 0 <= r <= a,
        a < 0 ==> a <= r <= 0,
{
    if a >= 0 {
        proof {
            vstd::arithmetic::div_mod::lemma_div_pos_is_pos(a as int, b as int);
            vstd::arithmetic::div_mod::lemma_div_nonincreasing(a as int, b as int);
        }
        a / b
    } else {
        proof {
            vstd::arithmetic::div_mod::lemma_div_pos_is_pos(-(a as int), b as int);
            vstd::arithmetic::div_mod::lemma_div_nonincreasing(-(a as int), b as int);
        }
        -((-a) / b)
    }
}

} // verus!
