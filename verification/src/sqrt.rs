//! Integer square root: the floor of the real square root of a `u64`.

use vstd::prelude::*;

verus! {

/// `r` is the floor of the real square root of `n`.
pub open spec fn is_sqrt(n: int, r: int) -> bool {
    0 <= r && r * r <= n && n < (r + 1) * (r + 1)
}

/// The floor of the real square root of `n`, as a mathematical function.
pub open spec fn sqrt_of(n: int) -> int {
    choose|r: int| is_sqrt(n, r)
}

/// At most one integer is the floor of the square root of `n`.
pub proof fn lemma_sqrt_unique(n: int, a: int, b: int)
    requires
        is_sqrt(n, a),
        is_sqrt(n, b),
    ensures
        a == b,
{
    if a < b {
        assert((a + 1) * (a + 1) <= b * b) by (nonlinear_arith)
            requires
                0 <= a,
                0 <= b,
                a < b,
        ;
    }
    if b < a {
        assert((b + 1) * (b + 1) <= a * a) by (nonlinear_arith)
            requires
                0 <= a,
                0 <= b,
                b < a,
        ;
    }
}

/// Every non-negative integer has an integer square root, so `sqrt_of`
/// picks the witness that `is_sqrt` describes.
pub proof fn lemma_sqrt_exists(n: int)
    requires
        n >= 0,
    ensures
        is_sqrt(n, sqrt_of(n)),
    decreases n,
{
    if n == 0 {
        assert(is_sqrt(0, 0));
    } else {
        lemma_sqrt_exists(n - 1);
        let r = sqrt_of(n - 1);
        if n < (r + 1) * (r + 1) {
            assert(is_sqrt(n, r));
        } else {
            assert(n == (r + 1) * (r + 1));
            assert((r + 2) * (r + 2) > n) by (nonlinear_arith)
                requires
                    0 <= r,
                    n == (r + 1) * (r + 1),
            ;
            assert(is_sqrt(n, r + 1));
        }
    }
    assert(exists|r: int| is_sqrt(n, r));
}

/// The integer square root is monotone.
pub proof fn lemma_sqrt_monotone(n1: int, n2: int)
    requires
        0 <= n1 <= n2,
    ensures
        sqrt_of(n1) <= sqrt_of(n2),
{
    lemma_sqrt_exists(n1);
    lemma_sqrt_exists(n2);
    let r1 = sqrt_of(n1);
    let r2 = sqrt_of(n2);
    if r2 < r1 {
        assert((r2 + 1) * (r2 + 1) <= r1 * r1) by (nonlinear_arith)
            requires
                0 <= r1,
                0 <= r2,
                r2 < r1,
        ;
    }
}

/// Adding at least `2 * sqrt_of(n) + 1` to `n` strictly increases the root.
pub proof fn lemma_sqrt_strict_step(n: int, d: int)
    requires
        n >= 0,
        d >= 2 * sqrt_of(n) + 1,
    ensures
        sqrt_of(n + d) > sqrt_of(n),
{
    lemma_sqrt_exists(n);
    lemma_sqrt_exists(n + d);
    let r = sqrt_of(n);
    let s = sqrt_of(n + d);
    assert((r + 1) * (r + 1) == r * r + 2 * r + 1) by (nonlinear_arith);
    assert((r + 1) * (r + 1) <= n + d);
    if s <= r {
        assert((s + 1) * (s + 1) <= (r + 1) * (r + 1)) by (nonlinear_arith)
            requires
                0 <= s,
                0 <= r,
                s <= r,
        ;
    }
}

/// The floor of the square root of `n`, by bisection.
pub fn isqrt(n: u64) -> (r: u64)
    requires
        n < 4_000_000_000_000_000_000,
    ensures
        is_sqrt(n as int, r as int),
        r == sqrt_of(n as int),
{
    let mut lo: u64 = 0;
    let mut hi: u64 = 2_000_000_000;
    assert((2_000_000_000int) * 2_000_000_000 == 4_000_000_000_000_000_000) by (nonlinear_arith);
    while hi - lo > 1
        invariant
            lo < hi <= 2_000_000_000,
            (lo as int) * (lo as int) <= n as int,
            (n as int) < (hi as int) * (hi as int),
        decreases hi - lo,
    {
        let mid: u64 = lo + (hi - lo) / 2;
        assert((mid as int) * (mid as int) < 4_000_000_000_000_000_000) by (nonlinear_arith)
            requires
                0 <= (mid as int) && (mid as int) < 2_000_000_000,
        ;
        if mid * mid <= n {
            lo = mid;
        } else {
            hi = mid;
        }
    }
    proof {
        assert(is_sqrt(n as int, lo as int));
        lemma_sqrt_exists(n as int);
        lemma_sqrt_unique(n as int, lo as int, sqrt_of(n as int));
    }
    lo
}

} // verus!
