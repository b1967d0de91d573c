//! Fixed-point arithmetic helpers: the global scale, floor division, and an
//! integer square root. All geometry in this crate is carried as `i64`
//! values in units of `1 / FX_ONE` of a pixel (or of a model unit), so that
//! every step of the pipeline is exact integer arithmetic.

use vstd::prelude::*;
use vstd::arithmetic::div_mod::lemma_fundamental_div_mod;
use vstd::arithmetic::div_mod::lemma_fundamental_div_mod_converse;

verus! {

/// Number of fixed-point units per pixel (or per model unit).
pub const FX_ONE: i64 = 65536;

/// Half of `FX_ONE`: the offset from a pixel's corner to its center.
pub const FX_HALF: i64 = 32768;

/// Largest magnitude accepted by [`floor_div`] for the dividend.
pub const DIV_NUM_BOUND: i64 = 0x4000_0000_0000_0000;

/// Largest divisor accepted by [`floor_div`].
pub const DIV_DEN_BOUND: i64 = 0x1_0000_0000_0000;

/// Floor division by a positive divisor. In specifications `/` on `int` is
/// Euclidean division, which for a positive divisor rounds toward negative
/// infinity, so the contract is simply `a / b` — unlike Rust's `/` on `i64`,
/// which truncates toward zero for negative dividends.
pub fn floor_div(a: i64, b: i64) -> (q: i64)
    requires
        0 < b <= DIV_DEN_BOUND,
        -DIV_NUM_BOUND <= a <= DIV_NUM_BOUND,
    ensures
        q == a as int / b as int,
{
    if a >= 0 {
        a / b
    } else {
        let n: i64 = -a;
        let q1: i64 = (n + b - 1) / b;
        proof {
            lemma_floor_div_neg(a as int, b as int);
        }
        -q1
    }
}

/// For a negative dividend and positive divisor, the Euclidean quotient is
/// the negated round-up quotient of the magnitudes.
proof fn lemma_floor_div_neg(a: int, b: int)
    requires
        a < 0,
        0 < b,
    ensures
        a / b == -((-a + b - 1) / b),
{
    let n = -a;
    lemma_fundamental_div_mod(n, b);
    let q = n / b;
    let r = n % b;
    if r == 0 {
        assert(n + b - 1 == q * b + (b - 1)) by (nonlinear_arith)
            requires n == b * q + r && r == 0;
        lemma_fundamental_div_mod_converse(n + b - 1, b, q, b - 1);
        assert(a == (-q) * b + 0) by (nonlinear_arith)
            requires n == b * q + r && r == 0 && a == -n;
        lemma_fundamental_div_mod_converse(a, b, -q, 0);
    } else {
        assert(n + b - 1 == (q + 1) * b + (r - 1)) by (nonlinear_arith)
            requires n == b * q + r;
        lemma_fundamental_div_mod_converse(n + b - 1, b, q + 1, r - 1);
        assert(a == (-(q + 1)) * b + (b - r)) by (nonlinear_arith)
            requires n == b * q + r && a == -n;
        lemma_fundamental_div_mod_converse(a, b, -(q + 1), b - r);
    }
}

/// The floor of the real square root of `n`, as a recursively defined
/// specification function.
pub open spec fn sqrt_floor(n: int) -> int
    decreases n,
{
    if n < 1 {
        0
    } else {
        let r = sqrt_floor(n - 1);
        if (r + 1) * (r + 1) <= n {
            r + 1
        } else {
            r
        }
    }
}

/// `r` is the floor of the real square root of `n`.
pub open spec fn is_sqrt_floor(n: int, r: int) -> bool {
    0 <= r && r * r <= n && n < (r + 1) * (r + 1)
}

/// `sqrt_floor` satisfies its defining inequalities.
pub proof fn lemma_sqrt_floor_is(n: int)
    requires
        0 <= n,
    ensures
        is_sqrt_floor(n, sqrt_floor(n)),
    decreases n,
{
    if n >= 1 {
        lemma_sqrt_floor_is(n - 1);
        let r = sqrt_floor(n - 1);
        if (r + 1) * (r + 1) <= n {
            assert((r + 1) * (r + 1) + 1 <= n + 1);
            assert(n < (r + 2) * (r + 2)) by (nonlinear_arith)
                requires n - 1 < (r + 1) * (r + 1) && 0 <= r;
        }
    }
}

/// The floor square root is unique: any `r` satisfying the defining
/// inequalities equals `sqrt_floor(n)`.
pub proof fn lemma_sqrt_floor_unique(n: int, r: int)
    requires
        0 <= n,
        is_sqrt_floor(n, r),
    ensures
        r == sqrt_floor(n),
{
    lemma_sqrt_floor_is(n);
    let s = sqrt_floor(n);
    if r < s {
        assert((r + 1) * (r + 1) <= s * s) by (nonlinear_arith)
            requires 0 <= r && r + 1 <= s;
        assert(false);
    }
    if s < r {
        assert((s + 1) * (s + 1) <= r * r) by (nonlinear_arith)
            requires 0 <= s && s + 1 <= r;
        assert(false);
    }
}

/// Largest input accepted by [`isqrt`]: squares of values up to `2^31`
/// stay within `i64`.
pub const ISQRT_BOUND: i64 = 0x4000_0000_0000_0000;

/// Integer square root by bisection: returns the floor of the real square
/// root of `n`.
pub fn isqrt(n: i64) -> (r: i64)
    requires
        0 <= n < ISQRT_BOUND,
    ensures
        r == sqrt_floor(n as int),
        is_sqrt_floor(n as int, r as int),
        0 <= r < 0x8000_0000,
{
    let mut lo: i64 = 0;
    let mut hi: i64 = 0x8000_0000;
    proof {
        assert(hi * hi == 0x4000_0000_0000_0000) by (nonlinear_arith)
            requires hi == 0x8000_0000i64;
    }
    while lo + 1 < hi
        invariant
            0 <= lo < hi <= 0x8000_0000,
            lo * lo <= n,
            n < hi * hi,
        decreases hi - lo,
    {
        let mid: i64 = lo + (hi - lo) / 2;
        assert(lo < mid < hi);
        let sq: i64 = {
            proof {
                assert(mid * mid <= 0x8000_0000 * 0x8000_0000) by (nonlinear_arith)
                    requires 0 <= mid <= 0x8000_0000;
            }
            mid * mid
        };
        if sq <= n {
            lo = mid;
        } else {
            hi = mid;
        }
    }
    proof {
        lemma_sqrt_floor_unique(n as int, lo as int);
    }
    lo
}

} // verus!
