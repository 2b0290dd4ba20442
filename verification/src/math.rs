//! Integer square root, used to derive Euclidean distances.

use vstd::prelude::*;

verus! {

/// Floor of the square root of `n`, defined by recursion on `n`.
pub open spec fn sqrt_floor(n: nat) -> nat
    decreases n,
{
    if n == 0 {
        0
    } else {
        let r = sqrt_floor((n - 1) as nat);
        if (r + 1) * (r + 1) <= n {
            r + 1
        } else {
            r
        }
    }
}

/// `sqrt_floor(n)` squares to at most `n`, and the next square exceeds `n`.
pub proof fn lemma_sqrt_floor_bounds(n: nat)
    ensures
        sqrt_floor(n) * sqrt_floor(n) <= n,
        n < (sqrt_floor(n) + 1) * (sqrt_floor(n) + 1),
    decreases n,
{
    if n > 0 {
        let m = (n - 1) as nat;
        lemma_sqrt_floor_bounds(m);
        let r = sqrt_floor(m);
        if (r + 1) * (r + 1) <= n {
            assert(sqrt_floor(n) == r + 1);
            assert(sqrt_floor(n) * sqrt_floor(n) <= n);
            assert(n < (r + 2) * (r + 2)) by (nonlinear_arith)
                requires
                    m < (r + 1) * (r + 1),
                    n == m + 1,
            ;
            assert(n < (sqrt_floor(n) + 1) * (sqrt_floor(n) + 1));
        } else {
            assert(sqrt_floor(n) == r);
            assert(r * r <= m);
            assert(sqrt_floor(n) * sqrt_floor(n) <= n);
            assert(n < (sqrt_floor(n) + 1) * (sqrt_floor(n) + 1));
        }
    } else {
        assert(sqrt_floor(n) == 0);
        assert((sqrt_floor(n) + 1) * (sqrt_floor(n) + 1) == 1) by (nonlinear_arith)
            requires
                sqrt_floor(n) == 0,
        ;
    }
}

/// Any `r` satisfying the floor-square-root bounds is `sqrt_floor(n)`.
pub proof fn lemma_sqrt_floor_unique(n: nat, r: nat)
    requires
        r * r <= n,
        n < (r + 1) * (r + 1),
    ensures
        r == sqrt_floor(n),
{
    let s = sqrt_floor(n);
    lemma_sqrt_floor_bounds(n);
    if r < s {
        assert((r + 1) * (r + 1) <= s * s) by (nonlinear_arith)
            requires
                r + 1 <= s,
        ;
    }
    if s < r {
        assert((s + 1) * (s + 1) <= r * r) by (nonlinear_arith)
            requires
                s + 1 <= r,
        ;
    }
}

/// Floor integer square root by bisection.
pub fn isqrt(n: u128) -> (r: u64)
    ensures
        r == sqrt_floor(n as nat),
        (r as nat) * (r as nat) <= n as nat,
{
    proof {
        assert(0xffff_ffff_ffff_ffffnat * 0xffff_ffff_ffff_ffffnat
            == 0xffff_ffff_ffff_fffe_0000_0000_0000_0001nat) by (nonlinear_arith);
        assert(0x1_0000_0000_0000_0000nat * 0x1_0000_0000_0000_0000nat
            == 0x1_0000_0000_0000_0000_0000_0000_0000_0000nat) by (nonlinear_arith);
        assert(0xffff_ffff_ffff_fffenat * 0xffff_ffff_ffff_fffenat
            == 0xffff_ffff_ffff_fffc_0000_0000_0000_0004nat) by (nonlinear_arith);
    }
    let top: u64 = 0xffff_ffff_ffff_ffff;
    if n >= 0xffff_ffff_ffff_fffe_0000_0000_0000_0001u128 {
        // n is at least (2^64 - 1)^2, so the root is the largest u64.
        proof {
            lemma_sqrt_floor_unique(n as nat, top as nat);
        }
        return top;
    }
    let mut lo: u64 = 0;
    let mut hi: u64 = 0xffff_ffff_ffff_fffe;
    while lo < hi
        invariant
            (lo as nat) * (lo as nat) <= n as nat,
            (n as nat) < ((hi as nat) + 1) * ((hi as nat) + 1),
            lo <= hi,
            hi <= 0xffff_ffff_ffff_fffe,
        decreases hi - lo,
    {
        let mid: u64 = lo + (hi - lo + 1) / 2;
        proof {
            assert((mid as nat) * (mid as nat)
                <= 0xffff_ffff_ffff_fffenat * 0xffff_ffff_ffff_fffenat) by (nonlinear_arith)
                requires
                    mid <= 0xffff_ffff_ffff_fffeu64,
            ;
            assert(0xffff_ffff_ffff_fffenat * 0xffff_ffff_ffff_fffenat
                == 0xffff_ffff_ffff_fffc_0000_0000_0000_0004nat) by (nonlinear_arith);
        }
        let sq: u128 = (mid as u128) * (mid as u128);
        if sq <= n {
            lo = mid;
        } else {
            hi = mid - 1;
        }
    }
    proof {
        lemma_sqrt_floor_unique(n as nat, lo as nat);
    }
    lo
}

} // verus!

verus! {

/// A number at least `k` squared has square root at least `k`.
pub proof fn lemma_sqrt_floor_at_least(n: nat, k: nat)
    requires
        k * k <= n,
    ensures
        sqrt_floor(n) >= k,
{
    let r = sqrt_floor(n);
    lemma_sqrt_floor_bounds(n);
    if r < k {
        assert((r + 1) * (r + 1) <= k * k) by (nonlinear_arith)
            requires
                r + 1 <= k,
        ;
    }
}

} // verus!
