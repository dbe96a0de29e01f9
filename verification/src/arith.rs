//! Euclidean remainder on machine integers.
use vstd::prelude::*;

verus! {

/// Euclidean remainder: the value in `0..n` congruent to `x`.
pub open spec fn wrap(x: int, n: int) -> int {
    x % n
}

/// `x.rem_euclid(n)` for a positive `n`.
pub fn wrap_exec(x: i64, n: i64) -> (r: i64)
    requires
        n > 0,
    ensures
        r == wrap(x as int, n as int),
        0 <= r < n,
{
    if x >= 0 {
        x % n
    } else {
        let p = (-(x as i128)) % (n as i128);
        proof {
            let q = (-(x as int)) / (n as int);
            assert((-(x as int)) == q * n + p) by (nonlinear_arith)
                requires
                    n > 0,
                    -(x as int) >= 0,
                    q == (-(x as int)) / (n as int),
                    p == (-(x as int)) % (n as int),
            ;
            if p == 0 {
                assert(x as int == (-q) * n) by (nonlinear_arith)
                    requires
                        -(x as int) == q * n + p,
                        p == 0,
                ;
                assert((x as int) % (n as int) == 0) by (nonlinear_arith)
                    requires
                        x as int == (-q) * n,
                        n > 0,
                ;
            } else {
                assert(x as int == (-q - 1) * n + (n - p)) by (nonlinear_arith)
                    requires
                        -(x as int) == q * n + p,
                ;
                assert((x as int) % (n as int) == n - p) by (nonlinear_arith)
                    requires
                        x as int == (-q - 1) * n + (n - p),
                        0 < n - p < n,
                ;
            }
        }
        if p == 0 { 0 } else { (n as i128 - p) as i64 }
    }
}


} // verus!
