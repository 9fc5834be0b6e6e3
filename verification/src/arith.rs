//! Arithmetic on sizes that stops at the largest size there is.
use vstd::prelude::*;

verus! {

/// A size that stops at the largest one there is.
pub open spec fn capped_size(n: int) -> usize {
    if n > usize::MAX {
        usize::MAX
    } else {
        n as usize
    }
}

/// The product, or the largest size where the product is larger.
pub fn saturating_product(a: usize, b: usize) -> (r: usize)
    ensures
        r == capped_size(a * b),
{
    match a.checked_mul(b) {
        Some(p) => p,
        None => usize::MAX,
    }
}

/// The product of two counts, or the largest count where the product is larger.
pub fn saturating_product_u64(a: u64, b: u64) -> (r: u64)
    ensures
        r == (if a * b > u64::MAX {
            u64::MAX
        } else {
            (a * b) as u64
        }),
{
    match a.checked_mul(b) {
        Some(p) => p,
        None => u64::MAX,
    }
}

/// The quotient, rounded up.
pub open spec fn ceil_div(a: nat, b: nat) -> nat {
    if a % b == 0 {
        a / b
    } else {
        a / b + 1
    }
}

/// The quotient, rounded up.
pub fn quotient_up(a: usize, b: usize) -> (r: usize)
    requires
        b > 0,
    ensures
        r == ceil_div(a as nat, b as nat),
{
    let q: usize = a / b;
    if a % b == 0 {
        q
    } else {
        proof {
            if b == 1 {
                assert(a % 1 == 0);
            } else {
                assert(a / b < a || a == 0) by (nonlinear_arith)
                    requires
                        b > 1,
                ;
            }
        }
        q + 1
    }
}

/// The larger of two sizes.
pub open spec fn max_size(a: usize, b: usize) -> usize {
    if a >= b {
        a
    } else {
        b
    }
}

/// The larger of two sizes.
pub fn larger(a: usize, b: usize) -> (r: usize)
    ensures
        r == max_size(a, b),
{
    if a >= b {
        a
    } else {
        b
    }
}

} // verus!
