//! Doubles by their bits: how they are ordered, and which one a whole number
//! is.
use vstd::prelude::*;
use vstd::arithmetic::power2::{
    lemma2_to64, lemma2_to64_rest, lemma_pow2_pos, lemma_pow2_strictly_increases, lemma_pow2_unfold,
    pow2,
};
use crate::json::Number;

verus! {

/// The bit that is set in the doubles below zero.
pub const SIGN_BIT: u64 = 0x8000000000000000;

/// The bits of the double one.
pub const ONE_BITS: u64 = 0x3ff0000000000000;

/// Where a double stands among the doubles that are numbers: of two, the
/// greater has the greater place, and both zeros have the place zero.
pub open spec fn place(bits: u64) -> int {
    if bits < SIGN_BIT {
        bits as int
    } else {
        SIGN_BIT - bits
    }
}

/// Whether a double is above another.
pub fn is_above(a: u64, b: u64) -> (r: bool)
    ensures
        r == (place(a) > place(b)),
{
    if a < SIGN_BIT {
        if b < SIGN_BIT {
            a > b
        } else {
            a > 0 || b > SIGN_BIT
        }
    } else {
        b >= SIGN_BIT && a < b
    }
}

/// The place of the highest bit of a number.
pub open spec fn top_bit(n: nat) -> nat
    decreases n,
{
    if n <= 1 {
        0
    } else {
        1 + top_bit(n / 2)
    }
}

/// A quotient rounded to the nearest whole number, halves to the even one.
pub open spec fn rounded_quotient(n: nat, d: nat) -> nat {
    let q = n / d;
    let rest = n % d;
    if 2 * rest > d || (2 * rest == d && q % 2 == 1) {
        q + 1
    } else {
        q
    }
}

/// The fraction of the double nearest to a number, with its leading one: 53
/// binary digits, or 54 where rounding carries.
pub open spec fn significand(n: nat) -> nat {
    let e = top_bit(n);
    if e <= 52 {
        n * pow2((52 - e) as nat)
    } else {
        rounded_quotient(n, pow2((e - 52) as nat))
    }
}

/// The bits of the double nearest to a number; of two equally near, the one
/// whose last digit is even.
pub open spec fn double_of(n: nat) -> nat {
    if n == 0 {
        0
    } else {
        (top_bit(n) + 1022) * 0x10000000000000 + significand(n)
    }
}

proof fn lemma_top_bit(n: nat)
    requires
        n > 0,
    ensures
        pow2(top_bit(n)) <= n < 2 * pow2(top_bit(n)),
    decreases n,
{
    lemma2_to64();
    if n > 1 {
        lemma_top_bit(n / 2);
        lemma_pow2_unfold(top_bit(n));
    }
}

fn two_to(k: u64) -> (r: u64)
    requires
        k < 64,
    ensures
        r == pow2(k as nat),
{
    let mut r: u64 = 1;
    let mut i: u64 = 0;
    proof {
        lemma2_to64();
        lemma2_to64_rest();
    }
    while i < k
        invariant
            i <= k < 64,
            r == pow2(i as nat),
        decreases k - i,
    {
        proof {
            lemma2_to64();
            lemma2_to64_rest();
            lemma_pow2_unfold((i + 1) as nat);
            if i + 1 < 63 {
                lemma_pow2_strictly_increases((i + 1) as nat, 63);
            }
        }
        r = r * 2;
        i = i + 1;
    }
    r
}

fn highest_bit(n: u64) -> (r: u64)
    requires
        n > 0,
    ensures
        r == top_bit(n as nat),
        r < 64,
{
    let mut q: u64 = n;
    let mut e: u64 = 0;
    proof {
        lemma2_to64();
        lemma2_to64_rest();
    }
    while q > 1
        invariant
            q >= 1,
            top_bit(n as nat) == e + top_bit(q as nat),
            e <= 63,
            q <= pow2((64 - e) as nat) - 1,
        decreases q,
    {
        proof {
            lemma2_to64();
            lemma2_to64_rest();
            lemma_pow2_unfold((64 - e) as nat);
        }
        q = q / 2;
        e = e + 1;
    }
    e
}

/// The bits of the double nearest to a number.
pub fn double_bits(n: u64) -> (r: u64)
    ensures
        r == double_of(n as nat),
        r < SIGN_BIT,
{
    if n == 0 {
        return 0;
    }
    let e = highest_bit(n);
    proof {
        lemma_top_bit(n as nat);
        lemma2_to64();
        lemma2_to64_rest();
    }
    let f: u64 = if e <= 52 {
        let scale: u64 = two_to(52 - e);
        proof {
            lemma_scaled(n as nat, e as nat);
        }
        n * scale
    } else {
        let d: u64 = two_to(e - 52);
        proof {
            lemma_cut(n as nat, e as nat);
        }
        let q: u64 = n / d;
        let rest: u64 = n % d;
        if rest > d - rest || (rest == d - rest && q % 2 == 1) {
            q + 1
        } else {
            q
        }
    };
    (e + 1022) * 0x10000000000000 + f
}

proof fn lemma_scaled(n: nat, e: nat)
    requires
        e <= 52,
        pow2(e) <= n < 2 * pow2(e),
    ensures
        n * pow2((52 - e) as nat) < 0x20000000000000,
{
    lemma2_to64();
    lemma2_to64_rest();
    let s = pow2((52 - e) as nat);
    vstd::arithmetic::power2::lemma_pow2_adds(e, (52 - e) as nat);
    lemma_pow2_pos((52 - e) as nat);
    assert(n * s < 2 * (pow2(e) * s)) by (nonlinear_arith)
        requires
            n < 2 * pow2(e),
            s > 0,
    ;
}

proof fn lemma_cut(n: nat, e: nat)
    requires
        52 < e < 64,
        n < 2 * pow2(e),
    ensures
        pow2((e - 52) as nat) > 0,
        n / pow2((e - 52) as nat) < 0x20000000000000,
        n % pow2((e - 52) as nat) < pow2((e - 52) as nat),
{
    lemma2_to64();
    lemma2_to64_rest();
    let d = pow2((e - 52) as nat);
    lemma_pow2_pos((e - 52) as nat);
    vstd::arithmetic::power2::lemma_pow2_adds(52, (e - 52) as nat);
    assert(n / d < 0x20000000000000) by (nonlinear_arith)
        requires
            d > 0,
            n < 2 * (0x10000000000000 * d),
    ;
}

/// A number as the double nearest to it.
pub open spec fn as_double(n: Number) -> Number {
    match n {
        Number::Unsigned(u) => Number::Real(double_of(u as nat) as u64),
        Number::Negative(i) => Number::Real(
            if i < 0 {
                (double_of((-i) as nat) + SIGN_BIT) as u64
            } else {
                double_of(i as nat) as u64
            },
        ),
        Number::Real(bits) => Number::Real(bits),
    }
}

/// A number as the double nearest to it.
pub fn to_double(n: Number) -> (r: Number)
    ensures
        r == as_double(n),
{
    match n {
        Number::Unsigned(u) => Number::Real(double_bits(u)),
        Number::Negative(i) => if i < 0 {
            let size: u64 = if i == i64::MIN {
                SIGN_BIT
            } else {
                (-i) as u64
            };
            Number::Real(double_bits(size) + SIGN_BIT)
        } else {
            Number::Real(double_bits(i as u64))
        },
        Number::Real(bits) => Number::Real(bits),
    }
}

/// No two doubles share a place but the two zeros.
pub proof fn law_only_zeros_share_a_place(a: u64, b: u64)
    ensures
        place(a) == place(b) <==> a == b || (a % SIGN_BIT == 0 && b % SIGN_BIT == 0),
{
}

} // verus!
