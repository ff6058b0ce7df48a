//! Modular arithmetic primitives: addition, multiplication, and brute-force
//! multiplicative inverse under a runtime-supplied modulus.

use vstd::arithmetic::div_mod::{
    lemma_fundamental_div_mod, lemma_mod_bound, lemma_mod_multiples_vanish, lemma_small_mod,
};
use vstd::math::abs;
use vstd::prelude::*;

verus! {

/// The remainder as Rust's `%` computes it: the sign follows the dividend,
/// the magnitude is the Euclidean remainder by the modulus's magnitude.
pub open spec fn mod_val(x: int, m: int) -> int {
    if x >= 0 {
        x % (abs(m) as int)
    } else {
        -((-x) % (abs(m) as int))
    }
}

/// `x` is a multiplicative inverse of `a` under modulus `m`.
pub open spec fn is_inverse(a: int, m: int, x: int) -> bool {
    mod_val(a * x, m) == 1
}

proof fn lemma_i32_product_bounds(a: i64, b: i64)
    by (nonlinear_arith)
    requires
        -0x8000_0000 <= a <= 0x7fff_ffff,
        -0x8000_0000 <= b <= 0x7fff_ffff,
    ensures
        -0x4000_0000_0000_0000 <= a * b <= 0x4000_0000_0000_0000,
{
}

/// `(a + b) mod modulus`, computed without intermediate overflow.
pub fn mod_add(a: i32, b: i32, modulus: i32) -> (r: i32)
    requires
        modulus != 0,
    ensures
        r == mod_val(a + b, modulus as int),
{
    let s: i64 = a as i64 + b as i64;
    let m: i64 = if modulus < 0 {
        -(modulus as i64)
    } else {
        modulus as i64
    };
    if s >= 0 {
        (s % m) as i32
    } else {
        -(((-s) % m) as i32)
    }
}

/// `(a - b) mod modulus`, computed without intermediate overflow.
pub fn mod_sub(a: i32, b: i32, modulus: i32) -> (r: i32)
    requires
        modulus != 0,
    ensures
        r == mod_val(a - b, modulus as int),
{
    let s: i64 = a as i64 - b as i64;
    let m: i64 = if modulus < 0 {
        -(modulus as i64)
    } else {
        modulus as i64
    };
    if s >= 0 {
        (s % m) as i32
    } else {
        -(((-s) % m) as i32)
    }
}

/// `(a * b) mod modulus`, computed without intermediate overflow.
pub fn mod_mul(a: i32, b: i32, modulus: i32) -> (r: i32)
    requires
        modulus != 0,
    ensures
        r == mod_val(a * b, modulus as int),
{
    proof {
        lemma_i32_product_bounds(a as i64, b as i64);
    }
    let p: i64 = (a as i64) * (b as i64);
    let m: i64 = if modulus < 0 {
        -(modulus as i64)
    } else {
        modulus as i64
    };
    if p >= 0 {
        (p % m) as i32
    } else {
        -(((-p) % m) as i32)
    }
}

/// The product `d * k`, named so that divisibility can be quantified.
pub open spec fn times(d: int, k: int) -> int {
    d * k
}

/// `d` divides `x`.
pub open spec fn divides(d: int, x: int) -> bool {
    exists|k: int| times(d, k) == x
}

/// The greatest common divisor, by Euclid's recurrence.
pub open spec fn gcd(a: nat, b: nat) -> nat
    decreases b,
{
    if b == 0 {
        a
    } else {
        gcd(b, a % b)
    }
}

proof fn divides_witness(d: int, x: int) -> (k: int)
    requires
        divides(d, x),
    ensures
        times(d, k) == x,
{
    choose|k: int| times(d, k) == x
}

proof fn lemma_gcd_divides(a: nat, b: nat)
    ensures
        divides(gcd(a, b) as int, a as int),
        divides(gcd(a, b) as int, b as int),
    decreases b,
{
    if b == 0 {
        assert(times(a as int, 1) == a as int);
        assert(times(a as int, 0) == 0);
    } else {
        lemma_gcd_divides(b, a % b);
        let g = gcd(b, a % b) as int;
        lemma_fundamental_div_mod(a as int, b as int);
        let q = (a as int) / (b as int);
        let kb = divides_witness(g, b as int);
        let kr = divides_witness(g, (a % b) as int);
        assert(g * (kb * q + kr) == (b as int) * q + ((a % b) as int)) by (nonlinear_arith)
            requires
                g * kb == b as int,
                g * kr == (a % b) as int,
        ;
        assert(times(g, kb * q + kr) == a as int);
    }
}

proof fn lemma_bezout(a: int, b: int)
    requires
        a >= 0,
        b >= 0,
    ensures
        exists|x: int, y: int|
            #![trigger times(a, x), times(b, y)]
            times(a, x) + times(b, y) == gcd(a as nat, b as nat),
    decreases b,
{
    if b == 0 {
        assert(times(a, 1) + times(b, 0) == gcd(a as nat, b as nat));
    } else {
        lemma_fundamental_div_mod(a, b);
        let q = a / b;
        lemma_mod_bound(a, b);
        lemma_bezout(b, a % b);
        let (x1, y1) = choose|x: int, y: int|
            #![trigger times(b, x), times(a % b, y)]
            times(b, x) + times(a % b, y) == gcd(b as nat, (a % b) as nat);
        assert(a * y1 + b * (x1 - q * y1) == b * x1 + (a - b * q) * y1) by (nonlinear_arith);
        assert(times(a, y1) + times(b, x1 - q * y1) == gcd(a as nat, b as nat));
    }
}

proof fn lemma_unit_factor(g: int, k: int)
    requires
        g >= 0,
        g * k == 1,
    ensures
        g == 1,
{
    if g == 0 {
        assert(false);
    } else if g >= 2 {
        if k >= 1 {
            assert(g * k >= 2) by (nonlinear_arith)
                requires
                    g >= 2,
                    k >= 1,
            ;
        } else {
            assert(g * k <= 0) by (nonlinear_arith)
                requires
                    g >= 2,
                    k <= 0,
            ;
        }
        assert(false);
    }
}

/// A multiplicative inverse of `a` modulo `m` exists in `1..m` exactly
/// when `a` and `m` are coprime.
pub proof fn lemma_inverse_iff_coprime(a: int, m: int)
    requires
        0 <= a,
        2 <= m,
    ensures
        (exists|x: int| 1 <= x < m && #[trigger] is_inverse(a, m, x)) <==> gcd(
            a as nat,
            m as nat,
        ) == 1,
{
    if exists|x: int| 1 <= x < m && #[trigger] is_inverse(a, m, x) {
        let x = choose|x: int| 1 <= x < m && #[trigger] is_inverse(a, m, x);
        assert(a * x >= 0) by (nonlinear_arith)
            requires
                a >= 0,
                x >= 1,
        ;
        assert((a * x) % m == 1);
        lemma_fundamental_div_mod(a * x, m);
        let q = (a * x) / m;
        let g = gcd(a as nat, m as nat) as int;
        lemma_gcd_divides(a as nat, m as nat);
        let ka = divides_witness(g, a);
        let km = divides_witness(g, m);
        assert(g * (ka * x - km * q) == 1) by (nonlinear_arith)
            requires
                g * ka == a,
                g * km == m,
                a * x == m * q + 1,
        ;
        lemma_unit_factor(g, ka * x - km * q);
    }
    if gcd(a as nat, m as nat) == 1 {
        lemma_bezout(a, m);
        let (x0, y0) = choose|x: int, y: int|
            #![trigger times(a, x), times(m, y)]
            times(a, x) + times(m, y) == gcd(a as nat, m as nat);
        lemma_mod_bound(x0, m);
        lemma_fundamental_div_mod(x0, m);
        let q = x0 / m;
        let x = x0 % m;
        assert(a * x == m * (-y0 - a * q) + 1) by (nonlinear_arith)
            requires
                x == x0 - m * q,
                a * x0 + m * y0 == 1,
        ;
        lemma_mod_multiples_vanish(-y0 - a * q, 1, m);
        lemma_small_mod(1nat, m as nat);
        assert((a * x) % m == 1);
        if x == 0 {
            assert(a * x == 0) by (nonlinear_arith)
                requires
                    x == 0,
            ;
            lemma_small_mod(0nat, m as nat);
            assert(false);
        }
        assert(a * x >= 0) by (nonlinear_arith)
            requires
                a >= 0,
                x >= 0,
        ;
        assert(is_inverse(a, m, x));
    }
}

/// Searches `1..modulus` for the first multiplicative inverse of `a`,
/// returning `None` when no value in that range is one.
pub fn mod_inv(a: i32, modulus: i32) -> (r: Option<i32>)
    ensures
        match r {
            Some(x) => 1 <= x < modulus && is_inverse(a as int, modulus as int, x as int)
                && forall|y: int| 1 <= y < x ==> !is_inverse(a as int, modulus as int, y),
            None => forall|y: int| 1 <= y < modulus ==> !is_inverse(a as int, modulus as int, y),
        },
{
    let mut x: i32 = 1;
    while x < modulus
        invariant
            1 <= x,
            forall|y: int| 1 <= y < x ==> !is_inverse(a as int, modulus as int, y),
        decreases modulus - x,
    {
        proof {
            lemma_i32_product_bounds(a as i64, x as i64);
        }
        let p: i64 = (a as i64) * (x as i64);
        let m: i64 = modulus as i64;
        let rem: i64 = if p >= 0 {
            p % m
        } else {
            -((-p) % m)
        };
        if rem == 1 {
            return Some(x);
        }
        x = x + 1;
    }
    None
}

} // verus!
