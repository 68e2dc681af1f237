//! Greatest common divisor of two unsigned 64-bit integers.

use vstd::prelude::*;

verus! {

/// `d` divides `n`: some natural multiple of `d` is `n`. Zero divides only zero.
pub open spec fn divides(d: nat, n: nat) -> bool {
    exists|k: nat| n == #[trigger] (d * k)
}

/// `g` is the greatest common divisor of `a` and `b`: it divides both, and
/// every common divisor of `a` and `b` divides it. Under this reading the
/// greatest common divisor of zero and zero is zero.
pub open spec fn is_gcd(a: nat, b: nat, g: nat) -> bool {
    &&& divides(g, a)
    &&& divides(g, b)
    &&& forall|d: nat| divides(d, a) && divides(d, b) ==> #[trigger] divides(d, g)
}

/// The value that Euclid's algorithm reaches from `a` and `b`.
pub open spec fn gcd_spec(a: nat, b: nat) -> nat
    decreases b,
{
    if b == 0 {
        a
    } else {
        gcd_spec(b, a % b)
    }
}

/// Every natural number divides zero and itself.
pub proof fn lemma_divides_trivial(d: nat)
    ensures
        divides(d, 0),
        divides(d, d),
{
    assert(0 == d * 0);
    assert(d == d * 1);
}

/// A common divisor of `b` and `a % b` divides `a`.
pub proof fn lemma_divides_from_remainder(d: nat, a: nat, b: nat)
    requires
        b > 0,
        divides(d, b),
        divides(d, a % b),
    ensures
        divides(d, a),
{
    let kb = choose|k: nat| b == #[trigger] (d * k);
    let kr = choose|k: nat| a % b == #[trigger] (d * k);
    let q = a / b;
    assert(a == d * (kb * q + kr)) by (nonlinear_arith)
        requires
            b > 0,
            q == a / b,
            b == d * kb,
            a % b == d * kr,
    ;
}

/// A common divisor of `a` and `b` divides `a % b`.
pub proof fn lemma_divides_remainder(d: nat, a: nat, b: nat)
    requires
        b > 0,
        divides(d, a),
        divides(d, b),
    ensures
        divides(d, a % b),
{
    let ka = choose|k: nat| a == #[trigger] (d * k);
    let kb = choose|k: nat| b == #[trigger] (d * k);
    let q = a / b;
    let r = a % b;
    assert(d > 0 && ka >= kb * q && r == d * (ka - kb * q)) by (nonlinear_arith)
        requires
            b > 0,
            q == a / b,
            r == a % b,
            a == d * ka,
            b == d * kb,
    ;
    let k = (ka - kb * q) as nat;
    assert(a % b == d * k);
}

/// Euclid's algorithm computes the greatest common divisor.
pub proof fn lemma_gcd_spec_is_gcd(a: nat, b: nat)
    ensures
        is_gcd(a, b, gcd_spec(a, b)),
    decreases b,
{
    if b == 0 {
        lemma_divides_trivial(a);
    } else {
        let g = gcd_spec(b, a % b);
        lemma_gcd_spec_is_gcd(b, a % b);
        lemma_divides_from_remainder(g, a, b);
        assert forall|d: nat| divides(d, a) && divides(d, b) implies #[trigger] divides(d, g) by {
            lemma_divides_remainder(d, a, b);
        }
    }
}

/// At most one number is the greatest common divisor of `a` and `b`.
pub proof fn lemma_gcd_unique(a: nat, b: nat, g: nat, h: nat)
    requires
        is_gcd(a, b, g),
        is_gcd(a, b, h),
    ensures
        g == h,
{
    assert(divides(g, h));
    assert(divides(h, g));
    let k = choose|k: nat| h == #[trigger] (g * k);
    let m = choose|m: nat| g == #[trigger] (h * m);
    assert(g == h) by (nonlinear_arith)
        requires
            h == g * k,
            g == h * m,
    ;
}

/// The greatest common divisor is no larger than the larger of the two
/// numbers.
pub proof fn lemma_gcd_spec_bound(a: nat, b: nat)
    ensures
        gcd_spec(a, b) <= if a >= b { a } else { b },
    decreases b,
{
    if b != 0 {
        lemma_gcd_spec_bound(b, a % b);
    }
}

/// Greatest common divisor by Euclid's algorithm.
pub fn gcd(a: u64, b: u64) -> (g: u64)
    ensures
        g == gcd_spec(a as nat, b as nat),
        is_gcd(a as nat, b as nat, g as nat),
        b == 0 ==> g == a,
{
    let mut x: u64 = a;
    let mut y: u64 = b;
    while y != 0
        invariant
            gcd_spec(x as nat, y as nat) == gcd_spec(a as nat, b as nat),
        decreases y,
    {
        let r: u64 = x % y;
        x = y;
        y = r;
    }
    proof {
        lemma_gcd_spec_is_gcd(a as nat, b as nat);
    }
    x
}

} // verus!
