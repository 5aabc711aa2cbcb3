//! The greatest common divisor of two positive integers, computed by the
//! swap-based Euclidean algorithm and proved against its definition.
use vstd::prelude::*;
use vstd::arithmetic::div_mod::{
    lemma_fundamental_div_mod,
    lemma_mod_multiples_basic,
    lemma_mod_self_0,
    lemma_small_mod,
};

verus! {

/// `d` divides `x` evenly; only positive divisors are considered.
pub open spec fn divides(d: nat, x: nat) -> bool {
    d > 0 && x % d == 0
}

/// `g` is a common divisor of `a` and `b`, and every common divisor of the
/// two divides `g`.
pub open spec fn is_gcd(g: nat, a: nat, b: nat) -> bool {
    &&& divides(g, a)
    &&& divides(g, b)
    &&& forall|d: nat| #[trigger] divides(d, a) && divides(d, b) ==> divides(d, g)
}

/// The greatest common divisor, by Euclid's recurrence.
pub open spec fn gcd_spec(a: nat, b: nat) -> nat
    decreases b,
{
    if b == 0 {
        a
    } else {
        gcd_spec(b, a % b)
    }
}

/// A positive divisor of `b` divides `a` exactly when it divides `a % b`.
proof fn lemma_divides_mod(a: nat, b: nat, d: nat)
    requires
        b > 0,
        divides(d, b),
    ensures
        divides(d, a) <==> divides(d, a % b),
{
    let q = (a / b) as int;
    let r = (a % b) as int;
    lemma_fundamental_div_mod(a as int, b as int);
    assert(a == b * q + r);
    let kb = (b / d) as int;
    lemma_fundamental_div_mod(b as int, d as int);
    assert(b == d * kb);
    assert(b * q == d * (kb * q)) by (nonlinear_arith)
        requires
            b == d * kb,
    ;
    if divides(d, a) {
        let ka = (a / d) as int;
        lemma_fundamental_div_mod(a as int, d as int);
        assert(r == d * (ka - kb * q)) by (nonlinear_arith)
            requires
                a == d * ka,
                a == b * q + r,
                b * q == d * (kb * q),
        ;
        assert(q >= 0 && kb >= 0) by {
            assert(a / b >= 0);
        }
        lemma_mod_multiples_basic(ka - kb * q, d as int);
    }
    if divides(d, a % b) {
        let kr = r / (d as int);
        lemma_fundamental_div_mod(r, d as int);
        assert(a == d * (kb * q + kr)) by (nonlinear_arith)
            requires
                r == d * kr,
                a == b * q + r,
                b * q == d * (kb * q),
        ;
        lemma_mod_multiples_basic(kb * q + kr, d as int);
    }
}

/// `gcd_spec(a, b)` is positive and is the greatest common divisor of `a` and `b`.
proof fn lemma_gcd_spec_is_gcd(a: nat, b: nat)
    requires
        a > 0,
    ensures
        gcd_spec(a, b) > 0,
        is_gcd(gcd_spec(a, b), a, b),
    decreases b,
{
    if b == 0 {
        lemma_mod_self_0(a as int);
        assert(divides(a, 0)) by {
            lemma_small_mod(0, a);
        }
    } else {
        let g = gcd_spec(a, b);
        lemma_gcd_spec_is_gcd(b, a % b);
        lemma_divides_mod(a, b, g);
        assert forall|d: nat| #[trigger] divides(d, a) && divides(d, b) implies divides(d, g) by {
            lemma_divides_mod(a, b, d);
        }
    }
}

/// Two positive numbers that divide each other are equal.
proof fn lemma_mutual_divisors_equal(x: nat, y: nat)
    requires
        divides(x, y),
        divides(y, x),
    ensures
        x == y,
{
    if x < y {
        lemma_small_mod(x, y);
    }
    if y < x {
        lemma_small_mod(y, x);
    }
}

/// The greatest common divisor does not depend on the order of its arguments.
pub proof fn lemma_gcd_commutative(n: nat, m: nat)
    requires
        n > 0,
        m > 0,
    ensures
        gcd_spec(n, m) == gcd_spec(m, n),
{
    lemma_gcd_spec_is_gcd(n, m);
    lemma_gcd_spec_is_gcd(m, n);
    let g1 = gcd_spec(n, m);
    let g2 = gcd_spec(m, n);
    assert(divides(g1, m) && divides(g1, n));
    assert(divides(g2, n) && divides(g2, m));
    lemma_mutual_divisors_equal(g1, g2);
}

/// The greatest common divisor of a positive number with itself is that number.
pub proof fn lemma_gcd_self(n: nat)
    requires
        n > 0,
    ensures
        gcd_spec(n, n) == n,
{
    lemma_mod_self_0(n as int);
    assert(gcd_spec(n, n) == gcd_spec(n, 0));
}

/// The greatest common divisor of two positive numbers divides both, and no
/// common divisor of the two is larger.
pub proof fn lemma_gcd_greatest(n: nat, m: nat)
    requires
        n > 0,
        m > 0,
    ensures
        gcd_spec(n, m) > 0,
        n % gcd_spec(n, m) == 0,
        m % gcd_spec(n, m) == 0,
        forall|d: nat| d > 0 && #[trigger] (n % d) == 0 && m % d == 0 ==> d <= gcd_spec(n, m),
{
    lemma_gcd_spec_is_gcd(n, m);
    let g = gcd_spec(n, m);
    assert forall|d: nat| d > 0 && #[trigger] (n % d) == 0 && m % d == 0 implies d <= g by {
        assert(divides(d, n) && divides(d, m));
        if g < d {
            lemma_small_mod(g, d);
        }
    }
}

/// Computes the greatest common divisor of two positive integers.
pub fn gcd(n: u64, m: u64) -> (r: u64)
    requires
        n != 0,
        m != 0,
    ensures
        r == gcd_spec(n as nat, m as nat),
        is_gcd(r as nat, n as nat, m as nat),
{
    let ghost n0 = n as nat;
    let ghost m0 = m as nat;
    let mut n = n;
    let mut m = m;
    while m != 0
        invariant
            n > 0,
            gcd_spec(n as nat, m as nat) == gcd_spec(n0, m0),
        decreases m,
    {
        if m < n {
            proof {
                lemma_gcd_commutative(n as nat, m as nat);
            }
            let t = m;
            m = n;
            n = t;
        }
        proof {
            assert(gcd_spec(m as nat, n as nat) == gcd_spec(n as nat, (m % n) as nat));
            lemma_gcd_commutative(n as nat, m as nat);
        }
        m = m % n;
    }
    proof {
        lemma_gcd_spec_is_gcd(n0, m0);
    }
    n
}

} // verus!
