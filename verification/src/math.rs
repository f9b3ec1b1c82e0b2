//! Integer helpers for sizing audio buffers.

use vstd::prelude::*;

verus! {

/// `d` divides `n`. Zero divides only zero.
pub open spec fn divides(d: int, n: int) -> bool {
    if d == 0 {
        n == 0
    } else {
        n % d == 0
    }
}

/// `g` is the greatest common divisor of `a` and `b`: it divides both, and
/// every common divisor divides it. The greatest common divisor of zero and
/// zero is zero.
pub open spec fn is_gcd(g: int, a: int, b: int) -> bool {
    &&& g >= 0
    &&& divides(g, a)
    &&& divides(g, b)
    &&& forall|d: int| 0 <= d && divides(d, a) && #[trigger] divides(d, b) ==> divides(d, g)
}

/// The greatest common divisor of `a` and `b`.
pub open spec fn gcd_of(a: int, b: int) -> int {
    choose|g: int| is_gcd(g, a, b)
}

/// `m` is the multiple of `step` nearest to `base`; of two multiples equally
/// near, the larger one.
pub open spec fn is_nearest_multiple(m: int, base: int, step: int) -> bool {
    &&& step > 0
    &&& m % step == 0
    &&& 2 * (base - m) < step
    &&& 2 * (m - base) <= step
}

/// The multiple of `step` nearest to `base`, as a formula.
pub open spec fn nearest_multiple(base: int, step: int) -> int
    recommends
        step > 0,
{
    let below = base - base % step;
    if 2 * (base - below) < step {
        below
    } else {
        below + step
    }
}

/// A common divisor of `a` and `b` is a common divisor of `b` and `a % b`,
/// and the other way round.
pub proof fn lemma_common_divisor_step(d: int, a: int, b: int)
    requires
        0 <= d,
        0 <= a,
        0 < b,
    ensures
        (divides(d, a) && divides(d, b)) <==> (divides(d, b) && divides(d, a % b)),
{
    if d > 0 && divides(d, b) {
        let q = a / b;
        let kb = b / d;
        assert(b == d * kb) by {
            vstd::arithmetic::div_mod::lemma_fundamental_div_mod(b, d);
        }
        assert(a == b * q + a % b) by {
            vstd::arithmetic::div_mod::lemma_fundamental_div_mod(a, b);
        }
        assert(b * q == d * (kb * q)) by (nonlinear_arith)
            requires
                b == d * kb,
        ;
        if divides(d, a) {
            let ka = a / d;
            assert(a == d * ka) by {
                vstd::arithmetic::div_mod::lemma_fundamental_div_mod(a, d);
            }
            assert(a % b == d * (ka - kb * q)) by (nonlinear_arith)
                requires
                    a == d * ka,
                    a == b * q + a % b,
                    b * q == d * (kb * q),
            ;
            vstd::arithmetic::div_mod::lemma_mod_multiples_basic(ka - kb * q, d);
            assert((d * (ka - kb * q)) % d == 0) by {
                vstd::arithmetic::mul::lemma_mul_is_commutative(d, ka - kb * q);
            }
        }
        if divides(d, a % b) {
            let kr = (a % b) / d;
            assert(a % b == d * kr) by {
                vstd::arithmetic::div_mod::lemma_fundamental_div_mod(a % b, d);
            }
            assert(a == d * (kb * q + kr)) by (nonlinear_arith)
                requires
                    a % b == d * kr,
                    a == b * q + a % b,
                    b * q == d * (kb * q),
            ;
            vstd::arithmetic::div_mod::lemma_mod_multiples_basic(kb * q + kr, d);
            assert((d * (kb * q + kr)) % d == 0) by {
                vstd::arithmetic::mul::lemma_mul_is_commutative(d, kb * q + kr);
            }
        }
    }
}

/// Any two natural numbers have a greatest common divisor, which `gcd_of`
/// names.
pub proof fn lemma_gcd_exists(a: int, b: int)
    requires
        0 <= a,
        0 <= b,
    ensures
        is_gcd(gcd_of(a, b), a, b),
    decreases b,
{
    if b == 0 {
        assert(divides(a, a)) by {
            if a != 0 {
                vstd::arithmetic::div_mod::lemma_mod_self_0(a);
            }
        }
        assert(is_gcd(a, a, b));
    } else {
        vstd::arithmetic::div_mod::lemma_mod_bound(a, b);
        lemma_gcd_exists(b, a % b);
        let g = gcd_of(b, a % b);
        assert forall|d: int| 0 <= d && divides(d, a) && #[trigger] divides(d, b) implies divides(
            d,
            g,
        ) by {
            lemma_common_divisor_step(d, a, b);
        }
        lemma_common_divisor_step(g, a, b);
        assert(is_gcd(g, a, b));
    }
}

/// At most one number is the greatest common divisor of `a` and `b`.
pub proof fn lemma_gcd_unique(g: int, h: int, a: int, b: int)
    requires
        is_gcd(g, a, b),
        is_gcd(h, a, b),
    ensures
        g == h,
{
    assert(divides(g, h));
    assert(divides(h, g));
    if g == 0 || h == 0 {
    } else {
        assert(h % g == 0 && g % h == 0);
        if g < h {
            vstd::arithmetic::div_mod::lemma_small_mod(g as nat, h as nat);
        } else if h < g {
            vstd::arithmetic::div_mod::lemma_small_mod(h as nat, g as nat);
        }
    }
}

/// The formula `nearest_multiple` gives the nearest multiple, and nothing
/// else is one.
pub proof fn lemma_nearest_multiple_unique(m: int, base: int, step: int)
    requires
        step > 0,
    ensures
        is_nearest_multiple(m, base, step) <==> m == nearest_multiple(base, step),
{
    let below = base - base % step;
    vstd::arithmetic::div_mod::lemma_fundamental_div_mod(base, step);
    vstd::arithmetic::div_mod::lemma_mod_bound(base, step);
    let q = base / step;
    assert(below == step * q);
    assert(below % step == 0) by {
        vstd::arithmetic::div_mod::lemma_mod_multiples_basic(q, step);
        vstd::arithmetic::mul::lemma_mul_is_commutative(q, step);
    }
    assert((below + step) % step == 0) by {
        vstd::arithmetic::div_mod::lemma_mod_multiples_basic(q + 1, step);
        assert((q + 1) * step == below + step) by (nonlinear_arith)
            requires
                below == step * q,
        ;
    }
    if is_nearest_multiple(m, base, step) {
        vstd::arithmetic::div_mod::lemma_fundamental_div_mod(m, step);
        let k = m / step;
        assert(m == step * k);
        // m lies strictly within one step of `below`, on either side of it
        // or on it, so k is q or q + 1.
        assert(k == q || k == q + 1) by (nonlinear_arith)
            requires
                m == step * k,
                below == step * q,
                step > 0,
                2 * (base - m) < step,
                2 * (m - base) <= step,
                0 <= base - below < step,
        ;
        if k == q {
            assert(m == below);
        } else {
            assert(m == below + step) by (nonlinear_arith)
                requires
                    m == step * k,
                    below == step * q,
                    k == q + 1,
            ;
        }
    }
}

/// Greatest common divisor of two numbers, by Euclid's algorithm.
pub fn gcd(a: u32, b: u32) -> (g: u32)
    ensures
        is_gcd(g as int, a as int, b as int),
        g == gcd_of(a as int, b as int),
        a > 0 ==> 0 < g <= a,
{
    let mut x: u32 = a;
    let mut y: u32 = b;
    while y != 0
        invariant
            forall|d: int|
                0 <= d ==> ((divides(d, x as int) && #[trigger] divides(d, y as int)) <==> (divides(
                    d,
                    a as int,
                ) && divides(d, b as int))),
        decreases y,
    {
        let rest: u32 = x % y;
        proof {
            assert forall|d: int| 0 <= d implies ((divides(d, y as int) && #[trigger] divides(
                d,
                rest as int,
            )) <==> (divides(d, a as int) && divides(d, b as int))) by {
                lemma_common_divisor_step(d, x as int, y as int);
                assert(divides(d, x as int) && divides(d, y as int) <==> divides(d, a as int)
                    && divides(d, b as int));
            }
        }
        x = y;
        y = rest;
    }
    proof {
        let g = x as int;
        assert(divides(g, g)) by {
            if g != 0 {
                vstd::arithmetic::div_mod::lemma_mod_self_0(g);
            }
        }
        assert(divides(g, 0));
        assert(divides(g, x as int) && divides(g, y as int));
        assert forall|d: int| 0 <= d && divides(d, a as int) && #[trigger] divides(
            d,
            b as int,
        ) implies divides(d, g) by {
            assert(divides(d, y as int));
            assert(divides(d, x as int));
        }
        assert(is_gcd(g, a as int, b as int));
        lemma_gcd_unique(g, gcd_of(a as int, b as int), a as int, b as int);
        if a > 0 {
            assert(g != 0);
            if g > a {
                vstd::arithmetic::div_mod::lemma_small_mod(a as nat, g as nat);
            }
        }
    }
    x
}

/// The multiple of `denominator` nearest to `base`. Halfway between two
/// multiples, the larger one is taken.
pub fn find_nearest_to(base: u32, denominator: u32) -> (nearest: u32)
    requires
        denominator > 0,
        nearest_multiple(base as int, denominator as int) <= u32::MAX,
    ensures
        is_nearest_multiple(nearest as int, base as int, denominator as int),
        nearest == nearest_multiple(base as int, denominator as int),
{
    let remainder: u32 = base % denominator;
    proof {
        vstd::arithmetic::div_mod::lemma_mod_decreases(base as nat, denominator as nat);
        lemma_nearest_multiple_unique(
            nearest_multiple(base as int, denominator as int),
            base as int,
            denominator as int,
        );
    }
    if remainder < denominator - remainder {
        base - remainder
    } else {
        base - remainder + denominator
    }
}

} // verus!
