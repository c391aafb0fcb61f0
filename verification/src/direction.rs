//! Directions on the lattice: the shortest vector along a given one.
use vstd::prelude::*;
use vstd::arithmetic::div_mod::{
    lemma_fundamental_div_mod,
    lemma_fundamental_div_mod_converse,
    lemma_small_mod,
    lemma_truncate_middle,
};

verus! {

/// `d` is positive and divides both `a` and `b`.
pub open spec fn common_divisor(d: int, a: int, b: int) -> bool {
    d > 0 && a % d == 0 && b % d == 0
}

/// `g` is the greatest of the common divisors of `a` and `b`.
pub open spec fn is_gcd(g: int, a: int, b: int) -> bool {
    &&& common_divisor(g, a, b)
    &&& forall|d: int| #[trigger] common_divisor(d, a, b) ==> d <= g
}

/// The greatest common divisor of `a` and `b`, which exists unless both are
/// zero.
pub open spec fn gcd(a: int, b: int) -> int {
    choose|g: int| is_gcd(g, a, b)
}

/// The vector has no shorter lattice vector along it: only 1 divides both of
/// its components. The zero vector is not primitive.
pub open spec fn is_primitive(dx: int, dy: int) -> bool {
    is_gcd(1, dx, dy)
}

/// The primitive vector that points the way of `(dx, dy)`: both components
/// divided by their greatest common divisor.
pub open spec fn primitive(dx: int, dy: int) -> (int, int) {
    (dx / gcd(dx, dy), dy / gcd(dx, dy))
}

/// The magnitude of `v`.
pub open spec fn magnitude(v: int) -> int {
    if v < 0 {
        -v
    } else {
        v
    }
}

/// A multiple of `d` leaves no remainder, and dividing it gives the factor
/// back.
pub proof fn lemma_multiple(q: int, d: int)
    requires
        d > 0,
    ensures
        (q * d) % d == 0,
        (q * d) / d == q,
{
    lemma_fundamental_div_mod_converse(q * d, d, q, 0);
}

/// What `d` divides is `d` times the quotient.
pub proof fn lemma_exact_quotient(x: int, d: int)
    requires
        d > 0,
        x % d == 0,
    ensures
        x == d * (x / d),
        x == (x / d) * d,
{
    lemma_fundamental_div_mod(x, d);
    assert(d * (x / d) == (x / d) * d) by (nonlinear_arith);
}

/// A divisor of `x` and `y` divides `x + k * y`.
pub proof fn lemma_divides_combination(d: int, x: int, y: int, k: int)
    requires
        d > 0,
        x % d == 0,
        y % d == 0,
    ensures
        (x + k * y) % d == 0,
{
    lemma_exact_quotient(x, d);
    lemma_exact_quotient(y, d);
    let qx = x / d;
    let qy = y / d;
    assert(x + k * y == (qx + k * qy) * d) by (nonlinear_arith)
        requires
            x == qx * d,
            y == qy * d,
    ;
    lemma_multiple(qx + k * qy, d);
}

/// A divisor of a positive number is no greater than it.
pub proof fn lemma_divisor_at_most(d: int, x: int)
    requires
        d > 0,
        x > 0,
        x % d == 0,
    ensures
        d <= x,
{
    if d > x {
        lemma_small_mod(x as nat, d as nat);
    }
}

/// `d` divides `x` exactly when it divides `-x`.
pub proof fn lemma_divides_negation(d: int, x: int)
    requires
        d > 0,
    ensures
        x % d == 0 <==> (-x) % d == 0,
{
    if x % d == 0 {
        lemma_exact_quotient(x, d);
        assert(-x == (-(x / d)) * d) by (nonlinear_arith)
            requires
                x == (x / d) * d,
        ;
        lemma_multiple(-(x / d), d);
    }
    if (-x) % d == 0 {
        lemma_exact_quotient(-x, d);
        assert(x == (-((-x) / d)) * d) by (nonlinear_arith)
            requires
                -x == ((-x) / d) * d,
        ;
        lemma_multiple(-((-x) / d), d);
    }
}

/// Euclid's step: `a` and `b` have the common divisors of `b` and the
/// remainder of `a` by `b`.
pub proof fn lemma_remainder_step(d: int, a: int, b: int)
    requires
        b > 0,
    ensures
        common_divisor(d, a, b) <==> common_divisor(d, b, a % b),
{
    lemma_fundamental_div_mod(a, b);
    let q = a / b;
    let r = a % b;
    assert(b * q == q * b) by (nonlinear_arith);
    if common_divisor(d, a, b) {
        lemma_divides_combination(d, a, b, -q);
        assert(a + (-q) * b == r) by (nonlinear_arith)
            requires
                a == q * b + r,
        ;
    }
    if common_divisor(d, b, r) {
        lemma_divides_combination(d, r, b, q);
    }
}

/// Two greatest common divisors of the same numbers are equal.
pub proof fn lemma_gcd_unique(g: int, h: int, a: int, b: int)
    requires
        is_gcd(g, a, b),
        is_gcd(h, a, b),
    ensures
        g == h,
{
}

/// Whatever has the properties of the greatest common divisor is the one that
/// `gcd` names.
pub proof fn lemma_gcd_is(g: int, a: int, b: int)
    requires
        is_gcd(g, a, b),
    ensures
        gcd(a, b) == g,
{
    lemma_gcd_unique(g, gcd(a, b), a, b);
}

proof fn lemma_gcd_exists_nonnegative(a: int, b: int)
    requires
        a >= 0,
        b >= 0,
        a > 0 || b > 0,
    ensures
        is_gcd(gcd(a, b), a, b),
    decreases b,
{
    if b == 0 {
        lemma_multiple(1, a);
        lemma_multiple(0, a);
        assert forall|d: int| #[trigger] common_divisor(d, a, b) implies d <= a by {
            lemma_divisor_at_most(d, a);
        }
        assert(is_gcd(a, a, b));
    } else {
        lemma_gcd_exists_nonnegative(b, a % b);
        let g = gcd(b, a % b);
        lemma_remainder_step(g, a, b);
        assert forall|d: int| #[trigger] common_divisor(d, a, b) implies d <= g by {
            lemma_remainder_step(d, a, b);
        }
        assert(is_gcd(g, a, b));
    }
}

/// The sign of a component does not change what divides it.
pub proof fn lemma_gcd_of_magnitudes(g: int, a: int, b: int)
    ensures
        is_gcd(g, a, b) <==> is_gcd(g, magnitude(a), magnitude(b)),
{
    assert forall|d: int|
        #[trigger] common_divisor(d, a, b) <==> common_divisor(
            d,
            magnitude(a),
            magnitude(b),
        ) by {
        if d > 0 {
            lemma_divides_negation(d, a);
            lemma_divides_negation(d, b);
        }
    }
    assert forall|d: int| #[trigger]
        common_divisor(d, magnitude(a), magnitude(b)) <==> common_divisor(d, a, b) by {
        if d > 0 {
            lemma_divides_negation(d, a);
            lemma_divides_negation(d, b);
        }
    }
}

/// Two numbers that are not both zero have a greatest common divisor, and
/// `gcd` is it.
pub proof fn lemma_gcd_exists(a: int, b: int)
    requires
        a != 0 || b != 0,
    ensures
        is_gcd(gcd(a, b), a, b),
{
    lemma_gcd_exists_nonnegative(magnitude(a), magnitude(b));
    lemma_gcd_of_magnitudes(gcd(magnitude(a), magnitude(b)), a, b);
}

/// The primitive vector along `(dx, dy)` is primitive, and `(dx, dy)` is a
/// positive multiple of it: the two point the same way.
pub proof fn lemma_primitive_along(dx: int, dy: int)
    requires
        dx != 0 || dy != 0,
    ensures
        is_primitive(primitive(dx, dy).0, primitive(dx, dy).1),
        gcd(dx, dy) > 0,
        dx == gcd(dx, dy) * primitive(dx, dy).0,
        dy == gcd(dx, dy) * primitive(dx, dy).1,
{
    lemma_gcd_exists(dx, dy);
    let g = gcd(dx, dy);
    let fx = dx / g;
    let fy = dy / g;
    lemma_exact_quotient(dx, g);
    lemma_exact_quotient(dy, g);
    lemma_multiple(fx, 1);
    lemma_multiple(fy, 1);
    assert(fx * 1 == fx && fy * 1 == fy);
    assert forall|d: int| #[trigger] common_divisor(d, fx, fy) implies d <= 1 by {
        lemma_exact_quotient(fx, d);
        lemma_exact_quotient(fy, d);
        let e = d * g;
        assert(e > 0 && e >= d && (d > 1 ==> e > g)) by (nonlinear_arith)
            requires
                d > 0,
                g > 0,
                e == d * g,
        ;
        assert(dx == (fx / d) * e) by (nonlinear_arith)
            requires
                dx == g * fx,
                fx == (fx / d) * d,
                e == d * g,
        ;
        assert(dy == (fy / d) * e) by (nonlinear_arith)
            requires
                dy == g * fy,
                fy == (fy / d) * d,
                e == d * g,
        ;
        lemma_multiple(fx / d, e);
        lemma_multiple(fy / d, e);
        assert(common_divisor(e, dx, dy));
    }
}

/// A primitive vector is the primitive vector along itself.
pub proof fn lemma_primitive_of_primitive(dx: int, dy: int)
    requires
        is_primitive(dx, dy),
    ensures
        primitive(dx, dy) == (dx, dy),
{
    lemma_gcd_is(1, dx, dy);
}

proof fn lemma_gcd_scales_nonnegative(k: int, g: int, a: int, b: int)
    requires
        k > 0,
        a >= 0,
        b >= 0,
        is_gcd(g, a, b),
    ensures
        is_gcd(k * g, k * a, k * b),
    decreases b,
{
    if b == 0 {
        assert(k * b == 0);
        if a == 0 {
            lemma_multiple(0, g + 1);
            assert(common_divisor(g + 1, a, b));
        }
        lemma_multiple(1, a);
        lemma_multiple(0, a);
        assert forall|d: int| #[trigger] common_divisor(d, a, b) implies d <= a by {
            lemma_divisor_at_most(d, a);
        }
        lemma_gcd_unique(g, a, a, b);
        let ka = k * a;
        assert(ka > 0) by (nonlinear_arith)
            requires
                k > 0,
                a > 0,
                ka == k * a,
        ;
        lemma_multiple(1, ka);
        lemma_multiple(0, ka);
        assert forall|d: int| #[trigger] common_divisor(d, ka, 0) implies d <= ka by {
            lemma_divisor_at_most(d, ka);
        }
    } else {
        let r = a % b;
        lemma_remainder_step(g, a, b);
        assert forall|d: int| #[trigger] common_divisor(d, b, r) implies d <= g by {
            lemma_remainder_step(d, a, b);
        }
        lemma_gcd_scales_nonnegative(k, g, b, r);
        lemma_truncate_middle(a, k, b);
        let kb = k * b;
        assert(kb > 0) by (nonlinear_arith)
            requires
                k > 0,
                b > 0,
                kb == k * b,
        ;
        lemma_remainder_step(k * g, k * a, kb);
        assert forall|d: int| #[trigger] common_divisor(d, k * a, kb) implies d <= k * g by {
            lemma_remainder_step(d, k * a, kb);
        }
    }
}

/// A common factor of two numbers is a factor of their greatest common
/// divisor.
pub proof fn lemma_gcd_of_multiples(k: int, a: int, b: int)
    requires
        k > 0,
        a != 0 || b != 0,
    ensures
        gcd(k * a, k * b) == k * gcd(a, b),
{
    lemma_gcd_exists(a, b);
    let g = gcd(a, b);
    lemma_gcd_of_magnitudes(g, a, b);
    lemma_gcd_scales_nonnegative(k, g, magnitude(a), magnitude(b));
    assert(k * magnitude(a) == magnitude(k * a) && k * magnitude(b) == magnitude(k * b))
        by (nonlinear_arith)
        requires
            k > 0,
    ;
    lemma_gcd_of_magnitudes(k * g, k * a, k * b);
    lemma_gcd_is(k * g, k * a, k * b);
}

/// A vector and its positive multiples have the same primitive vector: what
/// counts is the direction, not the length.
pub proof fn lemma_primitive_of_multiple(k: int, dx: int, dy: int)
    requires
        k > 0,
        dx != 0 || dy != 0,
    ensures
        primitive(k * dx, k * dy) == primitive(dx, dy),
{
    lemma_primitive_along(dx, dy);
    lemma_gcd_of_multiples(k, dx, dy);
    let g = gcd(dx, dy);
    let f = primitive(dx, dy);
    let kg = k * g;
    assert(kg > 0 && k * dx == f.0 * kg && k * dy == f.1 * kg) by (nonlinear_arith)
        requires
            k > 0,
            g > 0,
            kg == k * g,
            dx == g * f.0,
            dy == g * f.1,
    ;
    lemma_multiple(f.0, kg);
    lemma_multiple(f.1, kg);
}

/// Primitive vectors that point the same way are equal.
pub proof fn lemma_primitive_unique(ax: int, ay: int, bx: int, by: int, j: int, k: int)
    requires
        is_primitive(ax, ay),
        is_primitive(bx, by),
        j > 0,
        k > 0,
        j * ax == k * bx,
        j * ay == k * by,
    ensures
        ax == bx,
        ay == by,
{
    lemma_multiple(0, 2);
    assert(ax != 0 || ay != 0) by {
        if ax == 0 && ay == 0 {
            assert(common_divisor(2, ax, ay));
        }
    }
    assert(bx != 0 || by != 0) by {
        if bx == 0 && by == 0 {
            assert(common_divisor(2, bx, by));
        }
    }
    lemma_primitive_of_primitive(ax, ay);
    lemma_primitive_of_primitive(bx, by);
    lemma_primitive_of_multiple(j, ax, ay);
    lemma_primitive_of_multiple(k, bx, by);
}

/// Computes the greatest common divisor by Euclid's algorithm.
fn greatest_common_divisor(a: u64, b: u64) -> (g: u64)
    requires
        a > 0 || b > 0,
    ensures
        is_gcd(g as int, a as int, b as int),
{
    let mut x: u64 = a;
    let mut y: u64 = b;
    while y != 0
        invariant
            x > 0 || y > 0,
            forall|d: int|
                #![trigger common_divisor(d, x as int, y as int)]
                #![trigger common_divisor(d, a as int, b as int)]
                common_divisor(d, x as int, y as int) <==> common_divisor(d, a as int, b as int),
        decreases y,
    {
        proof {
            assert forall|d: int|
                #![trigger common_divisor(d, y as int, (x % y) as int)]
                #![trigger common_divisor(d, a as int, b as int)]
                common_divisor(d, y as int, (x % y) as int) <==> common_divisor(
                    d,
                    a as int,
                    b as int,
                ) by {
                lemma_remainder_step(d, x as int, y as int);
            }
        }
        let r: u64 = x % y;
        x = y;
        y = r;
    }
    proof {
        lemma_multiple(1, x as int);
        lemma_multiple(0, x as int);
        assert(common_divisor(x as int, x as int, 0));
        assert forall|d: int| #[trigger] common_divisor(d, a as int, b as int) implies d <= x by {
            assert(common_divisor(d, x as int, y as int));
            lemma_divisor_at_most(d, x as int);
        }
    }
    x
}

/// Computes one component of the primitive vector: `v` divided by `g`, which
/// divides it.
fn exact_quotient(v: i64, g: u64) -> (q: i64)
    requires
        i64::MIN < v,
        g > 0,
        (v as int) % (g as int) == 0,
    ensures
        q == (v as int) / (g as int),
{
    if v < 0 {
        let m: u64 = (-v) as u64;
        let k: u64 = m / g;
        proof {
            lemma_divides_negation(g as int, v as int);
            lemma_exact_quotient(m as int, g as int);
            assert(v as int == (-(k as int)) * (g as int)) by (nonlinear_arith)
                requires
                    m as int == (k as int) * (g as int),
                    v as int == -(m as int),
            ;
            lemma_multiple(-(k as int), g as int);
        }
        -(k as i64)
    } else {
        let m: u64 = v as u64;
        (m / g) as i64
    }
}

/// Computes the primitive vector along `(dx, dy)`.
pub(crate) fn reduce(dx: i64, dy: i64) -> (f: (i64, i64))
    requires
        dx != 0 || dy != 0,
        i64::MIN < dx,
        i64::MIN < dy,
    ensures
        (f.0 as int, f.1 as int) == primitive(dx as int, dy as int),
        is_primitive(f.0 as int, f.1 as int),
{
    let ax: u64 = if dx < 0 {
        (-dx) as u64
    } else {
        dx as u64
    };
    let ay: u64 = if dy < 0 {
        (-dy) as u64
    } else {
        dy as u64
    };
    let g: u64 = greatest_common_divisor(ax, ay);
    proof {
        lemma_gcd_of_magnitudes(g as int, dx as int, dy as int);
        lemma_gcd_is(g as int, dx as int, dy as int);
        lemma_primitive_along(dx as int, dy as int);
    }
    (exact_quotient(dx, g), exact_quotient(dy, g))
}

} // verus!
