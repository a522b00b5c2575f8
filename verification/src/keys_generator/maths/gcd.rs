//! Greatest common divisor and least common multiple.

use vstd::arithmetic::div_mod::{
    lemma_add_mod_noop, lemma_fundamental_div_mod, lemma_mod_self_0, lemma_mul_mod_noop_right,
    lemma_small_mod, lemma_sub_mod_noop,
};
use vstd::prelude::*;

verus! {

/// `d` divides `n`. Zero divides nothing, not even zero.
pub open spec fn divides(d: nat, n: nat) -> bool {
    d != 0 && n % d == 0
}

/// The greatest common divisor of `a` and `b`, by Euclid's recursion.
/// `gcd(a, 0) == a`, so `gcd(0, 0) == 0`.
pub open spec fn gcd(a: nat, b: nat) -> nat
    decreases b,
{
    if b == 0 {
        a
    } else {
        gcd(b, a % b)
    }
}

/// The least common multiple of `a` and `b`; `lcm(0, 0) == 0`.
pub open spec fn lcm(a: nat, b: nat) -> nat {
    if a == 0 && b == 0 {
        0
    } else {
        (a / gcd(a, b)) * b
    }
}

/// The gcd does not depend on the order of its arguments.
pub proof fn lemma_gcd_symmetric(a: nat, b: nat)
    ensures
        gcd(a, b) == gcd(b, a),
{
    if a == b {
    } else if a < b {
        if a == 0 {
        } else {
            lemma_small_mod(a, b);
            assert(gcd(a, b) == gcd(b, a % b));
        }
    } else {
        if b == 0 {
        } else {
            lemma_small_mod(b, a);
            assert(gcd(b, a) == gcd(a, b % a));
        }
    }
}

/// The gcd is positive unless both arguments are zero.
pub proof fn lemma_gcd_positive(a: nat, b: nat)
    requires
        a != 0 || b != 0,
    ensures
        gcd(a, b) > 0,
    decreases b,
{
    if b != 0 {
        lemma_gcd_positive(b, a % b);
    }
}

/// A common divisor of `b` and `a % b` divides `a`.
proof fn lemma_divides_back(a: nat, b: nat, d: nat)
    requires
        b != 0,
        divides(d, b),
        divides(d, a % b),
    ensures
        divides(d, a),
{
    let q: int = (a / b) as int;
    let di: int = d as int;
    lemma_fundamental_div_mod(a as int, b as int);
    // a == b * q + a % b, and d divides both summands.
    lemma_mul_mod_noop_right(q, b as int, di);
    assert((q * (b as int)) % di == (q * ((b as int) % di)) % di);
    assert(q * 0 == 0);
    lemma_small_mod(0, d);
    assert((q * (b as int)) % di == 0);
    assert((b as int) * q == q * (b as int)) by (nonlinear_arith);
    lemma_add_mod_noop(q * (b as int), (a % b) as int, di);
    assert(a as int == q * (b as int) + (a % b) as int);
}

/// A common divisor of `a` and `b` divides `a % b`.
proof fn lemma_divides_forth(a: nat, b: nat, d: nat)
    requires
        b != 0,
        divides(d, a),
        divides(d, b),
    ensures
        divides(d, a % b),
{
    let q: int = (a / b) as int;
    let di: int = d as int;
    lemma_fundamental_div_mod(a as int, b as int);
    lemma_mul_mod_noop_right(q, b as int, di);
    assert(q * 0 == 0);
    lemma_small_mod(0, d);
    assert((q * (b as int)) % di == 0);
    assert((b as int) * q == q * (b as int)) by (nonlinear_arith);
    // a % b == a - q * b, a difference of two multiples of d.
    lemma_sub_mod_noop(a as int, q * (b as int), di);
    assert((a % b) as int == a as int - q * (b as int));
}

/// What the name says: `gcd(a, b)` divides both `a` and `b`, and every
/// common divisor of `a` and `b` divides it. (For `a == b == 0` the gcd is
/// zero, which divides nothing.)
pub proof fn lemma_gcd_is_greatest_common_divisor(a: nat, b: nat)
    requires
        a != 0 || b != 0,
    ensures
        divides(gcd(a, b), a),
        divides(gcd(a, b), b),
        forall|d: nat| divides(d, a) && divides(d, b) ==> #[trigger] divides(d, gcd(a, b)),
    decreases b,
{
    lemma_gcd_positive(a, b);
    if b == 0 {
        lemma_mod_self_0(a as int);
        lemma_small_mod(0, a);
    } else {
        let r: nat = a % b;
        let g: nat = gcd(b, r);
        assert(gcd(a, b) == g);
        lemma_gcd_is_greatest_common_divisor(b, r);
        lemma_divides_back(a, b, g);
        assert forall|d: nat| divides(d, a) && divides(d, b) implies #[trigger] divides(d, g) by {
            lemma_divides_forth(a, b, d);
        }
    }
}

/// The lcm of two numbers other than zero is a multiple of each: the first
/// times the second's share beyond the gcd, and the other way round.
pub proof fn lemma_lcm_is_common_multiple(a: nat, b: nat)
    requires
        a != 0,
        b != 0,
    ensures
        lcm(a, b) == (a / gcd(a, b)) * b,
        lcm(a, b) == a * (b / gcd(a, b)),
{
    let g = gcd(a, b);
    lemma_gcd_is_greatest_common_divisor(a, b);
    lemma_fundamental_div_mod(a as int, g as int);
    lemma_fundamental_div_mod(b as int, g as int);
    let share_a = a / g;
    let share_b = b / g;
    assert(share_a * b == a * share_b) by (nonlinear_arith)
        requires
            a == g * share_a,
            b == g * share_b,
    ;
}

/// The greatest common divisor of two machine integers; `compute_gcd(a, 0)`
/// is `a`.
pub fn compute_gcd(a: usize, b: usize) -> (g: usize)
    ensures
        g as nat == gcd(a as nat, b as nat),
    decreases
        (if a < b {
            a
        } else {
            b
        }),
{
    let greatest: usize = if a < b {
        b
    } else {
        a
    };
    let lowest: usize = if a < b {
        a
    } else {
        b
    };
    proof {
        lemma_gcd_symmetric(a as nat, b as nat);
    }
    if lowest == 0 {
        return greatest;
    }
    let left: usize = greatest % lowest;
    assert(gcd(greatest as nat, lowest as nat) == gcd(lowest as nat, left as nat));
    if left == 0 {
        assert(gcd(lowest as nat, 0) == lowest as nat);
        return lowest;
    }
    compute_gcd(lowest, left)
}

} // verus!
