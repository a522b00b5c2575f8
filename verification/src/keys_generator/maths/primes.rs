//! Prime numbers, and what makes the cipher undo itself: Bezout's identity,
//! Euclid's lemma and Fermat's little theorem.

use vstd::arithmetic::div_mod::{
    lemma_fundamental_div_mod, lemma_mod_equivalence, lemma_mod_multiples_basic,
    lemma_mul_mod_noop_general, lemma_small_mod,
};
use vstd::arithmetic::power::{
    lemma1_pow, lemma_pow1, lemma_pow_adds, lemma_pow_mod_noop, lemma_pow_multiplies,
    lemma_pow_positive, pow,
};
use vstd::prelude::*;

use super::gcd::{divides, gcd, lemma_gcd_is_greatest_common_divisor};

verus! {

/// `p` is a prime number: at least two, and divided by nothing between one
/// and itself.
pub open spec fn is_prime(p: nat) -> bool {
    p >= 2 && forall|d: nat| 1 < d < p ==> !#[trigger] divides(d, p)
}

/// Bezout's identity: the gcd of two numbers is a sum of multiples of them.
/// The two factors are returned.
pub proof fn lemma_bezout(a: nat, b: nat) -> (factors: (int, int))
    ensures
        a * factors.0 + b * factors.1 == gcd(a, b),
    decreases b,
{
    if b == 0 {
        (1, 0)
    } else {
        let (x, y) = lemma_bezout(b, a % b);
        let q = (a / b) as int;
        lemma_fundamental_div_mod(a as int, b as int);
        assert(a * y + b * (x - q * y) == b * x + (a - b * q) * y) by (nonlinear_arith);
        (y, x - q * y)
    }
}

/// A divisor is not larger than what it divides, unless that is zero.
pub proof fn lemma_divisor_is_smaller(d: nat, n: nat)
    requires
        divides(d, n),
        n != 0,
    ensures
        d <= n,
{
    if d > n {
        lemma_small_mod(n, d);
    }
}

/// A prime is coprime to every number that it does not divide.
pub proof fn lemma_prime_is_coprime(p: nat, x: nat)
    requires
        is_prime(p),
        x % p != 0,
    ensures
        gcd(p, x) == 1,
{
    let g = gcd(p, x);
    lemma_gcd_is_greatest_common_divisor(p, x);
    lemma_divisor_is_smaller(g, p);
    if g == p {
        assert(divides(p, x));
    } else if g > 1 {
        assert(!divides(g, p));
    }
}

/// Euclid's lemma: a prime that divides a product divides one of the
/// factors.
pub proof fn lemma_euclid(p: nat, x: nat, y: nat)
    requires
        is_prime(p),
        (x * y) % p == 0,
    ensures
        x % p == 0 || y % p == 0,
{
    if x % p != 0 {
        lemma_prime_is_coprime(p, x);
        let (u, v) = lemma_bezout(p, x);
        let t = ((x * y) / p) as int;
        lemma_fundamental_div_mod((x * y) as int, p as int);
        assert(x * y == p * t);
        assert(y == p * (u * y + v * t)) by (nonlinear_arith)
            requires
                p * u + x * v == 1,
                x * y == p * t,
        ;
        lemma_mod_multiples_basic(u * y + v * t, p as int);
        assert(p * (u * y + v * t) == (u * y + v * t) * p) by (nonlinear_arith);
    }
}

/// The product `f(1) * f(2) * ... * f(n)`.
pub open spec fn product(f: spec_fn(int) -> int, n: nat) -> int
    decreases n,
{
    if n == 0 {
        1
    } else {
        product(f, (n - 1) as nat) * f(n as int)
    }
}

/// The product `1 * 2 * ... * n`.
pub open spec fn factorial(n: nat) -> nat
    decreases n,
{
    if n == 0 {
        1
    } else {
        factorial((n - 1) as nat) * n
    }
}

/// `f` sends the numbers from one to `n` to numbers from one to `m`.
pub open spec fn maps_into(f: spec_fn(int) -> int, n: nat, m: nat) -> bool {
    forall|i: int| 1 <= i <= n ==> 1 <= #[trigger] f(i) <= m
}

/// `f` sends no two of the numbers from one to `n` to the same number.
pub open spec fn injective_on(f: spec_fn(int) -> int, n: nat) -> bool {
    forall|i: int, j: int| 1 <= i < j <= n ==> #[trigger] f(i) != #[trigger] f(j)
}

/// The pigeonhole principle: `n` numbers sent to `m` numbers, no two to the
/// same one, are at most `m`.
pub proof fn lemma_pigeonhole(f: spec_fn(int) -> int, n: nat, m: nat)
    requires
        maps_into(f, n, m),
        injective_on(f, n),
    ensures
        n <= m,
    decreases n,
{
    if n > 0 {
        let top = f(n as int);
        assert(1 <= top <= m);
        let g = |i: int|
            if f(i) < top {
                f(i)
            } else {
                f(i) - 1
            };
        assert forall|i: int| 1 <= i <= n - 1 implies 1 <= #[trigger] g(i) <= m - 1 by {
            assert(f(i) != f(n as int));
            assert(1 <= f(i) <= m);
        }
        assert forall|i: int, j: int| 1 <= i < j <= n - 1 implies #[trigger] g(i) != #[trigger] g(
            j,
        ) by {
            assert(f(i) != f(j));
            assert(f(i) != f(n as int));
            assert(f(j) != f(n as int));
        }
        lemma_pigeonhole(g, (n - 1) as nat, (m - 1) as nat);
    }
}

/// Among `n` numbers sent to the numbers from one to `n`, no two to the same
/// one, some number is sent to `n`. It is returned.
pub proof fn lemma_hits_top(f: spec_fn(int) -> int, n: nat) -> (j: int)
    requires
        n >= 1,
        maps_into(f, n, n),
        injective_on(f, n),
    ensures
        1 <= j <= n,
        f(j) == n,
{
    if exists|j: int| 1 <= j <= n && #[trigger] f(j) == n {
        choose|j: int| 1 <= j <= n && #[trigger] f(j) == n
    } else {
        assert forall|i: int| 1 <= i <= n implies 1 <= #[trigger] f(i) <= n - 1 by {
            assert(1 <= f(i) <= n);
        }
        lemma_pigeonhole(f, n, (n - 1) as nat);
        0
    }
}

/// Two functions that agree from one to `n` have the same product.
pub proof fn lemma_product_agree(f: spec_fn(int) -> int, g: spec_fn(int) -> int, n: nat)
    requires
        forall|i: int| 1 <= i <= n ==> #[trigger] f(i) == g(i),
    ensures
        product(f, n) == product(g, n),
    decreases n,
{
    if n > 0 {
        lemma_product_agree(f, g, (n - 1) as nat);
        assert(f(n as int) == g(n as int));
    }
}

/// Taking one factor out: when `g` is `f` with the `j`-th number left out,
/// the product of `f` is that of `g` times `f(j)`.
pub proof fn lemma_product_skip(f: spec_fn(int) -> int, g: spec_fn(int) -> int, n: nat, j: int)
    requires
        1 <= j <= n,
        forall|i: int| 1 <= i < j ==> #[trigger] g(i) == f(i),
        forall|i: int| j <= i < n ==> #[trigger] g(i) == f(i + 1),
    ensures
        product(f, n) == product(g, (n - 1) as nat) * f(j),
    decreases n,
{
    if j == n {
        lemma_product_agree(g, f, (n - 1) as nat);
    } else {
        lemma_product_skip(f, g, (n - 1) as nat, j);
        let rest = product(g, (n - 2) as nat);
        assert(g(n - 1) == f(n as int));
        assert(product(g, (n - 1) as nat) == rest * f(n as int));
        assert(product(f, (n - 1) as nat) == rest * f(j));
        assert(rest * f(j) * f(n as int) == rest * f(n as int) * f(j)) by (nonlinear_arith);
    }
}

/// The product over a rearrangement: when `f` sends the numbers from one to
/// `n` to themselves, no two to the same one, its product is `n!`.
pub proof fn lemma_permutation_product(f: spec_fn(int) -> int, n: nat)
    requires
        maps_into(f, n, n),
        injective_on(f, n),
    ensures
        product(f, n) == factorial(n),
    decreases n,
{
    if n > 0 {
        let j = lemma_hits_top(f, n);
        let g = |i: int|
            if i < j {
                f(i)
            } else {
                f(i + 1)
            };
        assert forall|i: int| 1 <= i <= n - 1 implies 1 <= #[trigger] g(i) <= n - 1 by {
            if i < j {
                assert(f(i) != f(j));
                assert(1 <= f(i) <= n);
            } else {
                assert(f(j) != f(i + 1));
                assert(1 <= f(i + 1) <= n);
            }
        }
        assert forall|i: int, k: int| 1 <= i < k <= n - 1 implies #[trigger] g(i) != #[trigger] g(
            k,
        ) by {
            let from = if i < j {
                i
            } else {
                i + 1
            };
            let to = if k < j {
                k
            } else {
                k + 1
            };
            assert(f(from) != f(to));
        }
        lemma_permutation_product(g, (n - 1) as nat);
        lemma_product_skip(f, g, n, j);
        assert(product(g, (n - 1) as nat) * f(j) == factorial((n - 1) as nat) * n);
    }
}

/// A prime does not divide the factorial of a smaller number.
pub proof fn lemma_factorial_not_divided(p: nat, n: nat)
    requires
        is_prime(p),
        n < p,
    ensures
        factorial(n) % p != 0,
    decreases n,
{
    if n == 0 {
        lemma_small_mod(1, p);
    } else {
        lemma_factorial_not_divided(p, (n - 1) as nat);
        if factorial(n) % p == 0 {
            lemma_euclid(p, factorial((n - 1) as nat), n);
            lemma_small_mod(n, p);
        }
    }
}

/// The remainders of the multiples of `a` modulo `p`.
pub open spec fn multiples(a: nat, p: nat) -> spec_fn(int) -> int {
    |i: int| (a * i) % (p as int)
}

/// The product of the first `n` of these remainders is congruent to
/// `a^n * n!`.
pub proof fn lemma_multiples_product(a: nat, p: nat, n: nat)
    requires
        p > 0,
    ensures
        product(multiples(a, p), n) % (p as int) == (pow(a as int, n) * factorial(n)) % (p as int),
    decreases n,
{
    reveal(pow);
    if n > 0 {
        let m = p as int;
        let before = (n - 1) as nat;
        lemma_multiples_product(a, p, before);
        let left = product(multiples(a, p), before);
        let right = pow(a as int, before) * factorial(before);
        let step: int = a as int * n as int;
        assert(product(multiples(a, p), n) == left * (step % m));
        lemma_mul_mod_noop_general(left, step, m);
        lemma_mul_mod_noop_general(right, step, m);
        assert((left * (step % m)) % m == (right * step) % m);
        assert(right * step == pow(a as int, n) * factorial(n)) by (nonlinear_arith)
            requires
                right == pow(a as int, before) * factorial(before),
                step == a as int * n as int,
                pow(a as int, n) == a * pow(a as int, before),
                factorial(n) == factorial(before) * n,
        ;
    }
}

/// Fermat's little theorem: a number that a prime `p` does not divide,
/// raised to the power `p - 1`, leaves the remainder one.
pub proof fn lemma_fermat(p: nat, a: nat)
    requires
        is_prime(p),
        a % p != 0,
    ensures
        pow(a as int, (p - 1) as nat) % (p as int) == 1,
{
    let m = p as int;
    let n = (p - 1) as nat;
    let f = multiples(a, p);
    assert forall|i: int| 1 <= i <= n implies 1 <= #[trigger] f(i) <= n by {
        if (a * i) % m == 0 {
            lemma_euclid(p, a, i as nat);
            lemma_small_mod(i as nat, p);
        }
    }
    assert forall|i: int, j: int| 1 <= i < j <= n implies #[trigger] f(i) != #[trigger] f(j) by {
        if f(i) == f(j) {
            lemma_mod_equivalence(a * j, a * i, m);
            assert(a * j - a * i == a * (j - i)) by (nonlinear_arith);
            lemma_euclid(p, a, (j - i) as nat);
            lemma_small_mod((j - i) as nat, p);
        }
    }
    lemma_permutation_product(f, n);
    lemma_multiples_product(a, p, n);
    let power = pow(a as int, n);
    let fact = factorial(n) as int;
    assert(fact % m == (power * fact) % m);
    assert(power >= 1) by {
        lemma_small_mod(0, p);
        lemma_pow_positive(a as int, n);
    }
    lemma_mod_equivalence(power * fact, fact, m);
    assert(power * fact - fact == fact * (power - 1)) by (nonlinear_arith);
    assert(fact * (power - 1) >= 0) by (nonlinear_arith)
        requires
            fact >= 0,
            power >= 1,
    ;
    lemma_euclid(p, fact as nat, (power - 1) as nat);
    lemma_factorial_not_divided(p, n);
    lemma_mod_equivalence(power, 1, m);
    lemma_small_mod(1, p);
}

/// Powers cycle modulo a prime: raising to one more than a multiple of
/// `p - 1` leaves every number as it is, modulo `p`.
pub proof fn lemma_power_cycle(p: nat, m: nat, k: nat)
    requires
        is_prime(p),
    ensures
        pow(m as int, 1 + k * (p - 1) as nat) % (p as int) == m % p,
{
    let modulus = p as int;
    let base = m as int;
    let turn = (p - 1) as nat;
    let whole = pow(base, k * turn);
    assert(k * turn >= 0) by (nonlinear_arith)
        requires
            k >= 0,
            turn >= 0,
    ;
    lemma_pow_adds(base, 1, k * turn);
    lemma_pow1(base);
    assert(pow(base, 1 + k * turn) == base * whole);
    if m % p == 0 {
        lemma_mul_mod_noop_general(base, whole, modulus);
        assert((base % modulus) * whole == 0) by (nonlinear_arith)
            requires
                base % modulus == 0,
        ;
        lemma_small_mod(0, p);
    } else {
        lemma_fermat(p, m);
        lemma_pow_multiplies(base, turn, k);
        assert(turn * k == k * turn) by (nonlinear_arith);
        lemma_pow_mod_noop(pow(base, turn), k, modulus);
        lemma1_pow(k);
        lemma_small_mod(1, p);
        assert(whole % modulus == 1);
        lemma_mul_mod_noop_general(base, whole, modulus);
        assert(base * 1 == base);
    }
}

/// Two different primes are coprime.
pub proof fn lemma_primes_are_coprime(p: nat, q: nat)
    requires
        is_prime(p),
        is_prime(q),
        p != q,
    ensures
        gcd(p, q) == 1,
{
    if q % p == 0 {
        assert(divides(p, q));
        lemma_divisor_is_smaller(p, q);
    }
    lemma_prime_is_coprime(p, q);
}

/// What is congruent modulo each of two different primes is congruent
/// modulo their product.
pub proof fn lemma_congruent_modulo_product(p: nat, q: nat, x: int, y: int)
    requires
        is_prime(p),
        is_prime(q),
        p != q,
        x % (p as int) == y % (p as int),
        x % (q as int) == y % (q as int),
    ensures
        x % ((p * q) as int) == y % ((p * q) as int),
{
    let gap = x - y;
    let n = (p * q) as int;
    assert(n > 0) by (nonlinear_arith)
        requires
            n == p * q,
            p >= 2,
            q >= 2,
    ;
    lemma_mod_equivalence(x, y, p as int);
    lemma_mod_equivalence(x, y, q as int);
    lemma_primes_are_coprime(p, q);
    let (u, v) = lemma_bezout(p, q);
    let by_p = gap / (p as int);
    let by_q = gap / (q as int);
    lemma_fundamental_div_mod(gap, p as int);
    lemma_fundamental_div_mod(gap, q as int);
    assert(gap == (by_q * u + by_p * v) * n) by (nonlinear_arith)
        requires
            p * u + q * v == 1,
            gap == p * by_p,
            gap == q * by_q,
            n == p * q,
    ;
    lemma_mod_multiples_basic(by_q * u + by_p * v, n);
    lemma_mod_equivalence(x, y, n);
}

} // verus!
