//! The public half: the totient and the smallest exponent coprime to it.

use vstd::arithmetic::div_mod::{lemma_fundamental_div_mod_converse, lemma_small_mod};
use vstd::prelude::*;

use super::keys::{totient, PrimeBase, PublicKey};
use super::maths::gcd::{gcd, lemma_gcd_symmetric};
use super::maths::natural::{be_bytes, BigNat};

verus! {

/// `e` is the smallest number from two on that is coprime to `r`.
pub open spec fn is_public_exponent(e: nat, r: nat) -> bool {
    &&& e >= 2
    &&& gcd(e, r) == 1
    &&& forall|k: nat| 2 <= k < e ==> gcd(k, r) != 1
}

/// A number and its successor are coprime.
pub proof fn lemma_successor_coprime(r: nat)
    requires
        r >= 1,
    ensures
        gcd(r + 1, r) == 1,
{
    if r == 1 {
        assert(2nat % 1 == 0);
        assert(gcd(2, 1) == gcd(1, 0));
    } else {
        lemma_fundamental_div_mod_converse((r + 1) as int, r as int, 1, 1);
        assert((r + 1) % r == 1);
        assert(gcd(r + 1, r) == gcd(r, 1));
        assert(r % 1 == 0);
        assert(gcd(r, 1) == gcd(1, 0));
    }
}

/// A number and its predecessor are coprime.
pub proof fn lemma_predecessor_coprime(r: nat)
    requires
        r >= 2,
    ensures
        gcd((r - 1) as nat, r) == 1,
{
    lemma_successor_coprime((r - 1) as nat);
    lemma_gcd_symmetric(r, (r - 1) as nat);
}

/// From three on, the smallest coprime exponent lies strictly between one
/// and `r`.
pub proof fn lemma_public_exponent_below(e: nat, r: nat)
    requires
        is_public_exponent(e, r),
        r >= 3,
    ensures
        1 < e < r,
{
    lemma_predecessor_coprime(r);
    if e >= r {
        assert(gcd((r - 1) as nat, r) != 1);
    }
}

/// The totient of a base: `lcm(p - 1, q - 1)`.
pub fn generate_totient(base: &PrimeBase) -> (r: BigNat)
    requires
        base.p@ >= 1,
        base.q@ >= 1,
    ensures
        r@ == totient(base.p@, base.q@),
{
    let one = BigNat::one();
    base.p.difference(&one).lcm(&base.q.difference(&one))
}

/// The public key of a base, together with the totient.
///
/// The exponent is the smallest number from two on that is coprime to the
/// totient. No number is coprime to a totient of zero; the exponent is then
/// two.
pub fn generate_public_key(base: &PrimeBase) -> (pair: (PublicKey, BigNat))
    requires
        base.p@ >= 1,
        base.q@ >= 1,
    ensures
        pair.1@ == totient(base.p@, base.q@),
        pair.0@.n() == base.modulus@,
        pair.1@ != 0 ==> is_public_exponent(pair.0@.e(), pair.1@),
        pair.1@ == 0 ==> pair.0@.e() == 2,
        pair.0@.exponent == be_bytes(pair.0@.e()),
        pair.0@.modulus == be_bytes(pair.0@.n()),
{
    let r: BigNat = generate_totient(base);
    let one = BigNat::one();
    let mut e: BigNat = BigNat::from_u64(2);
    if !r.is_zero() {
        loop
            invariant
                2 <= e@ <= r@ + 1,
                r@ != 0,
                one@ == 1,
                forall|k: nat| 2 <= k < e@ ==> gcd(k, r@) != 1,
            ensures
                is_public_exponent(e@, r@),
            decreases r@ + 1 - e@,
        {
            if e.gcd(&r).is_one() {
                break ;
            }
            proof {
                lemma_successor_coprime(r@);
            }
            e = e.sum(&one);
        }
    }
    (PublicKey::new(&e, &base.modulus), r)
}

} // verus!
