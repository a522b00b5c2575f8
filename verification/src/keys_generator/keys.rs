//! The key types and the generator of key pairs.

use num_primes::Generator;
use vstd::arithmetic::div_mod::{lemma_fundamental_div_mod, lemma_mod_bound, lemma_small_mod};
use vstd::arithmetic::power::{lemma_pow_mod_noop, lemma_pow_multiplies, pow};
use vstd::prelude::*;

use super::maths::gcd::{gcd, lcm, lemma_lcm_is_common_multiple};
use super::maths::natural::{
    be_bytes, be_value, copy_range, lemma_be_bytes_value, mod_pow, BigNat,
};
use super::maths::primes::{is_prime, lemma_congruent_modulo_product, lemma_power_cycle};
use super::private_keys::generate_private_key;
use super::public_keys::{generate_public_key, is_public_exponent, lemma_public_exponent_below};

verus! {

/// How many bits a sampled prime has at most.
pub const PRIME_BITS: usize = 1024;

/// How many pairs of primes the generator samples before it gives up.
pub const MAX_KEY_ATTEMPTS: usize = 8;

/// What a key holds: an exponent and a modulus, each a big-endian byte
/// string.
pub ghost struct KeyView {
    pub exponent: Seq<u8>,
    pub modulus: Seq<u8>,
}

impl KeyView {
    /// The exponent as a number.
    pub open spec fn e(self) -> nat {
        be_value(self.exponent)
    }

    /// The modulus as a number.
    pub open spec fn n(self) -> nat {
        be_value(self.modulus)
    }
}

/// The public half of a key pair: the exponent that encrypts, and the
/// modulus.
#[derive(Debug, PartialEq)]
pub struct PublicKey {
    encryption_value: Vec<u8>,
    modulus: Vec<u8>,
}

/// The private half of a key pair: the exponent that decrypts, and the
/// modulus. No frame of the protocol can carry one.
#[derive(Debug)]
pub struct PrivateKey {
    decryption_value: Vec<u8>,
    modulus: Vec<u8>,
}

impl View for PublicKey {
    type V = KeyView;

    closed spec fn view(&self) -> KeyView {
        KeyView { exponent: self.encryption_value@, modulus: self.modulus@ }
    }
}

impl View for PrivateKey {
    type V = KeyView;

    closed spec fn view(&self) -> KeyView {
        KeyView { exponent: self.decryption_value@, modulus: self.modulus@ }
    }
}

impl PrivateKey {
    /// The private key with the given exponent and modulus, each stored as its
    /// shortest byte string.
    pub fn new(decryption_value: &BigNat, modulus: &BigNat) -> (key: Self)
        ensures
            key@.exponent == be_bytes(decryption_value@),
            key@.modulus == be_bytes(modulus@),
            key@.e() == decryption_value@,
            key@.n() == modulus@,
    {
        proof {
            lemma_be_bytes_value(decryption_value@);
            lemma_be_bytes_value(modulus@);
        }
        PrivateKey {
            decryption_value: decryption_value.to_bytes_be(),
            modulus: modulus.to_bytes_be(),
        }
    }

    /// The modulus.
    pub fn modulus(&self) -> (n: BigNat)
        ensures
            n@ == self@.n(),
    {
        BigNat::from_bytes_be(self.modulus.as_slice())
    }

    /// The exponent that decrypts.
    pub fn decryption_value(&self) -> (d: BigNat)
        ensures
            d@ == self@.e(),
    {
        BigNat::from_bytes_be(self.decryption_value.as_slice())
    }
}

impl PublicKey {
    /// The public key with the given exponent and modulus, each stored as its
    /// shortest byte string.
    pub fn new(encryption_value: &BigNat, modulus: &BigNat) -> (key: Self)
        ensures
            key@.exponent == be_bytes(encryption_value@),
            key@.modulus == be_bytes(modulus@),
            key@.e() == encryption_value@,
            key@.n() == modulus@,
    {
        proof {
            lemma_be_bytes_value(encryption_value@);
            lemma_be_bytes_value(modulus@);
        }
        PublicKey {
            encryption_value: encryption_value.to_bytes_be(),
            modulus: modulus.to_bytes_be(),
        }
    }

    /// The public key that holds exactly these byte strings, as a peer sent
    /// them.
    pub fn from_bytes(encryption_value: Vec<u8>, modulus: Vec<u8>) -> (key: Self)
        ensures
            key@ == (KeyView { exponent: encryption_value@, modulus: modulus@ }),
    {
        PublicKey { encryption_value, modulus }
    }

    /// The modulus.
    pub fn modulus(&self) -> (n: BigNat)
        ensures
            n@ == self@.n(),
    {
        BigNat::from_bytes_be(self.modulus.as_slice())
    }

    /// The exponent that encrypts.
    pub fn encryption_value(&self) -> (e: BigNat)
        ensures
            e@ == self@.e(),
    {
        BigNat::from_bytes_be(self.encryption_value.as_slice())
    }

    /// The bytes of the exponent, as stored.
    pub fn encryption_bytes(&self) -> (bytes: &Vec<u8>)
        ensures
            bytes@ == self@.exponent,
    {
        &self.encryption_value
    }

    /// The bytes of the modulus, as stored.
    pub fn modulus_bytes(&self) -> (bytes: &Vec<u8>)
        ensures
            bytes@ == self@.modulus,
    {
        &self.modulus
    }
}

impl Clone for PublicKey {
    fn clone(&self) -> (copy: Self)
        ensures
            copy@ == self@,
    {
        let encryption_value = copy_range(
            self.encryption_value.as_slice(),
            0,
            self.encryption_value.len(),
        );
        let modulus = copy_range(self.modulus.as_slice(), 0, self.modulus.len());
        assert(encryption_value@ =~= self.encryption_value@);
        assert(modulus@ =~= self.modulus@);
        PublicKey { encryption_value, modulus }
    }
}

/// Two primes and their product, used once to make a key pair.
pub struct PrimeBase {
    pub p: BigNat,
    pub q: BigNat,
    pub modulus: BigNat,
}

impl PrimeBase {
    /// The base of `p` and `q`.
    pub fn new(p: BigNat, q: BigNat) -> (base: PrimeBase)
        ensures
            base.p@ == p@,
            base.q@ == q@,
            base.modulus@ == p@ * q@,
    {
        let modulus = p.product(&q);
        PrimeBase { p, q, modulus }
    }
}

/// The order in which the private exponent undoes the public one:
/// `lcm(p - 1, q - 1)`.
pub open spec fn totient(p: nat, q: nat) -> nat {
    lcm((p - 1) as nat, (q - 1) as nat)
}

/// The pairs `p`, `q` from which a key pair is made: different, not zero, and
/// with a totient large enough to hold an exponent strictly between one and
/// itself.
pub open spec fn usable_primes(p: nat, q: nat) -> bool {
    p >= 1 && q >= 1 && p != q && totient(p, q) >= 3
}

/// `(e, n)` and `(d, n)` are the key pair made from `p` and `q`: `e` is the
/// smallest exponent from two on that is coprime to the totient, and `d` is
/// its inverse modulo the totient.
pub open spec fn is_key_pair(p: nat, q: nat, e: nat, d: nat, n: nat) -> bool {
    let r = totient(p, q);
    &&& usable_primes(p, q)
    &&& n == p * q
    &&& is_public_exponent(e, r)
    &&& 1 < e < r
    &&& d < r
    &&& (e * d) % r == 1
}

/// The private exponent undoes the public one: for a key pair made from two
/// primes, raising to `e` and then to `d`, each time modulo `n`, gives back
/// every number below `n`, and the remainder of every other.
pub proof fn lemma_key_pair_inverts(p: nat, q: nat, e: nat, d: nat, n: nat, m: nat)
    requires
        is_prime(p),
        is_prime(q),
        is_key_pair(p, q, e, d, n),
    ensures
        mod_pow(mod_pow(m, e, n), d, n) == m % n,
{
    let r = totient(p, q);
    let a = (p - 1) as nat;
    let b = (q - 1) as nat;
    let modulus = n as int;
    assert(modulus >= 4) by (nonlinear_arith)
        requires
            modulus == p * q,
            p >= 2,
            q >= 2,
    ;
    lemma_lcm_is_common_multiple(a, b);
    let share_a = a / gcd(a, b);
    let share_b = b / gcd(a, b);
    let turns = (e * d) / r;
    lemma_fundamental_div_mod((e * d) as int, r as int);
    assert(e * d == 1 + (turns * share_b) * a) by (nonlinear_arith)
        requires
            e * d == r * turns + 1,
            r == a * share_b,
    ;
    assert(e * d == 1 + (turns * share_a) * b) by (nonlinear_arith)
        requires
            e * d == r * turns + 1,
            r == share_a * b,
    ;
    lemma_power_cycle(p, m, turns * share_b);
    lemma_power_cycle(q, m, turns * share_a);
    let raised = pow(m as int, e * d);
    lemma_congruent_modulo_product(p, q, raised, m as int);
    let once = pow(m as int, e);
    lemma_pow_mod_noop(once, d, modulus);
    lemma_pow_multiplies(m as int, e, d);
    assert(0 <= once % modulus < modulus) by {
        lemma_mod_bound(once, modulus);
    }
    assert(0 <= raised % modulus < modulus) by {
        lemma_mod_bound(raised, modulus);
    }
}

/// No usable key pair came out of `MAX_KEY_ATTEMPTS` samples.
#[derive(Debug, Clone, Copy, PartialEq, Eq)]
pub struct KeyGenFailed;

/// `num_primes::Generator::new_prime`, whose result is written out with
/// `to_bytes_be`. It draws random numbers of at most `bits` bits until one
/// passes its primality tests. Two things are left to chance and to no
/// contract: that a number passes at all, and that the number 3 is never
/// drawn, on which the tests panic. A draw hits 3 with a chance of one in
/// `2^bits`; the precondition keeps that chance small and does not rule it
/// out.
/// Trusted: the number returned is below `2^bits`. That it is prime is
/// probable, and not claimed.
#[verifier::external_body]
fn prime_bytes(bits: usize) -> (out: Vec<u8>)
    requires
        bits >= 64,
    ensures
        be_value(out@) < pow(2, bits as nat),
{
    Generator::new_prime(bits).to_bytes_be()
}

/// Samples two different numbers that are probably prime, and multiplies
/// them. A second number that equals the first is thrown away and drawn
/// again, up to `MAX_KEY_ATTEMPTS` times.
pub fn generate_base() -> (base: Result<PrimeBase, KeyGenFailed>)
    ensures
        base matches Ok(found) ==> {
            &&& found.p@ != found.q@
            &&& found.p@ < pow(2, PRIME_BITS as nat)
            &&& found.q@ < pow(2, PRIME_BITS as nat)
            &&& found.modulus@ == found.p@ * found.q@
        },
{
    let p = BigNat::from_bytes_be(prime_bytes(PRIME_BITS).as_slice());
    let mut draw: usize = 0;
    while draw < MAX_KEY_ATTEMPTS
        invariant
            draw <= MAX_KEY_ATTEMPTS,
            p@ < pow(2, PRIME_BITS as nat),
        decreases MAX_KEY_ATTEMPTS - draw,
    {
        let q = BigNat::from_bytes_be(prime_bytes(PRIME_BITS).as_slice());
        if !p.equals(&q) {
            return Ok(PrimeBase::new(p, q));
        }
        draw += 1;
    }
    Err(KeyGenFailed)
}

/// The key pair made from a base, if the base is usable. Equal primes are
/// refused, and so is a base whose product is not its modulus.
pub fn keys_from_base(base: &PrimeBase) -> (keys: Option<(PublicKey, PrivateKey)>)
    ensures
        keys is Some <==> usable_primes(base.p@, base.q@) && base.modulus@ == base.p@ * base.q@,
        keys matches Some((public, private)) ==> {
            &&& is_key_pair(base.p@, base.q@, public@.e(), private@.e(), public@.n())
            &&& private@.n() == public@.n()
            &&& public@.n() != 0
            &&& public@.exponent == be_bytes(public@.e())
            &&& public@.modulus == be_bytes(public@.n())
        },
{
    if base.p.is_zero() || base.q.is_zero() || base.p.equals(&base.q) {
        return None;
    }
    if !base.p.product(&base.q).equals(&base.modulus) {
        return None;
    }
    let (public, r) = generate_public_key(base);
    let three = BigNat::from_u64(3);
    if r.less_than(&three) {
        return None;
    }
    proof {
        lemma_public_exponent_below(public@.e(), r@);
    }
    match generate_private_key(&public, &r, &base.modulus) {
        Some(private) => {
            assert(1nat % r@ == 1) by {
                lemma_small_mod(1, r@);
            }
            assert(base.p@ * base.q@ != 0) by (nonlinear_arith)
                requires
                    base.p@ >= 1,
                    base.q@ >= 1,
            ;
            Some((public, private))
        },
        None => None,
    }
}

/// `public` and `private` are a key pair as the generator makes them: the
/// key pair of two usable numbers below `2^PRIME_BITS`, both halves with the
/// same modulus, which is not zero.
pub open spec fn is_generated_pair(public: KeyView, private: KeyView) -> bool {
    &&& private.n() == public.n()
    &&& public.n() != 0
    &&& exists|p: nat, q: nat|
        {
            &&& #[trigger] is_key_pair(p, q, public.e(), private.e(), public.n())
            &&& p < pow(2, PRIME_BITS as nat)
            &&& q < pow(2, PRIME_BITS as nat)
        }
}

/// A fresh key pair.
///
/// The primes are sampled anew up to `MAX_KEY_ATTEMPTS` times, until a pair
/// of them is usable. What comes back as `Ok` is the key pair of some usable
/// `p` and `q` below `2^PRIME_BITS`.
pub fn generate_keys() -> (keys: Result<(PublicKey, PrivateKey), KeyGenFailed>)
    ensures
        keys matches Ok((public, private)) ==> is_generated_pair(public@, private@),
{
    let mut attempt: usize = 0;
    while attempt < MAX_KEY_ATTEMPTS
        invariant
            attempt <= MAX_KEY_ATTEMPTS,
        decreases MAX_KEY_ATTEMPTS - attempt,
    {
        match generate_base() {
            Ok(base) => match keys_from_base(&base) {
                Some((public, private)) => {
                    assert(is_key_pair(base.p@, base.q@, public@.e(), private@.e(), public@.n()));
                    return Ok((public, private));
                },
                None => {},
            },
            Err(_) => {},
        }
        attempt += 1;
    }
    Err(KeyGenFailed)
}

} // verus!
