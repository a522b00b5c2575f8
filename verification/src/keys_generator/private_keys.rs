//! The private half: the inverse of the public exponent.

use vstd::prelude::*;

use super::keys::{PrivateKey, PublicKey};
use super::maths::gcd::gcd;
use super::maths::natural::BigNat;

verus! {

/// The private key that undoes `public_key` modulo `r`, with the given
/// modulus. There is none when `r` is zero or not coprime to the public
/// exponent.
pub fn generate_private_key(public_key: &PublicKey, r: &BigNat, modulus: &BigNat) -> (key: Option<
    PrivateKey,
>)
    ensures
        key is Some <==> r@ != 0 && gcd(public_key@.e(), r@) == 1,
        key matches Some(private) ==> {
            &&& private@.n() == modulus@
            &&& private@.e() < r@
            &&& (public_key@.e() * private@.e()) % r@ == 1nat % r@
        },
{
    match public_key.encryption_value().modinv(r) {
        Some(decryption) => Some(PrivateKey::new(&decryption, modulus)),
        None => None,
    }
}

} // verus!
