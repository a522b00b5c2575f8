use num_bigint::BigUint;
use num_integer::Integer;
use rsa_tunnel::keys_generator::keys::{
    generate_base, keys_from_base, PrimeBase, PrivateKey, PublicKey,
};
use rsa_tunnel::keys_generator::maths::natural::BigNat;
use rsa_tunnel::keys_generator::private_keys::generate_private_key;
use rsa_tunnel::keys_generator::public_keys::{generate_public_key, generate_totient};

fn big(value: &BigNat) -> BigUint {
    BigUint::from_bytes_be(&value.to_bytes_be())
}

#[test]
fn test_generate_private_key() {
    let public_key: PublicKey = PublicKey::new(&BigNat::from_u64(17), &BigNat::from_u64(3233));
    let result: PrivateKey =
        generate_private_key(&public_key, &BigNat::from_u64(780), &BigNat::from_u64(3233))
            .unwrap();
    assert_eq!(result.decryption_value(), BigNat::from_u64(413));
    assert_eq!(result.modulus(), BigNat::from_u64(3233));
}

#[test]
fn private_key_needs_a_coprime_exponent() {
    let public_key = PublicKey::new(&BigNat::from_u64(2), &BigNat::from_u64(3233));
    assert!(
        generate_private_key(&public_key, &BigNat::from_u64(780), &BigNat::from_u64(3233))
            .is_none()
    );
    let public_key = PublicKey::new(&BigNat::from_u64(17), &BigNat::from_u64(3233));
    assert!(
        generate_private_key(&public_key, &BigNat::from_u64(0), &BigNat::from_u64(3233)).is_none()
    );
}

#[test]
fn key_getters_return_what_was_stored() {
    let public_key = PublicKey::new(&BigNat::from_u64(17), &BigNat::from_u64(3233));
    assert_eq!(public_key.encryption_value(), BigNat::from_u64(17));
    assert_eq!(public_key.modulus(), BigNat::from_u64(3233));
    assert_eq!(public_key.encryption_bytes(), &vec![17]);
    assert_eq!(public_key.modulus_bytes(), &vec![12, 161]);
    assert_eq!(public_key.clone(), public_key);
    let private_key = PrivateKey::new(&BigNat::from_u64(413), &BigNat::from_u64(3233));
    assert_eq!(private_key.decryption_value(), BigNat::from_u64(413));
    assert_eq!(private_key.modulus(), BigNat::from_u64(3233));
    let raw = PublicKey::from_bytes(vec![0, 17], vec![0, 12, 161]);
    assert_eq!(raw.encryption_bytes(), &vec![0, 17]);
    assert_eq!(raw.encryption_value(), BigNat::from_u64(17));
    assert_eq!(raw.modulus(), BigNat::from_u64(3233));
    assert_ne!(raw, public_key);
}

#[test]
fn totient_of_the_toy_base() {
    let base = PrimeBase::new(BigNat::from_u64(61), BigNat::from_u64(53));
    assert_eq!(base.modulus, BigNat::from_u64(3233));
    assert_eq!(generate_totient(&base), BigNat::from_u64(780));
}

#[test]
fn public_exponent_is_the_smallest_coprime() {
    // 780 = 2^2 * 3 * 5 * 13, so 7 is the first number from two on that is coprime to it.
    let base = PrimeBase::new(BigNat::from_u64(61), BigNat::from_u64(53));
    let (public, r) = generate_public_key(&base);
    assert_eq!(r, BigNat::from_u64(780));
    assert_eq!(public.encryption_value(), BigNat::from_u64(7));
    assert_eq!(public.modulus(), BigNat::from_u64(3233));
    // totient 2: the smallest coprime exponent is 3.
    let base = PrimeBase::new(BigNat::from_u64(2), BigNat::from_u64(3));
    let (public, r) = generate_public_key(&base);
    assert_eq!(r, BigNat::from_u64(2));
    assert_eq!(public.encryption_value(), BigNat::from_u64(3));
    // totient 1: every number is coprime to it.
    let base = PrimeBase::new(BigNat::from_u64(2), BigNat::from_u64(2));
    let (public, r) = generate_public_key(&base);
    assert_eq!(r, BigNat::from_u64(1));
    assert_eq!(public.encryption_value(), BigNat::from_u64(2));
    // totient 0: nothing is coprime to it.
    let base = PrimeBase::new(BigNat::from_u64(1), BigNat::from_u64(7));
    let (public, r) = generate_public_key(&base);
    assert_eq!(r, BigNat::from_u64(0));
    assert_eq!(public.encryption_value(), BigNat::from_u64(2));
}

#[test]
fn keys_from_the_toy_base() {
    let base = PrimeBase::new(BigNat::from_u64(61), BigNat::from_u64(53));
    let (public, private) = keys_from_base(&base).unwrap();
    assert_eq!(public.encryption_value(), BigNat::from_u64(7));
    assert_eq!(public.modulus(), BigNat::from_u64(3233));
    assert_eq!(private.modulus(), BigNat::from_u64(3233));
    // 7 * 223 = 1561 = 2 * 780 + 1
    assert_eq!(private.decryption_value(), BigNat::from_u64(223));
}

#[test]
fn equal_primes_are_refused() {
    let base = PrimeBase::new(BigNat::from_u64(61), BigNat::from_u64(61));
    assert!(keys_from_base(&base).is_none());
    let base = PrimeBase::new(BigNat::from_u64(7), BigNat::from_u64(7));
    assert!(keys_from_base(&base).is_none());
}

#[test]
fn unusable_bases_are_refused() {
    for (p, q) in [(0u64, 7u64), (7, 0), (1, 7), (2, 3), (3, 2), (1, 1), (0, 0)] {
        let base = PrimeBase::new(BigNat::from_u64(p), BigNat::from_u64(q));
        assert!(keys_from_base(&base).is_none(), "{} {}", p, q);
    }
    let base = PrimeBase {
        p: BigNat::from_u64(61),
        q: BigNat::from_u64(53),
        modulus: BigNat::from_u64(3234),
    };
    assert!(keys_from_base(&base).is_none());
    let base = PrimeBase::new(BigNat::from_u64(3), BigNat::from_u64(5));
    let (public, private) = keys_from_base(&base).unwrap();
    assert_eq!(public.encryption_value(), BigNat::from_u64(3));
    assert_eq!(private.decryption_value(), BigNat::from_u64(3));
    assert_eq!(public.modulus(), BigNat::from_u64(15));
}

#[test]
fn key_pairs_invert_modulo_the_totient() {
    let primes = [3u64, 5, 7, 11, 13, 17, 19, 23, 61, 53, 101, 65537];
    for &p in primes.iter() {
        for &q in primes.iter() {
            let base = PrimeBase::new(BigNat::from_u64(p), BigNat::from_u64(q));
            let keys = keys_from_base(&base);
            if p == q {
                assert!(keys.is_none());
                continue;
            }
            let (public, private) = keys.unwrap();
            let r = BigUint::from(p - 1).lcm(&BigUint::from(q - 1));
            let e = big(&public.encryption_value());
            let d = big(&private.decryption_value());
            assert_eq!((&e * &d) % &r, BigUint::from(1u32));
            assert_eq!(e.gcd(&r), BigUint::from(1u32));
            assert!(e > BigUint::from(1u32) && e < r);
            assert!(d < r);
            assert_eq!(big(&public.modulus()), BigUint::from(p * q));
            assert_eq!(big(&private.modulus()), BigUint::from(p * q));
            let mut k = BigUint::from(2u32);
            while k < e {
                assert_ne!(k.gcd(&r), BigUint::from(1u32));
                k += 1u32;
            }
        }
    }
}

#[test]
fn generated_base_multiplies_its_primes() {
    let base = generate_base().unwrap();
    assert_ne!(base.p, base.q);
    assert_eq!(big(&base.modulus), big(&base.p) * big(&base.q));
    assert!(base.p.to_bytes_be().len() <= 128);
    assert!(base.q.to_bytes_be().len() <= 128);
    assert!(big(&base.p) > BigUint::from(1u32));
}
