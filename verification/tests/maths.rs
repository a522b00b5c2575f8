use num_bigint::BigUint;
use rsa_tunnel::keys_generator::maths::gcd::compute_gcd;
use rsa_tunnel::keys_generator::maths::natural::{copy_range, BigNat};

#[test]
fn test_gcd() {
    assert_eq!(compute_gcd(100, 9), 1);
    assert_eq!(compute_gcd(9, 100), 1);
    assert_eq!(compute_gcd(90, 100), 10);
    assert_eq!(compute_gcd(559, 255), 1);
}

#[test]
fn gcd_with_zero_is_the_other_number() {
    assert_eq!(compute_gcd(0, 5), 5);
    assert_eq!(compute_gcd(5, 0), 5);
    assert_eq!(compute_gcd(0, 0), 0);
}

#[test]
fn gcd_divides_both_and_is_symmetric() {
    for a in 1usize..40 {
        for b in 1usize..40 {
            let g = compute_gcd(a, b);
            assert_eq!(a % g, 0);
            assert_eq!(b % g, 0);
            assert_eq!(g, compute_gcd(b, a));
            for d in 1..=a {
                if a % d == 0 && b % d == 0 {
                    assert_eq!(g % d, 0);
                }
            }
        }
    }
}

#[test]
fn gcd_of_equal_numbers() {
    assert_eq!(compute_gcd(12, 12), 12);
    assert_eq!(compute_gcd(usize::MAX, usize::MAX), usize::MAX);
    assert_eq!(compute_gcd(usize::MAX, 1), 1);
}

#[test]
fn natural_from_bytes_drops_leading_zeros() {
    assert_eq!(BigNat::from_bytes_be(&[0, 0, 12, 161]).to_bytes_be(), vec![12, 161]);
    assert_eq!(BigNat::from_bytes_be(&[0, 0, 0]).to_bytes_be(), vec![0]);
    assert_eq!(BigNat::from_bytes_be(&[]).to_bytes_be(), vec![0]);
    assert_eq!(BigNat::from_bytes_be(&[0, 1]), BigNat::from_bytes_be(&[1]));
}

#[test]
fn natural_from_u64() {
    assert_eq!(BigNat::from_u64(0).to_bytes_be(), vec![0]);
    assert_eq!(BigNat::from_u64(1).to_bytes_be(), vec![1]);
    assert_eq!(BigNat::from_u64(255).to_bytes_be(), vec![255]);
    assert_eq!(BigNat::from_u64(256).to_bytes_be(), vec![1, 0]);
    assert_eq!(BigNat::from_u64(3233).to_bytes_be(), vec![12, 161]);
    assert_eq!(BigNat::from_u64(u64::MAX).to_bytes_be(), vec![255; 8]);
    assert_eq!(
        BigNat::from_u64(0x0102_0304_0506_0708).to_bytes_be(),
        vec![1, 2, 3, 4, 5, 6, 7, 8]
    );
}

#[test]
fn natural_matches_the_bytes_of_biguint() {
    for value in [0u64, 1, 2, 255, 256, 65535, 65536, 1 << 40, u64::MAX] {
        assert_eq!(BigNat::from_u64(value).to_bytes_be(), BigUint::from(value).to_bytes_be());
    }
}

#[test]
fn natural_predicates() {
    assert!(BigNat::from_u64(0).is_zero());
    assert!(!BigNat::from_u64(1).is_zero());
    assert!(!BigNat::from_u64(256).is_zero());
    assert!(BigNat::from_u64(1).is_one());
    assert!(BigNat::one().is_one());
    assert!(!BigNat::from_u64(0).is_one());
    assert!(!BigNat::from_u64(257).is_one());
    assert!(BigNat::from_u64(77).equals(&BigNat::from_bytes_be(&[0, 77])));
    assert!(!BigNat::from_u64(77).equals(&BigNat::from_u64(78)));
    assert!(!BigNat::from_u64(1).equals(&BigNat::from_u64(256)));
    assert!(BigNat::from_u64(77).clone().equals(&BigNat::from_u64(77)));
}

#[test]
fn natural_arithmetic() {
    let a = BigNat::from_u64(61);
    let b = BigNat::from_u64(53);
    assert_eq!(a.product(&b), BigNat::from_u64(3233));
    assert_eq!(a.sum(&b), BigNat::from_u64(114));
    assert_eq!(a.difference(&b), BigNat::from_u64(8));
    assert_eq!(a.difference(&a), BigNat::from_u64(0));
    assert!(b.less_than(&a));
    assert!(!a.less_than(&b));
    assert!(!a.less_than(&a));
    assert_eq!(BigNat::from_u64(60).lcm(&BigNat::from_u64(52)), BigNat::from_u64(780));
    assert_eq!(BigNat::from_u64(60).gcd(&BigNat::from_u64(52)), BigNat::from_u64(4));
    assert_eq!(BigNat::from_u64(0).gcd(&BigNat::from_u64(52)), BigNat::from_u64(52));
    assert_eq!(BigNat::from_u64(52).gcd(&BigNat::from_u64(0)), BigNat::from_u64(52));
    assert_eq!(BigNat::from_u64(0).lcm(&BigNat::from_u64(0)), BigNat::from_u64(0));
    assert_eq!(BigNat::from_u64(0).lcm(&BigNat::from_u64(9)), BigNat::from_u64(0));
    assert_eq!(
        BigNat::from_u64(u64::MAX).product(&BigNat::from_u64(u64::MAX)).to_bytes_be(),
        vec![255, 255, 255, 255, 255, 255, 255, 254, 0, 0, 0, 0, 0, 0, 0, 1]
    );
}

#[test]
fn natural_gcd_agrees_with_compute_gcd() {
    for a in 0u64..30 {
        for b in 0u64..30 {
            let expected = compute_gcd(a as usize, b as usize) as u64;
            assert_eq!(BigNat::from_u64(a).gcd(&BigNat::from_u64(b)), BigNat::from_u64(expected));
        }
    }
}

#[test]
fn natural_modinv() {
    assert_eq!(
        BigNat::from_u64(17).modinv(&BigNat::from_u64(780)),
        Some(BigNat::from_u64(413))
    );
    assert_eq!(BigNat::from_u64(271).modinv(&BigNat::from_u64(383)), Some(BigNat::from_u64(106)));
    assert_eq!(BigNat::from_u64(2).modinv(&BigNat::from_u64(780)), None);
    assert_eq!(BigNat::from_u64(0).modinv(&BigNat::from_u64(383)), None);
    assert_eq!(BigNat::from_u64(5).modinv(&BigNat::from_u64(0)), None);
    assert_eq!(BigNat::from_u64(1).modinv(&BigNat::from_u64(0)), None);
    assert_eq!(BigNat::from_u64(5).modinv(&BigNat::from_u64(1)), Some(BigNat::from_u64(0)));
}

#[test]
fn natural_modpow() {
    let n = BigNat::from_u64(3233);
    assert_eq!(BigNat::from_u64(72).modpow(&BigNat::from_u64(17), &n), BigNat::from_u64(3000));
    assert_eq!(BigNat::from_u64(3000).modpow(&BigNat::from_u64(413), &n), BigNat::from_u64(72));
    assert_eq!(BigNat::from_u64(5).modpow(&BigNat::from_u64(0), &n), BigNat::from_u64(1));
    assert_eq!(BigNat::from_u64(0).modpow(&BigNat::from_u64(0), &n), BigNat::from_u64(1));
    assert_eq!(
        BigNat::from_u64(5).modpow(&BigNat::from_u64(0), &BigNat::from_u64(1)),
        BigNat::from_u64(0)
    );
    assert_eq!(
        BigNat::from_u64(3).modpow(&BigNat::from_u64(7), &BigNat::from_u64(11)),
        BigNat::from_u64(9)
    );
    assert_eq!(
        BigNat::from_u64(20).modpow(&BigNat::from_u64(1), &BigNat::from_u64(2)),
        BigNat::from_u64(0)
    );
}

#[test]
fn copy_range_copies_the_range() {
    let data = [1u8, 2, 3, 4, 5];
    assert_eq!(copy_range(&data, 1, 4), vec![2, 3, 4]);
    assert_eq!(copy_range(&data, 0, 5), vec![1, 2, 3, 4, 5]);
    assert_eq!(copy_range(&data, 2, 2), Vec::<u8>::new());
}
