use rsa_tunnel::cypher::enigma;
use rsa_tunnel::keys_generator::keys::{
    generate_keys, keys_from_base, PrimeBase, PrivateKey, PublicKey,
};
use rsa_tunnel::keys_generator::maths::natural::BigNat;

// Two primes of 1024 bits.
const BIG_P: [u8; 128] = [
    240, 244, 127, 53, 208, 56, 12, 251, 202, 221, 64, 233, 44, 52, 191, 28, 127, 69, 58, 14,
    245, 9, 123, 79, 213, 222, 110, 145, 7, 66, 6, 226, 71, 170, 45, 186, 217, 226, 236, 141,
    0, 159, 0, 22, 128, 40, 158, 50, 169, 63, 50, 169, 161, 114, 81, 2, 142, 78, 220, 144,
    37, 61, 158, 48, 60, 225, 38, 140, 156, 128, 82, 227, 255, 236, 63, 238, 142, 210, 48, 93,
    243, 250, 168, 232, 121, 234, 167, 35, 74, 213, 207, 188, 29, 116, 189, 28, 240, 141, 178, 47,
    210, 147, 5, 106, 49, 112, 250, 178, 61, 144, 251, 172, 50, 131, 49, 6, 83, 110, 149, 223,
    64, 178, 208, 2, 204, 146, 214, 109,
];
const BIG_Q: [u8; 128] = [
    205, 40, 216, 100, 214, 232, 156, 106, 25, 143, 105, 160, 19, 136, 81, 176, 137, 235, 48, 97,
    180, 74, 114, 76, 152, 102, 240, 88, 112, 9, 61, 62, 230, 177, 224, 124, 143, 98, 252, 214,
    178, 125, 177, 147, 51, 59, 217, 57, 216, 107, 179, 47, 20, 185, 18, 87, 18, 102, 239, 100,
    49, 18, 117, 252, 57, 192, 208, 50, 52, 121, 83, 71, 120, 59, 234, 92, 136, 178, 36, 240,
    66, 166, 143, 236, 199, 90, 35, 196, 141, 13, 134, 107, 22, 81, 149, 55, 30, 7, 234, 99,
    82, 76, 169, 143, 84, 220, 119, 167, 46, 208, 213, 10, 99, 120, 57, 51, 213, 240, 5, 16,
    255, 106, 248, 175, 129, 223, 99, 219,
];

fn big_keys() -> (PublicKey, PrivateKey) {
    let base = PrimeBase::new(BigNat::from_bytes_be(&BIG_P), BigNat::from_bytes_be(&BIG_Q));
    keys_from_base(&base).unwrap()
}

/// 255 bytes, the first of them 255.
fn long_message() -> Vec<u8> {
    let mut message: Vec<u8> = (0..255u32).map(|i| ((i * 37 + 11) % 256) as u8).collect();
    message[0] = 255;
    message
}

// The long message under the public key of the two primes.
const SEALED_LONG: [u8; 256] = [
    147, 170, 220, 69, 122, 252, 155, 193, 167, 217, 29, 107, 97, 62, 240, 122, 120, 29, 221, 133,
    108, 109, 176, 231, 151, 147, 74, 183, 56, 171, 69, 6, 105, 149, 14, 25, 239, 237, 122, 63,
    163, 78, 165, 125, 72, 226, 28, 2, 227, 12, 161, 194, 55, 137, 232, 56, 230, 230, 191, 136,
    255, 151, 67, 63, 171, 62, 232, 15, 172, 134, 228, 68, 156, 113, 83, 216, 35, 52, 202, 73,
    157, 63, 129, 128, 218, 118, 149, 99, 121, 87, 197, 48, 237, 215, 36, 182, 174, 204, 190, 207,
    41, 229, 118, 143, 181, 174, 178, 168, 152, 12, 5, 187, 234, 218, 29, 214, 113, 179, 91, 34,
    77, 63, 33, 169, 205, 214, 141, 138, 50, 116, 236, 17, 51, 175, 57, 89, 25, 87, 145, 46,
    114, 220, 72, 137, 125, 30, 79, 84, 125, 89, 116, 220, 198, 104, 98, 98, 47, 120, 143, 71,
    224, 220, 213, 78, 128, 4, 60, 248, 97, 180, 40, 77, 218, 178, 24, 64, 250, 59, 183, 226,
    55, 64, 185, 133, 176, 195, 113, 33, 20, 143, 13, 131, 49, 4, 124, 126, 49, 201, 170, 213,
    184, 15, 22, 157, 149, 82, 181, 64, 248, 158, 67, 61, 99, 130, 31, 231, 222, 75, 193, 23,
    43, 146, 189, 99, 36, 198, 69, 212, 10, 174, 82, 254, 33, 39, 42, 155, 206, 162, 240, 12,
    63, 81, 211, 140, 77, 83, 136, 108, 174, 82, 26, 194, 134, 107, 51, 162,
];

#[test]
fn test_enigma() {
    let double_keys = generate_keys().unwrap();
    let data = "Hello";
    let c: Vec<u8> = enigma(
        &data.as_bytes().to_vec(),
        &double_keys.0.encryption_value(),
        &double_keys.0.modulus(),
    );
    let p = enigma(
        &c,
        &double_keys.1.decryption_value(),
        &double_keys.1.modulus(),
    );
    println!("{:?} and {:?}", p, data.as_bytes().to_vec());
    assert_eq!(data.as_bytes().to_vec(), p);
}

#[test]
fn toy_key_on_single_bytes() {
    let e = BigNat::from_u64(17);
    let d = BigNat::from_u64(413);
    let n = BigNat::from_u64(3233);
    let expected: [(u8, [u8; 2]); 4] =
        [(72, [11, 184]), (101, [5, 33]), (108, [2, 233]), (111, [8, 137])];
    for (letter, cipher) in expected.iter() {
        let c = enigma(&vec![*letter], &e, &n);
        assert_eq!(c, cipher.to_vec());
        assert_eq!(enigma(&c, &d, &n), vec![*letter]);
    }
}

#[test]
fn toy_key_reduces_a_chunk_that_is_too_large() {
    // "Hello" is one chunk, the number 310939249775; the toy modulus keeps its remainder only.
    let n = BigNat::from_u64(3233);
    let c = enigma(&b"Hello".to_vec(), &BigNat::from_u64(17), &n);
    assert_eq!(c, vec![3, 101]);
    assert_eq!(enigma(&c, &BigNat::from_u64(413), &n), vec![5, 26]);
}

#[test]
fn enigma_of_nothing_is_nothing() {
    let empty: Vec<u8> = Vec::new();
    assert_eq!(enigma(&empty, &BigNat::from_u64(17), &BigNat::from_u64(3233)), empty);
    assert_eq!(enigma(&empty, &BigNat::from_u64(17), &BigNat::from_u64(0)), empty);
}

#[test]
fn enigma_cuts_chunks_of_256_bytes() {
    let e = BigNat::from_u64(17);
    let n = BigNat::from_u64(3233);
    assert_eq!(enigma(&vec![7u8; 256], &e, &n), vec![234]);
    assert_eq!(enigma(&vec![7u8; 44], &e, &n), vec![2, 165]);
    assert_eq!(enigma(&vec![7u8; 300], &e, &n), vec![234, 2, 165]);
    assert_eq!(enigma(&vec![7u8; 512], &e, &n), vec![234, 234]);
    assert_eq!(enigma(&vec![7u8; 257], &e, &n).len(), 1 + enigma(&vec![7u8], &e, &n).len());
}

#[test]
fn enigma_loses_leading_zeros() {
    let e = BigNat::from_u64(1);
    let n = BigNat::from_u64(3233);
    assert_eq!(enigma(&vec![0, 0, 5], &e, &n), vec![5]);
    assert_eq!(enigma(&vec![0, 0], &e, &n), vec![0]);
    assert_eq!(enigma(&vec![0], &e, &n), vec![0]);
}

#[test]
fn key_pair_of_large_primes_undoes_itself() {
    let (public, private) = big_keys();
    assert_eq!(public.encryption_value(), BigNat::from_u64(5));
    assert_eq!(public.modulus().to_bytes_be().len(), 256);
    let mut messages: Vec<Vec<u8>> = vec![
        vec![],
        vec![0],
        vec![1],
        vec![255],
        b"Hello".to_vec(),
        b"a line of text\n".to_vec(),
        vec![1; 254],
        vec![255; 255],
        long_message(),
    ];
    for len in 1..40usize {
        messages.push((0..len).map(|i| (i * 13 + len) as u8 | 1).collect());
    }
    for message in messages {
        let sealed = enigma(&message, &public.encryption_value(), &public.modulus());
        if message.len() > 1 {
            assert_ne!(sealed, message);
        }
        assert!(sealed.len() <= 256);
        let opened = enigma(&sealed, &private.decryption_value(), &private.modulus());
        assert_eq!(opened, message);
        // The other way round works as well: sign, then check.
        let signed = enigma(&message, &private.decryption_value(), &private.modulus());
        assert_eq!(enigma(&signed, &public.encryption_value(), &public.modulus()), message);
    }
}

#[test]
fn long_message_under_large_primes() {
    let (public, private) = big_keys();
    let sealed = enigma(&long_message(), &public.encryption_value(), &public.modulus());
    assert_eq!(sealed, SEALED_LONG.to_vec());
    assert_eq!(
        enigma(&SEALED_LONG.to_vec(), &private.decryption_value(), &private.modulus()),
        long_message()
    );
}

#[test]
fn leading_zero_does_not_come_back() {
    let (public, private) = big_keys();
    let sealed = enigma(&vec![0, 7], &public.encryption_value(), &public.modulus());
    let opened = enigma(&sealed, &private.decryption_value(), &private.modulus());
    assert_eq!(opened, vec![7]);
}
