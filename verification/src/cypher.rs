//! The cipher: raw modular exponentiation over a byte buffer, chunk by chunk,
//! with no padding.

use vstd::arithmetic::div_mod::{lemma_mod_bound, lemma_small_mod};
use vstd::arithmetic::power::{lemma_pow_adds, lemma_pow_multiplies, pow};
use vstd::prelude::*;

use crate::keys_generator::keys::{is_key_pair, lemma_key_pair_inverts, PRIME_BITS};
use crate::keys_generator::maths::natural::{
    be_bytes, be_value, copy_range, is_shortest, lemma_be_bytes_len, lemma_be_bytes_value,
    lemma_shortest_is_be_bytes, mod_pow, BigNat,
};
use crate::keys_generator::maths::primes::is_prime;

verus! {

/// How many bytes of the input make one number.
pub const CHUNK_SIZE: usize = 256;

/// What one chunk becomes: the shortest big-endian spelling of the chunk's
/// number raised to `exponent` modulo `modulus`.
pub open spec fn transform_chunk(chunk: Seq<u8>, exponent: nat, modulus: nat) -> Seq<u8> {
    be_bytes(mod_pow(be_value(chunk), exponent, modulus))
}

/// What a buffer becomes: it is cut into chunks of `CHUNK_SIZE` bytes, the
/// last one possibly shorter, and the transformed chunks are joined in order.
/// Nothing marks where one ends and the next begins.
pub open spec fn transform(data: Seq<u8>, exponent: nat, modulus: nat) -> Seq<u8>
    decreases data.len(),
{
    if data.len() == 0 {
        Seq::empty()
    } else {
        let cut = if data.len() < CHUNK_SIZE {
            data.len() as int
        } else {
            CHUNK_SIZE as int
        };
        transform_chunk(data.take(cut), exponent, modulus) + transform(
            data.skip(cut),
            exponent,
            modulus,
        )
    }
}

/// A buffer of at most one chunk is transformed as a whole.
pub proof fn lemma_transform_one_chunk(data: Seq<u8>, exponent: nat, modulus: nat)
    requires
        0 < data.len() <= CHUNK_SIZE,
    ensures
        transform(data, exponent, modulus) == transform_chunk(data, exponent, modulus),
{
    let cut = data.len() as int;
    assert(data.take(cut) =~= data);
    assert(transform(data.skip(cut), exponent, modulus) =~= Seq::<u8>::empty());
}

/// Two numbers below `2^1024` have a product below `256^256`, which fits one
/// chunk.
pub proof fn lemma_modulus_fits_chunk(p: nat, q: nat)
    requires
        p < pow(2, PRIME_BITS as nat),
        q < pow(2, PRIME_BITS as nat),
    ensures
        p * q < pow(256, CHUNK_SIZE as nat),
{
    let half = pow(2, 1024);
    lemma_pow_adds(2, 1024, 1024);
    assert(pow(2, 8) == 256) by {
        reveal_with_fuel(pow, 9);
    }
    lemma_pow_multiplies(2, 8, 256);
    assert(pow(256, 256) == half * half);
    assert(p * q < half * half) by (nonlinear_arith)
        requires
            p < half,
            q < half,
    ;
}

/// Round trip: what a key pair made from two primes encrypts, it decrypts to
/// the same bytes, for every buffer shorter than a chunk that spells a number
/// below the modulus and does not start with a zero byte, unless it is the
/// single byte zero. (A leading zero is lost on the way, and a number from
/// the modulus on comes back reduced.)
pub proof fn lemma_transform_round_trip(p: nat, q: nat, e: nat, d: nat, n: nat, data: Seq<u8>)
    requires
        is_prime(p),
        is_prime(q),
        is_key_pair(p, q, e, d, n),
        p < pow(2, PRIME_BITS as nat),
        q < pow(2, PRIME_BITS as nat),
        data.len() < CHUNK_SIZE,
        data.len() == 0 || is_shortest(data),
        be_value(data) < n,
    ensures
        transform(transform(data, e, n), d, n) == data,
{
    if data.len() == 0 {
        assert(transform(data, e, n) =~= Seq::<u8>::empty());
    } else {
        let number = be_value(data);
        let sealed = mod_pow(number, e, n);
        let cipher = be_bytes(sealed);
        lemma_transform_one_chunk(data, e, n);
        assert(transform(data, e, n) == cipher);
        lemma_mod_bound(pow(number as int, e), n as int);
        lemma_modulus_fits_chunk(p, q);
        lemma_be_bytes_len(sealed, CHUNK_SIZE as nat);
        lemma_be_bytes_value(sealed);
        lemma_transform_one_chunk(cipher, d, n);
        lemma_key_pair_inverts(p, q, e, d, n, number);
        lemma_small_mod(number, n);
        lemma_shortest_is_be_bytes(data);
    }
}

/// Encrypts or decrypts `data` with the given exponent and modulus.
///
/// A zero modulus is accepted only with nothing to transform.
pub fn enigma(data: &Vec<u8>, exponent: &BigNat, modulus: &BigNat) -> (out: Vec<u8>)
    requires
        data@.len() > 0 ==> modulus@ != 0,
    ensures
        out@ == transform(data@, exponent@, modulus@),
{
    let len: usize = data.len();
    let mut out: Vec<u8> = Vec::new();
    let mut pos: usize = 0;
    assert(data@.skip(0) =~= data@);
    while pos < len
        invariant
            pos <= len == data@.len(),
            modulus@ != 0 || len == 0,
            out@ + transform(data@.skip(pos as int), exponent@, modulus@) == transform(
                data@,
                exponent@,
                modulus@,
            ),
        decreases len - pos,
    {
        let end: usize = if len - pos < CHUNK_SIZE {
            len
        } else {
            pos + CHUNK_SIZE
        };
        let chunk = copy_range(data.as_slice(), pos, end);
        let number = BigNat::from_bytes_be(chunk.as_slice());
        let mut bytes = number.modpow(exponent, modulus).to_bytes_be();
        proof {
            let rest = data@.skip(pos as int);
            assert(rest.take(end - pos) =~= chunk@);
            assert(rest.skip(end - pos) =~= data@.skip(end as int));
            assert(out@ + (bytes@ + transform(data@.skip(end as int), exponent@, modulus@)) =~= (
            out@ + bytes@) + transform(data@.skip(end as int), exponent@, modulus@));
        }
        out.append(&mut bytes);
        pos = end;
    }
    assert(out@ + Seq::<u8>::empty() =~= out@);
    out
}

} // verus!
