//! Arbitrary-precision natural numbers, held as big-endian byte strings.
//!
//! The arithmetic itself is done by `num-bigint` and `num-integer`; what this
//! module proves is the bookkeeping around it: what number a byte string
//! stands for, and that every number has exactly one shortest byte string.
//!
//! Each trusted function here reads its arguments with
//! `BigUint::from_bytes_be` and writes its result with
//! `BigUint::to_bytes_be`, and is trusted on the value of the result only;
//! that the bytes are the shortest ones is made sure of afterwards.

use num_bigint::BigUint;
use num_integer::Integer;
use vstd::arithmetic::power::pow;
use vstd::prelude::*;

use super::gcd::{gcd, lcm};

verus! {

/// The number that `bytes` spells in base 256, most significant byte first.
/// The empty string spells zero.
pub open spec fn be_value(bytes: Seq<u8>) -> nat
    decreases bytes.len(),
{
    if bytes.len() == 0 {
        0
    } else {
        be_value(bytes.drop_last()) * 256 + bytes.last() as nat
    }
}

/// The shortest byte string that spells `n`; zero is spelled `[0]`.
pub open spec fn be_bytes(n: nat) -> Seq<u8>
    decreases n,
{
    if n < 256 {
        seq![n as u8]
    } else {
        be_bytes(n / 256).push((n % 256) as u8)
    }
}

/// `bytes` is the shortest spelling of its value: not empty, and without a
/// leading zero unless it is the single byte zero.
pub open spec fn is_shortest(bytes: Seq<u8>) -> bool {
    bytes.len() >= 1 && (bytes.len() == 1 || bytes[0] != 0)
}

/// `base` to the power `exp`, reduced modulo `modulus`.
pub open spec fn mod_pow(base: nat, exp: nat, modulus: nat) -> nat {
    (pow(base as int, exp) % (modulus as int)) as nat
}

/// A single byte spells itself.
pub proof fn lemma_be_value_single(bytes: Seq<u8>)
    requires
        bytes.len() == 1,
    ensures
        be_value(bytes) == bytes[0] as nat,
{
    assert(be_value(bytes.drop_last()) == 0);
}

/// Appending a byte multiplies by 256 and adds the byte.
pub proof fn lemma_be_value_push(bytes: Seq<u8>, last: u8)
    ensures
        be_value(bytes.push(last)) == be_value(bytes) * 256 + last as nat,
{
    assert(bytes.push(last).drop_last() =~= bytes);
}

/// A string of `k` bytes spells a number below `256^k`.
pub proof fn lemma_be_value_bound(bytes: Seq<u8>)
    ensures
        be_value(bytes) < pow(256, bytes.len()),
    decreases bytes.len(),
{
    reveal(pow);
    if bytes.len() > 0 {
        lemma_be_value_bound(bytes.drop_last());
    }
}

/// Putting a byte in front adds the byte times `256^k`, where `k` is the
/// length of the rest.
pub proof fn lemma_be_value_prepend(first: u8, rest: Seq<u8>)
    ensures
        be_value(seq![first] + rest) == first as nat * pow(256, rest.len()) + be_value(rest),
    decreases rest.len(),
{
    reveal(pow);
    let whole = seq![first] + rest;
    if rest.len() == 0 {
        assert(whole =~= seq![first]);
        lemma_be_value_single(whole);
    } else {
        lemma_be_value_prepend(first, rest.drop_last());
        assert(whole.drop_last() =~= seq![first] + rest.drop_last());
        assert(first as nat * pow(256, (rest.len() - 1) as nat) * 256 == first as nat * (256 * pow(
            256,
            (rest.len() - 1) as nat,
        ))) by (nonlinear_arith);
    }
}

/// Leading zero bytes do not change the value.
pub proof fn lemma_be_value_skip_zero(bytes: Seq<u8>)
    requires
        bytes.len() >= 1,
        bytes[0] == 0,
    ensures
        be_value(bytes.skip(1)) == be_value(bytes),
    decreases bytes.len(),
{
    if bytes.len() == 1 {
        lemma_be_value_single(bytes);
    } else {
        lemma_be_value_skip_zero(bytes.drop_last());
        assert(bytes.drop_last().skip(1) =~= bytes.skip(1).drop_last());
    }
}

/// A shortest string of `k >= 2` bytes spells a number of at least
/// `256^(k-1)`; so its value is at least 256.
pub proof fn lemma_shortest_lower_bound(bytes: Seq<u8>)
    requires
        is_shortest(bytes),
        bytes.len() >= 2,
    ensures
        be_value(bytes) >= pow(256, (bytes.len() - 1) as nat),
        be_value(bytes) >= 256,
    decreases bytes.len(),
{
    reveal(pow);
    let init = bytes.drop_last();
    if bytes.len() == 2 {
        lemma_be_value_single(init);
        assert(pow(256, 1) == 256 * pow(256, 0));
    } else {
        lemma_shortest_lower_bound(init);
    }
}

/// `be_bytes` spells what it was given, in the shortest way.
pub proof fn lemma_be_bytes_value(n: nat)
    ensures
        be_value(be_bytes(n)) == n,
        is_shortest(be_bytes(n)),
    decreases n,
{
    if n < 256 {
        lemma_be_value_single(seq![n as u8]);
    } else {
        lemma_be_bytes_value(n / 256);
        lemma_be_value_push(be_bytes(n / 256), (n % 256) as u8);
        let head = be_bytes(n / 256);
        assert(head.push((n % 256) as u8)[0] == head[0]);
        if head.len() == 1 {
            lemma_be_value_single(head);
        }
    }
}

/// A number below `256^k` is spelled in at most `k` bytes.
pub proof fn lemma_be_bytes_len(n: nat, k: nat)
    requires
        k >= 1,
        n < pow(256, k),
    ensures
        1 <= be_bytes(n).len() <= k,
    decreases n,
{
    reveal(pow);
    if n >= 256 {
        assert(pow(256, 1) == 256 * pow(256, 0));
        lemma_be_bytes_len(n / 256, (k - 1) as nat);
    }
}

/// A shortest string is the `be_bytes` of its value: every number has one
/// shortest spelling only.
pub proof fn lemma_shortest_is_be_bytes(bytes: Seq<u8>)
    requires
        is_shortest(bytes),
    ensures
        be_bytes(be_value(bytes)) == bytes,
    decreases bytes.len(),
{
    let init = bytes.drop_last();
    if bytes.len() == 1 {
        lemma_be_value_single(bytes);
        assert(be_bytes(be_value(bytes)) =~= bytes);
    } else {
        lemma_shortest_lower_bound(bytes);
        let v = be_value(bytes);
        assert(v / 256 == be_value(init));
        assert(v % 256 == bytes.last() as nat);
        lemma_shortest_is_be_bytes(init);
        assert(init.push(bytes.last()) =~= bytes);
    }
}

/// Two shortest strings with the same value are the same string.
pub proof fn lemma_shortest_unique(a: Seq<u8>, b: Seq<u8>)
    requires
        is_shortest(a),
        is_shortest(b),
        be_value(a) == be_value(b),
    ensures
        a == b,
{
    lemma_shortest_is_be_bytes(a);
    lemma_shortest_is_be_bytes(b);
}

/// Copies `bytes[from..to]` into a new vector.
pub fn copy_range(bytes: &[u8], from: usize, to: usize) -> (out: Vec<u8>)
    requires
        from <= to <= bytes@.len(),
    ensures
        out@ == bytes@.subrange(from as int, to as int),
{
    let mut out: Vec<u8> = Vec::new();
    let mut i: usize = from;
    while i < to
        invariant
            from <= i <= to <= bytes@.len(),
            out@ == bytes@.subrange(from as int, i as int),
        decreases to - i,
    {
        out.push(bytes[i]);
        i += 1;
        assert(out@ =~= bytes@.subrange(from as int, i as int));
    }
    out
}

/// `BigUint`'s `*` on the numbers that `a` and `b` spell.
/// Trusted: the product is exact, and `from_bytes_be` and `to_bytes_be`
/// read and write base 256 with the most significant byte first.
#[verifier::external_body]
fn product_bytes(a: &[u8], b: &[u8]) -> (out: Vec<u8>)
    ensures
        be_value(out@) == be_value(a@) * be_value(b@),
{
    (BigUint::from_bytes_be(a) * BigUint::from_bytes_be(b)).to_bytes_be()
}

/// `BigUint`'s `+` on the numbers that `a` and `b` spell.
/// Trusted: the sum is exact.
#[verifier::external_body]
fn sum_bytes(a: &[u8], b: &[u8]) -> (out: Vec<u8>)
    ensures
        be_value(out@) == be_value(a@) + be_value(b@),
{
    (BigUint::from_bytes_be(a) + BigUint::from_bytes_be(b)).to_bytes_be()
}

/// `BigUint`'s `-` on the numbers that `a` and `b` spell. It panics when the
/// difference would be negative, which the precondition rules out.
/// Trusted: the difference is exact.
#[verifier::external_body]
fn difference_bytes(a: &[u8], b: &[u8]) -> (out: Vec<u8>)
    requires
        be_value(a@) >= be_value(b@),
    ensures
        be_value(out@) == be_value(a@) - be_value(b@),
{
    (BigUint::from_bytes_be(a) - BigUint::from_bytes_be(b)).to_bytes_be()
}

/// `BigUint`'s `<` on the numbers that `a` and `b` spell.
/// Trusted: it is the order of the natural numbers.
#[verifier::external_body]
fn less_bytes(a: &[u8], b: &[u8]) -> (less: bool)
    ensures
        less == (be_value(a@) < be_value(b@)),
{
    BigUint::from_bytes_be(a) < BigUint::from_bytes_be(b)
}

/// `num_integer::Integer::gcd` for `BigUint`.
/// Trusted: it returns the greatest common divisor, with `gcd(n, 0) == n`.
#[verifier::external_body]
fn gcd_bytes(a: &[u8], b: &[u8]) -> (out: Vec<u8>)
    ensures
        be_value(out@) == gcd(be_value(a@), be_value(b@)),
{
    BigUint::from_bytes_be(a).gcd(&BigUint::from_bytes_be(b)).to_bytes_be()
}

/// `num_integer::Integer::lcm` for `BigUint`.
/// Trusted: it returns zero when both numbers are zero, and otherwise the
/// first divided by the gcd, times the second.
#[verifier::external_body]
fn lcm_bytes(a: &[u8], b: &[u8]) -> (out: Vec<u8>)
    ensures
        be_value(out@) == lcm(be_value(a@), be_value(b@)),
{
    BigUint::from_bytes_be(a).lcm(&BigUint::from_bytes_be(b)).to_bytes_be()
}

/// `BigUint::modinv`. It panics on a zero modulus, which the precondition
/// rules out.
/// Trusted: an inverse is returned exactly when the two numbers are coprime;
/// it lies below the modulus and its product with `a` is congruent to one.
#[verifier::external_body]
fn modinv_bytes(a: &[u8], modulus: &[u8]) -> (out: Option<Vec<u8>>)
    requires
        be_value(modulus@) != 0,
    ensures
        out is Some <==> gcd(be_value(a@), be_value(modulus@)) == 1,
        out matches Some(x) ==> be_value(x@) < be_value(modulus@) && (be_value(a@) * be_value(x@))
            % be_value(modulus@) == 1nat % be_value(modulus@),
{
    match BigUint::from_bytes_be(a).modinv(&BigUint::from_bytes_be(modulus)) {
        Some(x) => Some(x.to_bytes_be()),
        None => None,
    }
}

/// `BigUint::modpow`. It panics on a zero modulus, which the precondition
/// rules out.
/// Trusted: the result is `base` to the power `exp`, reduced modulo
/// `modulus`.
#[verifier::external_body]
fn modpow_bytes(base: &[u8], exp: &[u8], modulus: &[u8]) -> (out: Vec<u8>)
    requires
        be_value(modulus@) != 0,
    ensures
        be_value(out@) == mod_pow(be_value(base@), be_value(exp@), be_value(modulus@)),
{
    BigUint::from_bytes_be(base).modpow(
        &BigUint::from_bytes_be(exp),
        &BigUint::from_bytes_be(modulus),
    ).to_bytes_be()
}

/// A natural number of any size.
///
/// Its view is the number. Inside it is the shortest big-endian byte string of
/// that number, so two values are equal exactly when their numbers are.
#[derive(Debug, PartialEq, Eq)]
pub struct BigNat {
    bytes: Vec<u8>,
}

impl View for BigNat {
    type V = nat;

    closed spec fn view(&self) -> nat {
        be_value(self.bytes@)
    }
}

impl BigNat {
    #[verifier::type_invariant]
    spec fn shortest(&self) -> bool {
        is_shortest(self.bytes@)
    }

    /// The number that `bytes` spells, most significant byte first. Leading
    /// zeros are accepted, and so is the empty string, which is zero.
    pub fn from_bytes_be(bytes: &[u8]) -> (n: BigNat)
        ensures
            n@ == be_value(bytes@),
    {
        if bytes.len() == 0 {
            let mut zero: Vec<u8> = Vec::new();
            zero.push(0u8);
            proof {
                lemma_be_value_single(zero@);
            }
            return BigNat { bytes: zero };
        }
        let len: usize = bytes.len();
        let mut start: usize = 0;
        assert(bytes@.skip(0) =~= bytes@);
        while start + 1 < len && bytes[start] == 0
            invariant
                start < len == bytes@.len(),
                be_value(bytes@.skip(start as int)) == be_value(bytes@),
            decreases len - start,
        {
            proof {
                lemma_be_value_skip_zero(bytes@.skip(start as int));
                assert(bytes@.skip(start as int).skip(1) =~= bytes@.skip(start as int + 1));
            }
            start += 1;
        }
        let kept = copy_range(bytes, start, len);
        assert(kept@ =~= bytes@.skip(start as int));
        BigNat { bytes: kept }
    }

    /// The shortest big-endian byte string of the number; `[0]` for zero.
    pub fn to_bytes_be(&self) -> (bytes: Vec<u8>)
        ensures
            bytes@ == be_bytes(self@),
    {
        proof {
            use_type_invariant(self);
            lemma_shortest_is_be_bytes(self.bytes@);
        }
        let out = copy_range(self.bytes.as_slice(), 0, self.bytes.len());
        assert(out@ =~= self.bytes@);
        out
    }

    /// The number of a machine integer.
    pub fn from_u64(value: u64) -> (n: BigNat)
        ensures
            n@ == value as nat,
    {
        let mut digits: Vec<u8> = Vec::new();
        let mut rest: u64 = value;
        // The digits come out least significant first; `spelled` is their
        // big-endian string so far.
        let ghost mut spelled: Seq<u8> = Seq::empty();
        let ghost mut scale: nat = 1;
        let mut count: usize = 0;
        proof {
            vstd::arithmetic::power::lemma_pow0(256);
        }
        while count < 8
            invariant
                count <= 8,
                digits@.len() == count,
                spelled.len() == count,
                forall|i: int| 0 <= i < count ==> spelled[i] == digits@[count - 1 - i],
                value as nat == rest as nat * scale + be_value(spelled),
                be_value(spelled) < scale,
                scale == pow(256, count as nat),
            decreases 8 - count,
        {
            let digit: u8 = (rest % 256) as u8;
            proof {
                let longer = seq![digit] + spelled;
                lemma_be_value_prepend(digit, spelled);
                assert(pow(256, (count + 1) as nat) == 256 * pow(256, count as nat)) by {
                    reveal(pow);
                }
                assert(value as nat == (rest / 256) as nat * (scale * 256) + be_value(longer)) by {
                    assert(rest as nat == (rest / 256) as nat * 256 + digit as nat);
                    assert(((rest / 256) as nat * 256 + digit as nat) * scale == (rest / 256) as nat
                        * (scale * 256) + digit as nat * scale) by (nonlinear_arith);
                }
                assert(be_value(longer) < scale * 256) by {
                    assert(digit as nat * scale + be_value(spelled) < scale * 256) by (nonlinear_arith)
                        requires
                            digit < 256,
                            be_value(spelled) < scale,
                    ;
                }
                assert forall|i: int| 0 <= i < count + 1 implies longer[i] == digits@.push(digit)[count
                    - i] by {
                    if i > 0 {
                        assert(longer[i] == spelled[i - 1]);
                    }
                }
                spelled = longer;
                scale = scale * 256;
            }
            digits.push(digit);
            rest = rest / 256;
            count += 1;
        }
        assert(rest == 0) by {
            assert(pow(256, 8) == 0x1_0000_0000_0000_0000) by {
                reveal_with_fuel(pow, 9);
            }
            assert(rest as nat * scale <= value as nat);
            assert(rest as nat * scale >= scale || rest == 0) by (nonlinear_arith);
        }
        let mut forward: Vec<u8> = Vec::new();
        let mut i: usize = 0;
        while i < 8
            invariant
                i <= 8,
                digits@.len() == 8,
                forward@.len() == i,
                forall|j: int| 0 <= j < i ==> forward@[j] == digits@[7 - j],
            decreases 8 - i,
        {
            forward.push(digits[7 - i]);
            i += 1;
        }
        assert(forward@ =~= spelled);
        BigNat::from_bytes_be(forward.as_slice())
    }

    /// The number one.
    pub fn one() -> (n: BigNat)
        ensures
            n@ == 1,
    {
        let mut bytes: Vec<u8> = Vec::new();
        bytes.push(1u8);
        proof {
            lemma_be_value_single(bytes@);
        }
        BigNat { bytes }
    }

    /// Whether the number is zero.
    pub fn is_zero(&self) -> (zero: bool)
        ensures
            zero == (self@ == 0),
    {
        proof {
            use_type_invariant(self);
            if self.bytes@.len() >= 2 {
                lemma_shortest_lower_bound(self.bytes@);
            } else {
                lemma_be_value_single(self.bytes@);
            }
        }
        self.bytes.len() == 1 && self.bytes[0] == 0
    }

    /// Whether the number is one.
    pub fn is_one(&self) -> (one: bool)
        ensures
            one == (self@ == 1),
    {
        proof {
            use_type_invariant(self);
            if self.bytes@.len() >= 2 {
                lemma_shortest_lower_bound(self.bytes@);
            } else {
                lemma_be_value_single(self.bytes@);
            }
        }
        self.bytes.len() == 1 && self.bytes[0] == 1
    }

    /// Whether the two numbers are the same.
    pub fn equals(&self, other: &BigNat) -> (same: bool)
        ensures
            same == (self@ == other@),
    {
        proof {
            use_type_invariant(self);
            use_type_invariant(other);
            if self@ == other@ {
                lemma_shortest_unique(self.bytes@, other.bytes@);
            }
        }
        if self.bytes.len() != other.bytes.len() {
            return false;
        }
        let len: usize = self.bytes.len();
        let mut i: usize = 0;
        while i < len
            invariant
                i <= len == self.bytes@.len() == other.bytes@.len(),
                self@ == other@ ==> self.bytes@ == other.bytes@,
                forall|j: int| 0 <= j < i ==> self.bytes@[j] == other.bytes@[j],
            decreases len - i,
        {
            if self.bytes[i] != other.bytes[i] {
                return false;
            }
            i += 1;
        }
        assert(self.bytes@ =~= other.bytes@);
        true
    }

    /// Whether this number is the smaller one.
    pub fn less_than(&self, other: &BigNat) -> (less: bool)
        ensures
            less == (self@ < other@),
    {
        less_bytes(self.bytes.as_slice(), other.bytes.as_slice())
    }

    /// The sum of the two numbers.
    pub fn sum(&self, other: &BigNat) -> (n: BigNat)
        ensures
            n@ == self@ + other@,
    {
        let bytes = sum_bytes(self.bytes.as_slice(), other.bytes.as_slice());
        BigNat::from_bytes_be(bytes.as_slice())
    }

    /// This number less `other`, which must not be the larger one.
    pub fn difference(&self, other: &BigNat) -> (n: BigNat)
        requires
            self@ >= other@,
        ensures
            n@ == self@ - other@,
    {
        let bytes = difference_bytes(self.bytes.as_slice(), other.bytes.as_slice());
        BigNat::from_bytes_be(bytes.as_slice())
    }

    /// The product of the two numbers.
    pub fn product(&self, other: &BigNat) -> (n: BigNat)
        ensures
            n@ == self@ * other@,
    {
        let bytes = product_bytes(self.bytes.as_slice(), other.bytes.as_slice());
        BigNat::from_bytes_be(bytes.as_slice())
    }

    /// The greatest common divisor of the two numbers.
    pub fn gcd(&self, other: &BigNat) -> (n: BigNat)
        ensures
            n@ == gcd(self@, other@),
    {
        let bytes = gcd_bytes(self.bytes.as_slice(), other.bytes.as_slice());
        BigNat::from_bytes_be(bytes.as_slice())
    }

    /// The least common multiple of the two numbers.
    pub fn lcm(&self, other: &BigNat) -> (n: BigNat)
        ensures
            n@ == lcm(self@, other@),
    {
        let bytes = lcm_bytes(self.bytes.as_slice(), other.bytes.as_slice());
        BigNat::from_bytes_be(bytes.as_slice())
    }

    /// The inverse of this number modulo `modulus`: the one number below
    /// `modulus` whose product with this one leaves the remainder one. There
    /// is none unless the two are coprime, and none modulo zero.
    pub fn modinv(&self, modulus: &BigNat) -> (inverse: Option<BigNat>)
        ensures
            inverse is Some <==> modulus@ != 0 && gcd(self@, modulus@) == 1,
            inverse matches Some(x) ==> x@ < modulus@ && (self@ * x@) % modulus@ == 1nat % modulus@,
    {
        if modulus.is_zero() {
            return None;
        }
        match modinv_bytes(self.bytes.as_slice(), modulus.bytes.as_slice()) {
            Some(bytes) => Some(BigNat::from_bytes_be(bytes.as_slice())),
            None => None,
        }
    }

    /// This number to the power `exp`, reduced modulo `modulus`, which must
    /// not be zero.
    pub fn modpow(&self, exp: &BigNat, modulus: &BigNat) -> (n: BigNat)
        requires
            modulus@ != 0,
        ensures
            n@ == mod_pow(self@, exp@, modulus@),
    {
        let bytes = modpow_bytes(
            self.bytes.as_slice(),
            exp.bytes.as_slice(),
            modulus.bytes.as_slice(),
        );
        BigNat::from_bytes_be(bytes.as_slice())
    }
}

impl Clone for BigNat {
    fn clone(&self) -> (copy: Self)
        ensures
            copy@ == self@,
    {
        proof {
            use_type_invariant(self);
        }
        let bytes = copy_range(self.bytes.as_slice(), 0, self.bytes.len());
        assert(bytes@ =~= self.bytes@);
        BigNat { bytes }
    }
}

} // verus!
