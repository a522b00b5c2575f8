//! Arithmetic used by the key generator.

pub mod gcd;
pub mod natural;
pub mod primes;
