//! Key generation: number theory, key types and the generator itself.

pub mod keys;
pub mod maths;
pub mod private_keys;
pub mod public_keys;
