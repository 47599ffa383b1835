//! Commit-and-prove building blocks over BN254: the scalar field model,
//! MiMC7 hashing, group element models, sparse relation matrices, the
//! linking SNARK and the exponential ElGamal scheme.
pub mod field;
pub mod mimc7;
pub mod matrix;
pub mod relation;
pub mod group;
pub mod linker;
pub mod encryption;
pub mod utils;
pub mod protocol;
pub mod circuit;
pub mod exponent;
pub mod completeness;
