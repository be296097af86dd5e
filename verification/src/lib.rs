//! A publicly verifiable secret sharing (PVSS) engine over the BLS12-381
//! pairing curve: a dealer splits a secret into shares for `n` players so
//! that any `t` of them (or, in the weighted variant, any subset of total
//! weight at least `w`) can reconstruct a value derived from the secret,
//! while anyone can check that the sharing was done correctly.
#![allow(unused_imports)]

use vstd::prelude::*;

pub mod algebra;
pub mod constants;
pub mod pvss;
pub mod utils;

verus! {

/// Errors reported when cryptographic material cannot be rebuilt from bytes.
#[derive(Clone, Copy, Debug, PartialEq, Eq, Structural)]
pub enum CryptoMaterialError {
    /// The byte string has the wrong length for the type being parsed.
    WrongLengthError,
    /// The byte string has the right length but does not encode a valid value.
    DeserializationError,
}

} // verus!
