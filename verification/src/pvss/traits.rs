//! The small capability traits shared by the key and configuration types.

use vstd::prelude::*;

verus! {

/// Converts a value of type `Self` to `D` using auxiliary data of type `W`.
pub trait Convert<D, W> {
    /// What the conversion asks of its operands: each implementation gives
    /// its own well-formedness conditions.
    spec fn convert_wf(&self, with: &W) -> bool;

    fn to(&self, with: &W) -> D
        requires
            self.convert_wf(with),
    ;
}

/// Public parameter sets that contain encryption public parameters.
pub trait HasEncryptionPublicParams {
    type EncryptionPublicParameters;

    fn get_encryption_public_params(&self) -> &Self::EncryptionPublicParameters;
}

/// Keys that are secret-shareable, with an associated share type.
pub trait IsSecretShareable {
    type Share;
}

} // verus!
