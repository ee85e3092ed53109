pub mod curve;
pub mod utils;
pub mod dkg;
pub mod ddh_dvrf;
pub mod frost_ext;

use vstd::prelude::*;

verus! {

/// Failure conditions of the library. Verification APIs return a boolean for
/// cryptographic success or failure; these variants cover shape and validation
/// failures, plus pass-through failures of the external DKG and FROST
/// collaborators.
#[derive(Clone, Copy, Debug, PartialEq, Eq, Structural)]
pub enum Error {
    /// DKG parameters out of range.
    InvalidConfig,
    /// Too few signers, duplicate signers, or a signer without a key package.
    InvalidSubset,
    /// No verifying share exists for an identifier.
    UnknownIdentifier,
    /// The self-check of a freshly produced equality proof failed.
    ProofRejected(u64),
    /// Two signer indices collide modulo the group order.
    CombineDegenerate,
    /// The external distributed key generation failed.
    ExternalDkg,
    /// The external FROST signing or aggregation failed.
    ExternalFrost,
}

} // verus!
