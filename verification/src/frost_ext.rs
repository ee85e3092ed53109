//! Thin orchestrator over the external FROST two-round signing protocol,
//! sharing the key material of the DKG. The protocol itself is the external
//! collaborator; verified here is the orchestration: every signer commits,
//! one signing package is built over the message, every signer produces a
//! partial signature, and the partials are aggregated.

use vstd::prelude::*;
use frost_secp256k1_evm as frost;
use crate::Error;
use crate::dkg::{DkgOutput, KeyPackage, PublicKeyPackage};
use crate::ddh_dvrf::{find_package, package_ids};

verus! {

/// Opaque holder for `frost_secp256k1_evm::round1::SigningNonces`.
#[verifier::external_body]
pub struct SigningNonces {
    pub(crate) inner: frost::round1::SigningNonces,
}

/// Opaque holder for `frost_secp256k1_evm::round1::SigningCommitments`.
#[verifier::external_body]
pub struct SigningCommitments {
    pub(crate) inner: frost::round1::SigningCommitments,
}

/// Opaque holder for `frost_secp256k1_evm::SigningPackage`.
#[verifier::external_body]
pub struct SigningPackage {
    pub(crate) inner: frost::SigningPackage,
}

/// Opaque holder for `frost_secp256k1_evm::round2::SignatureShare`.
#[verifier::external_body]
pub struct SignatureShare {
    pub(crate) inner: frost::round2::SignatureShare,
}

/// Opaque holder for `frost_secp256k1_evm::Signature`.
#[verifier::external_body]
pub(crate) struct SignatureRaw {
    pub(crate) inner: frost::Signature,
}

/// A group Schnorr signature, modelled by its serialization, so that the
/// external verifier's verdict can be named as a function of bytes.
pub struct Signature {
    pub(crate) raw: SignatureRaw,
    pub(crate) bytes: Ghost<Seq<u8>>,
}

impl Signature {
    /// The serialization of the signature.
    pub closed spec fn bytes_model(self) -> Seq<u8> {
        self.bytes@
    }
}

/// Opaque holder for `frost_secp256k1_evm::VerifyingKey`.
#[verifier::external_body]
pub(crate) struct VerifyingKeyRaw {
    pub(crate) inner: frost::VerifyingKey,
}

/// The group public key, modelled by its serialization.
pub struct VerifyingKey {
    pub(crate) raw: VerifyingKeyRaw,
    pub(crate) bytes: Ghost<Seq<u8>>,
}

impl VerifyingKey {
    /// The serialization of the key.
    pub closed spec fn bytes_model(self) -> Seq<u8> {
        self.bytes@
    }
}

/// The verdict of Schnorr verification for a key, a message and a
/// signature, each by its serialization. Named, not defined: verification
/// is deterministic in its three inputs, and only the external verifier
/// computes it.
pub uninterp spec fn schnorr_verify_of(key: Seq<u8>, msg: Seq<u8>, sig: Seq<u8>) -> bool;

/// Relies on `frost_secp256k1_evm::round1::commit` with the operating
/// system's randomness: a signer's fresh nonces and commitments. The result
/// is random: nothing is promised of it.
#[verifier::external_body]
fn frost_round1_commit(kp: &KeyPackage) -> (SigningNonces, SigningCommitments) {
    let (nonces, commitments) = frost::round1::commit(
        kp.raw.inner.signing_share(),
        &mut rand::rngs::OsRng,
    );
    (SigningNonces { inner: nonces }, SigningCommitments { inner: commitments })
}

/// Relies on `frost_secp256k1_evm::SigningPackage::new` over the commitment
/// map and the message.
#[verifier::external_body]
fn signing_package_new(commitments: &Vec<(u64, SigningCommitments)>, msg: &[u8]) -> SigningPackage
    requires
        forall|k: int| 0 <= k < commitments@.len() ==> 1 <= #[trigger] commitments@[k].0 <= 0xFFFF,
{
    let mut map = std::collections::BTreeMap::new();
    for (i, c) in commitments.iter() {
        map.insert(frost::Identifier::try_from(*i as u16).unwrap(), c.inner);
    }
    SigningPackage { inner: frost::SigningPackage::new(map, msg) }
}

/// Relies on `frost_secp256k1_evm::round2::sign`: one signer's partial
/// signature; failures pass through.
#[verifier::external_body]
fn frost_round2_sign(pkg: &SigningPackage, nonces: &SigningNonces, kp: &KeyPackage) -> (r: Result<SignatureShare, Error>)
    ensures
        r is Err ==> r->Err_0 == Error::ExternalFrost,
{
    match frost::round2::sign(&pkg.inner, &nonces.inner, &kp.raw.inner) {
        Ok(s) => Ok(SignatureShare { inner: s }),
        Err(_) => Err(Error::ExternalFrost),
    }
}

/// Relies on `frost_secp256k1_evm::aggregate`: the group signature from the
/// partial signatures; failures pass through.
#[verifier::external_body]
fn frost_aggregate(
    pkg: &SigningPackage,
    shares: &Vec<(u64, SignatureShare)>,
    pubkeys: &PublicKeyPackage,
) -> (r: Result<Signature, Error>)
    requires
        forall|k: int| 0 <= k < shares@.len() ==> 1 <= #[trigger] shares@[k].0 <= 0xFFFF,
    ensures
        r is Err ==> r->Err_0 == Error::ExternalFrost,
{
    let mut map = std::collections::BTreeMap::new();
    for (i, s) in shares.iter() {
        map.insert(frost::Identifier::try_from(*i as u16).unwrap(), s.inner);
    }
    match frost::aggregate(&pkg.inner, &map, &pubkeys.raw.inner) {
        Ok(s) => Ok(Signature { raw: SignatureRaw { inner: s }, bytes: Ghost(arbitrary()) }),
        Err(_) => Err(Error::ExternalFrost),
    }
}

/// Relies on the `verifying_key` accessor of
/// `frost_secp256k1_evm::keys::PublicKeyPackage`: the group public key held
/// inside the package — the one its model names.
#[verifier::external_body]
fn group_verifying_key(pkg: &PublicKeyPackage) -> (r: VerifyingKey)
    ensures
        r.bytes_model() == pkg.group_key_bytes(),
{
    VerifyingKey {
        raw: VerifyingKeyRaw { inner: *pkg.raw.inner.verifying_key() },
        bytes: Ghost(arbitrary()),
    }
}

/// Relies on `frost_secp256k1_evm::VerifyingKey::verify`: whether the
/// Schnorr signature is valid for the message under the key — a
/// deterministic function of the three serializations, named
/// `schnorr_verify_of`. Cryptographic failure is a `false`, never an error.
#[verifier::external_body]
fn schnorr_verify(vk: &VerifyingKey, msg: &[u8], sig: &Signature) -> (r: bool)
    ensures
        r == schnorr_verify_of(vk.bytes_model(), msg@, sig.bytes_model()),
{
    vk.raw.inner.verify(msg, &sig.raw.inner).is_ok()
}

/// Whether every chosen signer is a known participant with an index in
/// `1..=0xFFFF`.
pub open spec fn signers_known(signers: Seq<u64>, participants: Seq<u64>) -> bool {
    forall|k: int|
        0 <= k < signers.len() ==> 1 <= #[trigger] signers[k] <= 0xFFFF && participants.contains(
            signers[k],
        )
}

/// FROST signing over the DKG's key material: round-1 commitments for every
/// chosen signer, a signing package over the message, round-2 partial
/// signatures, and aggregation into a group signature.
///
/// A signer without a key package (or with an index outside `1..=0xFFFF`)
/// is `InvalidSubset`, and nothing is signed; failures of the external
/// protocol pass through as `ExternalFrost`.
pub fn frost_sign(msg: &[u8], out: &DkgOutput, signer_ids: &Vec<u64>) -> (r: Result<Signature, Error>)
    ensures
        (r == Err::<Signature, Error>(Error::InvalidSubset)) <==> !signers_known(
            signer_ids@,
            package_ids(out.key_packages@),
        ),
        r is Err ==> r->Err_0 == Error::InvalidSubset || r->Err_0 == Error::ExternalFrost,
{
    let mut nonces: Vec<(u64, usize, SigningNonces)> = Vec::new();
    let mut commits: Vec<(u64, SigningCommitments)> = Vec::new();
    let mut a: usize = 0;
    while a < signer_ids.len()
        invariant
            a <= signer_ids@.len(),
            nonces@.len() == a,
            commits@.len() == a,
            forall|k: int|
                0 <= k < a ==> 1 <= #[trigger] signer_ids@[k] <= 0xFFFF && package_ids(
                    out.key_packages@,
                ).contains(signer_ids@[k]),
            forall|k: int| 0 <= k < a ==> (#[trigger] nonces@[k].0) == signer_ids@[k],
            forall|k: int| 0 <= k < a ==> (#[trigger] nonces@[k].1) < out.key_packages@.len(),
            forall|k: int| 0 <= k < a ==> (#[trigger] commits@[k].0) == signer_ids@[k],
        decreases signer_ids@.len() - a,
    {
        let id = signer_ids[a];
        if id == 0 || id > 0xFFFF {
            return Err(Error::InvalidSubset);
        }
        let t = match find_package(&out.key_packages, id) {
            Some(t) => {
                proof {
                    assert(package_ids(out.key_packages@)[t as int] == id);
                    assert(package_ids(out.key_packages@).contains(id));
                }
                t
            },
            None => {
                return Err(Error::InvalidSubset);
            },
        };
        let (n, c) = frost_round1_commit(&out.key_packages[t].1);
        nonces.push((id, t, n));
        commits.push((id, c));
        a += 1;
    }
    let pkg = signing_package_new(&commits, msg);
    let mut shares: Vec<(u64, SignatureShare)> = Vec::new();
    let mut b: usize = 0;
    while b < nonces.len()
        invariant
            b <= nonces@.len(),
            signers_known(signer_ids@, package_ids(out.key_packages@)),
            forall|k: int|
                0 <= k < nonces@.len() ==> 1 <= (#[trigger] nonces@[k].0) <= 0xFFFF,
            forall|k: int| 0 <= k < nonces@.len() ==> (#[trigger] nonces@[k].1)
                < out.key_packages@.len(),
            shares@.len() == b,
            forall|k: int| 0 <= k < b ==> 1 <= (#[trigger] shares@[k].0) <= 0xFFFF,
        decreases nonces@.len() - b,
    {
        let id = nonces[b].0;
        let t = nonces[b].1;
        let ss = match frost_round2_sign(&pkg, &nonces[b].2, &out.key_packages[t].1) {
            Ok(s) => s,
            Err(e) => {
                return Err(e);
            },
        };
        shares.push((id, ss));
        b += 1;
    }
    match frost_aggregate(&pkg, &shares, &out.public_key_package) {
        Ok(sig) => Ok(sig),
        Err(e) => Err(e),
    }
}

/// Verify a group signature over a message under the DKG's group public
/// key, delegating to the external verifier. Never errs: the boolean is
/// exactly the external verifier's verdict for the group key, the message
/// and the signature.
pub fn frost_verify(msg: &[u8], sig: &Signature, out: &DkgOutput) -> (r: Result<bool, Error>)
    ensures
        r == Ok::<bool, Error>(schnorr_verify_of(
            out.public_key_package.group_key_bytes(),
            msg@,
            sig.bytes_model(),
        )),
{
    let vk = group_verifying_key(&out.public_key_package);
    Ok(schnorr_verify(&vk, msg, sig))
}

} // verus!
