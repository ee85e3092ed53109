//! A single DVRF evaluation round: per-signer partial evaluation with a
//! DDH-equality proof, a self-check of every proof, and Lagrange combination
//! of the checked shares.

use vstd::prelude::*;
use frost_secp256k1_evm as frost;
use crate::Error;
use crate::dkg::{Identifier, KeyPackage, PublicKeyPackage};
use crate::curve::{Fr, Point, be_bytes_val, compress_of, group_order, mulm, scalar_reduce_bytes};
use crate::utils::{
    hash_to_scalar_spec, ids_of, lag_den, lag_sum, lagrange_combine_points, points_model,
    prove_eq, verify_eq,
};

verus! {

/// Relies on `frost_core::Identifier::serialize`: the compact index of an
/// identifier, read from the low 8 bytes of its 32-byte big-endian
/// serialization — the identifier's integer value mod 2^64, so identifiers
/// allocated as small integers map to themselves.
#[verifier::external_body]
pub fn id_as_u64(id: &Identifier) -> (r: u64)
    ensures
        r as nat == id.index_val() % 0x1_0000_0000_0000_0000nat,
{
    let bytes = id.raw.inner.serialize();
    let mut arr = [0u8; 8];
    arr.copy_from_slice(&bytes[24..32]);
    u64::from_be_bytes(arr)
}

/// Relies on `frost_core::keys::SigningShare::serialize`: the 32-byte
/// big-endian encoding of the signing share held in a key package — the
/// very bytes the package is modelled by.
#[verifier::external_body]
fn signing_share_bytes(kp: &KeyPackage) -> (r: [u8; 32])
    requires
        kp.wf(),
    ensures
        r@ == kp.share_bytes(),
{
    let ser = kp.raw.inner.signing_share().serialize();
    let mut bytes32 = [0u8; 32];
    bytes32.copy_from_slice(&ser);
    bytes32
}

/// Relies on `frost_core::keys::PublicKeyPackage::verifying_shares` and
/// `VerifyingShare::serialize`: the 33-byte SEC1 compressed encoding of the
/// verifying share for the given compact index — exactly the entries of the
/// package's model map. `None` when the package holds no encodable share
/// for the index.
#[verifier::external_body]
fn verifying_share_bytes(pkg: &PublicKeyPackage, id: u64) -> (r: Option<Vec<u8>>)
    requires
        1 <= id <= 0xFFFF,
    ensures
        (r is Some) == pkg.share_encodings().dom().contains(id),
        r is Some ==> r.unwrap()@ == pkg.share_encodings()[id] && r.unwrap()@.len() == 33,
{
    let ident = match frost::Identifier::try_from(id as u16) {
        Ok(i) => i,
        Err(_) => {
            return None;
        },
    };
    match pkg.raw.inner.verifying_shares().get(&ident) {
        Some(vs) => vs.serialize().ok(),
        None => None,
    }
}

/// Extract the secret share of a key package as a scalar: its 32-byte
/// big-endian serialization reduced mod r — a pure function of the
/// package's share bytes.
pub fn scalar_from_keypackage(kp: &KeyPackage) -> (r: Fr)
    requires
        kp.wf(),
    ensures
        r.val() == be_bytes_val(kp.share_bytes()) % group_order(),
        r.wf(),
{
    let bytes = signing_share_bytes(kp);
    scalar_reduce_bytes(&bytes)
}

/// Look up the verifying share `vk_i` for a participant in the public key
/// package and convert it to a native point. `UnknownIdentifier` exactly
/// when the package holds no share for the index; `ExternalFrost` when the
/// stored encoding is not a canonical point encoding; on success, the point
/// whose compressed encoding the package stores for the index.
pub fn vk_share_from_public_pkg(pkg: &PublicKeyPackage, id: u64) -> (r: Result<
    Point,
    Error,
>)
    requires
        1 <= id <= 0xFFFF,
    ensures
        (r == Err::<Point, Error>(Error::UnknownIdentifier)) <==> !pkg.share_encodings(
        ).dom().contains(id),
        r is Ok ==> r.unwrap().wf() && compress_of(r.unwrap().dlog()) == pkg.share_encodings()[id],
        r is Err ==> r == Err::<Point, Error>(Error::UnknownIdentifier) || r == Err::<
            Point,
            Error,
        >(Error::ExternalFrost),
{
    match verifying_share_bytes(pkg, id) {
        None => Err(Error::UnknownIdentifier),
        Some(bytes) => match crate::curve::point_decompress(bytes.as_slice()) {
            Some(p) => Ok(p),
            None => Err(Error::ExternalFrost),
        },
    }
}

/// Whether a signer list is an acceptable subset: at least the threshold,
/// no duplicates, every index in `1..=0xFFFF`, and every signer among the
/// participants.
pub open spec fn valid_subset(signers: Seq<u64>, participants: Seq<u64>, min_signers: u16) -> bool {
    &&& signers.len() >= min_signers as nat
    &&& forall|a: int, b: int| 0 <= a < b < signers.len() ==> signers[a] != signers[b]
    &&& forall|a: int| 0 <= a < signers.len() ==> 1 <= #[trigger] signers[a] <= 0xFFFF
    &&& forall|a: int| 0 <= a < signers.len() ==> participants.contains(#[trigger] signers[a])
}

/// The participant indices of a key-package list.
pub open spec fn package_ids(pkgs: Seq<(u64, KeyPackage)>) -> Seq<u64> {
    pkgs.map_values(|p: (u64, KeyPackage)| p.0)
}

/// Find the key package for an index.
pub(crate) fn find_package(
    key_packages: &Vec<(u64, KeyPackage)>,
    id: u64,
) -> (r: Option<usize>)
    ensures
        r is Some ==> r.unwrap() < key_packages@.len() && key_packages@[r.unwrap() as int].0 == id,
        r is None ==> !package_ids(key_packages@).contains(id),
{
    let mut k: usize = 0;
    while k < key_packages.len()
        invariant
            k <= key_packages@.len(),
            forall|t: int| 0 <= t < k ==> key_packages@[t].0 != id,
        decreases key_packages@.len() - k,
    {
        if key_packages[k].0 == id {
            return Some(k);
        }
        k += 1;
    }
    proof {
        assert(forall|t: int|
            0 <= t < key_packages@.len() ==> package_ids(key_packages@)[t]
                == key_packages@[t].0);
    }
    None
}

/// Check a signer list against `valid_subset`.
fn check_subset(
    signers: &Vec<u64>,
    key_packages: &Vec<(u64, KeyPackage)>,
    min_signers: u16,
) -> (r: bool)
    ensures
        r == valid_subset(signers@, package_ids(key_packages@), min_signers),
{
    if signers.len() < min_signers as usize {
        return false;
    }
    let mut a: usize = 0;
    while a < signers.len()
        invariant
            a <= signers@.len(),
            signers@.len() >= min_signers as nat,
            forall|x: int, y: int| 0 <= x < y < a ==> signers@[x] != signers@[y],
            forall|x: int| 0 <= x < a ==> 1 <= #[trigger] signers@[x] <= 0xFFFF,
            forall|x: int|
                0 <= x < a ==> package_ids(key_packages@).contains(#[trigger] signers@[x]),
        decreases signers@.len() - a,
    {
        let id = signers[a];
        if id == 0 || id > 0xFFFF {
            return false;
        }
        let mut b: usize = 0;
        while b < a
            invariant
                b <= a < signers@.len(),
                id == signers@[a as int],
                forall|y: int| 0 <= y < b ==> signers@[y] != signers@[a as int],
            decreases a - b,
        {
            if signers[b] == id {
                proof {
                    assert(signers@[b as int] == signers@[a as int] && b < a);
                }
                return false;
            }
            b += 1;
        }
        match find_package(key_packages, id) {
            None => {
                return false;
            },
            Some(t) => {
                proof {
                    assert(package_ids(key_packages@)[t as int] == id);
                    assert(package_ids(key_packages@).contains(id));
                }
            },
        }
        a += 1;
    }
    true
}

/// A single DVRF round for message `m` over the chosen signers:
/// every signer produces `(v_i, pi_i)` with `v_i = sk_i * PH(m)`, every
/// proof is checked, and the checked shares are combined by Lagrange
/// interpolation in the exponent into `V`.
///
/// The subset is validated first: fewer than `min_signers` signers, a
/// duplicate, an index outside `1..=0xFFFF`, or a signer without a key
/// package is `InvalidSubset`, and nothing is evaluated. On success the
/// combined value is exactly the Lagrange combination of the returned
/// per-signer shares, whose indices are the signers in the order supplied,
/// and each share is a multiple of `PH(m)` in the exponent.
pub fn run_ddh_dvrf_once(
    msg: &[u8],
    key_packages: &Vec<(u64, KeyPackage)>,
    public_key_package: &PublicKeyPackage,
    signers: &Vec<u64>,
    min_signers: u16,
) -> (r: Result<(Point, Vec<(u64, Point)>), Error>)
    requires
        forall|k: int| 0 <= k < key_packages@.len() ==> (#[trigger] key_packages@[k].1).wf(),
    ensures
        (r == Err::<(Point, Vec<(u64, Point)>), Error>(Error::InvalidSubset)) <==> !valid_subset(
            signers@,
            package_ids(key_packages@),
            min_signers,
        ),
        r is Err ==> r->Err_0 == Error::InvalidSubset || r->Err_0 == Error::UnknownIdentifier
            || r->Err_0 == Error::ExternalFrost || r->Err_0 == Error::CombineDegenerate
            || r->Err_0 is ProofRejected,
        r is Ok ==> {
            let (v, shares) = r.unwrap();
            &&& v.wf()
            &&& ids_of(shares@) == signers@
            &&& forall|k: int| 0 <= k < shares@.len() ==> (#[trigger] shares@[k].1).wf()
            &&& forall|k: int|
                0 <= k < shares@.len() ==> exists|s: nat|
                    s < group_order() && (#[trigger] shares@[k].1).dlog() == mulm(
                        hash_to_scalar_spec(msg@),
                        s,
                    )
            &&& v.dlog() == lag_sum(ids_of(shares@), points_model(shares@))
        },
{
    if !check_subset(signers, key_packages, min_signers) {
        return Err(Error::InvalidSubset);
    }
    let mut shares: Vec<(u64, Point)> = Vec::new();
    let mut idx: usize = 0;
    while idx < signers.len()
        invariant
            idx <= signers@.len(),
            forall|k: int| 0 <= k < key_packages@.len() ==> (#[trigger] key_packages@[k].1).wf(),
            valid_subset(signers@, package_ids(key_packages@), min_signers),
            ids_of(shares@) =~= signers@.take(idx as int),
            forall|k: int| 0 <= k < shares@.len() ==> (#[trigger] shares@[k].1).wf(),
            forall|k: int|
                0 <= k < shares@.len() ==> exists|s: nat|
                    s < group_order() && (#[trigger] shares@[k].1).dlog() == mulm(
                        hash_to_scalar_spec(msg@),
                        s,
                    ),
        decreases signers@.len() - idx,
    {
        let id = signers[idx];
        let pkg_idx = match find_package(key_packages, id) {
            Some(t) => t,
            None => {
                proof {
                    assert(package_ids(key_packages@).contains(signers@[idx as int]));
                }
                return Err(Error::UnknownIdentifier);
            },
        };
        let sk_i = scalar_from_keypackage(&key_packages[pkg_idx].1);
        let vk_i = match vk_share_from_public_pkg(public_key_package, id) {
            Ok(p) => p,
            Err(e) => {
                proof {
                    assert(!(e == Error::InvalidSubset));
                }
                return Err(e);
            },
        };
        let (v_i, pi) = prove_eq(msg, &vk_i, &sk_i);
        let ok = verify_eq(msg, &vk_i, &v_i, &pi);
        if !ok {
            return Err(Error::ProofRejected(id));
        }
        shares.push((id, v_i));
        proof {
            assert(ids_of(shares@).drop_last() =~= ids_of(shares@.drop_last()));
            assert(signers@.take(idx as int + 1).drop_last() =~= signers@.take(idx as int));
        }
        idx += 1;
    }
    proof {
        assert(signers@.take(signers@.len() as int) =~= signers@);
        assert(ids_of(shares@) =~= signers@);
    }
    let v = match lagrange_combine_points(&shares) {
        Ok(p) => p,
        Err(e) => {
            return Err(e);
        },
    };
    Ok((v, shares))
}

} // verus!
