//! Dealerless distributed key generation over secp256k1 (EVM ciphersuite).
//!
//! The DKG protocol itself is an external collaborator: the `frost-core`
//! rounds are called behind trusted wrappers, and this module verifies the
//! orchestration — every participant runs round 1, every pair exchanges
//! packages, and the output holds one key package per participant, indexed
//! `1..=n` in order.

use vstd::prelude::*;
use frost_secp256k1_evm as frost;
use frost_secp256k1_evm::keys::dkg as frost_dkg;
use std::collections::BTreeMap;
use crate::Error;

verus! {

/// Opaque holder for the external `frost_secp256k1_evm::Identifier`.
/// (Verus refuses the generic declaration of the underlying `frost_core`
/// type, whose parameter is bounded by an external trait, so the value is
/// carried in an opaque struct instead; the same holds of the other frost
/// types below.)
#[verifier::external_body]
pub(crate) struct IdentifierRaw {
    pub(crate) inner: frost::Identifier,
}

/// A participant identifier, modelled by the big-endian integer value of
/// its 32-byte serialization. The model is maintained by the trusted
/// constructors and read by the trusted projections.
pub struct Identifier {
    pub(crate) raw: IdentifierRaw,
    pub(crate) index: Ghost<nat>,
}

impl Identifier {
    /// The integer the identifier serializes to, big-endian.
    pub closed spec fn index_val(self) -> nat {
        self.index@
    }
}

/// Opaque holder for the external `frost_secp256k1_evm::keys::KeyPackage`.
#[verifier::external_body]
pub(crate) struct KeyPackageRaw {
    pub(crate) inner: frost::keys::KeyPackage,
}

/// One participant's key material from the DKG, modelled by the 32-byte
/// big-endian serialization of its signing share. The secret itself stays
/// inside the external package; the model only names its bytes, so that the
/// scalar extracted from a package is pinned as a function of the package.
pub struct KeyPackage {
    pub(crate) raw: KeyPackageRaw,
    pub(crate) share: Ghost<Seq<u8>>,
}

impl KeyPackage {
    /// The 32-byte big-endian serialization of the signing share held
    /// inside.
    pub closed spec fn share_bytes(self) -> Seq<u8> {
        self.share@
    }

    pub open spec fn wf(self) -> bool {
        self.share_bytes().len() == 32
    }
}

/// Opaque holder for the external
/// `frost_secp256k1_evm::keys::PublicKeyPackage`.
#[verifier::external_body]
pub(crate) struct PublicKeyPackageRaw {
    pub(crate) inner: frost::keys::PublicKeyPackage,
}

/// The group's verifying data from the DKG, modelled by the map from a
/// participant's compact index to the 33-byte SEC1 compressed encoding of
/// its verifying share, and by the serialization of the group verifying
/// key.
pub struct PublicKeyPackage {
    pub(crate) raw: PublicKeyPackageRaw,
    pub(crate) shares: Ghost<Map<u64, Seq<u8>>>,
    pub(crate) group_key: Ghost<Seq<u8>>,
}

impl PublicKeyPackage {
    /// The compressed verifying-share encodings held inside, by compact
    /// participant index.
    pub closed spec fn share_encodings(self) -> Map<u64, Seq<u8>> {
        self.shares@
    }

    /// The serialization of the group verifying key held inside.
    pub closed spec fn group_key_bytes(self) -> Seq<u8> {
        self.group_key@
    }
}

/// Opaque holder for `frost_secp256k1_evm::keys::dkg::round1::SecretPackage`.
#[verifier::external_body]
pub struct Round1Secret {
    pub(crate) inner: frost::keys::dkg::round1::SecretPackage,
}

/// Opaque holder for `frost_secp256k1_evm::keys::dkg::round1::Package`.
#[verifier::external_body]
pub struct Round1Package {
    pub(crate) inner: frost::keys::dkg::round1::Package,
}

/// Opaque holder for `frost_secp256k1_evm::keys::dkg::round2::SecretPackage`.
#[verifier::external_body]
pub struct Round2Secret {
    pub(crate) inner: frost::keys::dkg::round2::SecretPackage,
}

/// Opaque holder for `frost_secp256k1_evm::keys::dkg::round2::Package`.
#[verifier::external_body]
pub struct Round2Package {
    pub(crate) inner: frost::keys::dkg::round2::Package,
}

/// Relies on `frost_core::Identifier::try_from(u16)`: the identifier for a
/// non-zero index, which serializes to that index big-endian. The
/// conversion fails only on zero, which the precondition excludes.
#[verifier::external_body]
pub fn identifier_from_u16(k: u16) -> (r: Result<Identifier, Error>)
    requires
        k >= 1,
    ensures
        r is Ok,
        r.unwrap().index_val() == k as nat,
{
    match frost::Identifier::try_from(k) {
        Ok(inner) => Ok(Identifier { raw: IdentifierRaw { inner }, index: Ghost(arbitrary()) }),
        Err(_) => Err(Error::ExternalDkg),
    }
}

/// DKG parameters: any `min_signers` of `max_signers` participants can later
/// sign or evaluate.
#[derive(Clone, Copy, Debug, PartialEq, Eq, Structural)]
pub struct DkgConfig {
    pub max_signers: u16,
    pub min_signers: u16,
}

impl DkgConfig {
    /// Validate the parameters: both bounds must be at least 2 and the
    /// threshold cannot exceed the group size; anything else is
    /// `InvalidConfig`.
    pub fn new(max_signers: u16, min_signers: u16) -> (r: Result<DkgConfig, Error>)
        ensures
            (r is Ok) <==> (max_signers >= 2 && min_signers >= 2 && min_signers <= max_signers),
            r is Ok ==> r.unwrap() == (DkgConfig { max_signers, min_signers }),
            r is Err ==> r == Err::<DkgConfig, Error>(Error::InvalidConfig),
    {
        if max_signers < 2 {
            return Err(Error::InvalidConfig);
        }
        if min_signers < 2 {
            return Err(Error::InvalidConfig);
        }
        if min_signers > max_signers {
            return Err(Error::InvalidConfig);
        }
        Ok(DkgConfig { max_signers, min_signers })
    }
}

/// The DKG result: one key package per participant, keyed by the compact
/// `u64` projection of its identifier, plus the shared public key package.
pub struct DkgOutput {
    pub key_packages: Vec<(u64, KeyPackage)>,
    pub public_key_package: PublicKeyPackage,
}

/// The participant indices of a DKG output, in stored order.
pub open spec fn output_ids(out: DkgOutput) -> Seq<u64> {
    out.key_packages@.map_values(|p: (u64, KeyPackage)| p.0)
}

impl DkgOutput {
    /// Well-formedness of a DKG output: each participant appears once (the
    /// original's map type guaranteed this by construction), and every key
    /// package carries a 32-byte share. Established by `run_dealerless_dkg`.
    pub open spec fn wf(self) -> bool {
        &&& output_ids(self).no_duplicates()
        &&& forall|k: int|
            0 <= k < self.key_packages@.len() ==> (#[trigger] self.key_packages@[k].1).wf()
    }

    /// All participant indices, sorted ascending and free of duplicates;
    /// the same multiset as the stored indices.
    pub fn all_ids(&self) -> (r: Vec<u64>)
        requires
            self.wf(),
        ensures
            forall|a: int, b: int| 0 <= a < b < r@.len() ==> r@[a] <= r@[b],
            r@.to_multiset() == output_ids(*self).to_multiset(),
            r@.no_duplicates(),
    {
        let mut v: Vec<u64> = Vec::new();
        let mut k: usize = 0;
        while k < self.key_packages.len()
            invariant
                k <= self.key_packages@.len(),
                v@ == output_ids(*self).take(k as int),
            decreases self.key_packages@.len() - k,
        {
            v.push(self.key_packages[k].0);
            proof {
                assert(output_ids(*self).take(k as int + 1).drop_last() =~= output_ids(
                    *self,
                ).take(k as int));
                assert(output_ids(*self).take(k as int + 1).last() == output_ids(*self)[k as int]);
            }
            k += 1;
        }
        proof {
            assert(v@ =~= output_ids(*self));
        }
        let r = sort_u64(v);
        proof {
            output_ids(*self).lemma_multiset_has_no_duplicates();
            r@.lemma_multiset_has_no_duplicates_conv();
        }
        r
    }
}

/// Insertion sort for indices.
fn sort_u64(input: Vec<u64>) -> (r: Vec<u64>)
    ensures
        forall|a: int, b: int| 0 <= a < b < r@.len() ==> r@[a] <= r@[b],
        r@.to_multiset() == input@.to_multiset(),
{
    let mut v = input;
    if v.len() < 2 {
        return v;
    }
    let mut i: usize = 1;
    while i < v.len()
        invariant
            1 <= i <= v@.len(),
            v@.len() == input@.len(),
            v@.to_multiset() == input@.to_multiset(),
            forall|a: int, b: int| 0 <= a < b < i ==> v@[a] <= v@[b],
        decreases v@.len() - i,
    {
        let mut j: usize = i;
        while j > 0 && v[j - 1] > v[j]
            invariant
                0 <= j <= i < v@.len(),
                v@.len() == input@.len(),
                v@.to_multiset() == input@.to_multiset(),
                forall|a: int, b: int| 0 <= a < b <= i && b != j ==> v@[a] <= v@[b],
                forall|a: int| j < a <= i ==> v@[j as int] <= v@[a],
            decreases j,
        {
            proof {
                broadcast use vstd::multiset::group_multiset_axioms;

                let s0 = v@;
                let a = s0[j - 1];
                let b = s0[j as int];
                let s1 = s0.update(j - 1, b);
                vstd::seq_lib::to_multiset_update(s0, j - 1, b);
                vstd::seq_lib::to_multiset_update(s1, j as int, a);
                assert(s1[j as int] == b);
                s0.to_multiset_ensures();
                assert(s0.to_multiset().contains(a));
                assert(s1.update(j as int, a).to_multiset() =~= s0.to_multiset());
            }
            let tmp = v[j - 1];
            v.set(j - 1, v[j]);
            v.set(j, tmp);
            j -= 1;
        }
        i += 1;
    }
    v
}

/// Relies on `frost_secp256k1_evm::keys::dkg::part1` with the operating
/// system's randomness: one participant's first-round secret and broadcast
/// package. The result is random; failures pass through.
#[verifier::external_body]
fn dkg_part1(id: u64, max_signers: u16, min_signers: u16) -> (r: Result<(Round1Secret, Round1Package), Error>)
    requires
        1 <= id <= 0xFFFF,
    ensures
        r is Err ==> r->Err_0 == Error::ExternalDkg,
{
    let ident = frost::Identifier::try_from(id as u16).map_err(|_| Error::ExternalDkg)?;
    let (s1, p1) = frost_dkg::part1(ident, max_signers, min_signers, &mut rand::rngs::OsRng)
        .map_err(|_| Error::ExternalDkg)?;
    Ok((Round1Secret { inner: s1 }, Round1Package { inner: p1 }))
}

/// Relies on `frost_secp256k1_evm::keys::dkg::part2`: one participant's
/// second round over the packages received from the others. The returned
/// pairs carry the compact index of the participant each package is meant
/// for; failures pass through.
#[verifier::external_body]
fn dkg_part2(
    secret: Round1Secret,
    received: &Vec<(u64, Round1Package)>,
) -> (r: Result<(Round2Secret, Vec<(u64, Round2Package)>), Error>)
    requires
        forall|k: int| 0 <= k < received@.len() ==> 1 <= #[trigger] received@[k].0 <= 0xFFFF,
    ensures
        r is Err ==> r->Err_0 == Error::ExternalDkg,
{
    let mut map = BTreeMap::new();
    for (i, p) in received {
        map.insert(frost::Identifier::try_from(*i as u16).unwrap(), p.inner.clone());
    }
    let (s2, out) = frost_dkg::part2(secret.inner, &map).map_err(|_| Error::ExternalDkg)?;
    Ok((
        Round2Secret { inner: s2 },
        out.into_iter().map(|(id, p)| {
            let bytes = id.serialize();
            let mut arr = [0u8; 8];
            arr.copy_from_slice(&bytes[24..32]);
            (u64::from_be_bytes(arr), Round2Package { inner: p })
        }).collect(),
    ))
}

/// Relies on `frost_secp256k1_evm::keys::dkg::part3`: one participant's
/// final round, yielding its key package and the shared public key package;
/// failures pass through.
#[verifier::external_body]
fn dkg_part3(
    secret: &Round2Secret,
    round1: &Vec<(u64, Round1Package)>,
    round2: &Vec<(u64, Round2Package)>,
) -> (r: Result<(KeyPackage, PublicKeyPackage), Error>)
    requires
        forall|k: int| 0 <= k < round1@.len() ==> 1 <= #[trigger] round1@[k].0 <= 0xFFFF,
        forall|k: int| 0 <= k < round2@.len() ==> 1 <= #[trigger] round2@[k].0 <= 0xFFFF,
    ensures
        r is Err ==> r->Err_0 == Error::ExternalDkg,
        r is Ok ==> r.unwrap().0.wf(),
{
    let mut m1 = BTreeMap::new();
    for (i, p) in round1 {
        m1.insert((*i as u16).try_into().unwrap(), p.inner.clone());
    }
    let mut m2 = BTreeMap::new();
    for (i, p) in round2 {
        m2.insert((*i as u16).try_into().unwrap(), p.inner.clone());
    }
    let (kp, pk) = frost_dkg::part3(&secret.inner, &m1, &m2).map_err(|_| Error::ExternalDkg)?;
    let kp = KeyPackage { raw: KeyPackageRaw { inner: kp }, share: Ghost(arbitrary()) };
    let raw = PublicKeyPackageRaw { inner: pk };
    Ok((kp, PublicKeyPackage { raw, shares: Ghost(arbitrary()), group_key: Ghost(arbitrary()) }))
}

/// Relies on `Clone` of `frost_secp256k1_evm::keys::dkg::round1::Package`,
/// to broadcast one package to several receivers.
#[verifier::external_body]
fn clone_round1_package(p: &Round1Package) -> (r: Round1Package) {
    Round1Package { inner: p.inner.clone() }
}

/// Relies on `Clone` of `frost_secp256k1_evm::keys::dkg::round2::Package`,
/// to route one package to its receiver while the sender's list stays whole.
#[verifier::external_body]
fn clone_round2_package(p: &Round2Package) -> (r: Round2Package) {
    Round2Package { inner: p.inner.clone() }
}

/// Run the dealerless DKG locally for participants `1..=max_signers`:
/// round 1 for everyone, a full pairwise exchange of packages, then rounds 2
/// and 3 for everyone. The protocol itself is the external collaborator; the
/// orchestration here guarantees that a successful run yields exactly one
/// key package per participant, indexed `1..=max_signers` in ascending
/// order, plus the shared public key package. Parameters out of range are
/// `InvalidConfig`; failures of the external rounds pass through.
pub fn run_dealerless_dkg(cfg: DkgConfig) -> (r: Result<DkgOutput, Error>)
    ensures
        (r == Err::<DkgOutput, Error>(Error::InvalidConfig)) <==> !(cfg.max_signers >= 2
            && cfg.min_signers >= 2 && cfg.min_signers <= cfg.max_signers),
        r is Err ==> r->Err_0 == Error::InvalidConfig || r->Err_0 == Error::ExternalDkg,
        r is Ok ==> {
            &&& output_ids(r.unwrap()).len() == cfg.max_signers as nat
            &&& forall|k: int|
                0 <= k < cfg.max_signers as int ==> output_ids(r.unwrap())[k] == k + 1
            &&& r.unwrap().wf()
        },
{
    if !(cfg.max_signers >= 2 && cfg.min_signers >= 2 && cfg.min_signers <= cfg.max_signers) {
        return Err(Error::InvalidConfig);
    }
    let n = cfg.max_signers;
    // Round 1: every participant draws its secret and broadcast package.
    let mut r1_secrets: Vec<(u64, Round1Secret)> = Vec::new();
    let mut r1_broadcast: Vec<(u64, Round1Package)> = Vec::new();
    let mut i: u32 = 1;
    while i <= n as u32
        invariant
            cfg.max_signers >= 2 && cfg.min_signers >= 2 && cfg.min_signers <= cfg.max_signers,
            n == cfg.max_signers,
            1 <= i <= n as int + 1,
            r1_secrets@.len() == i - 1,
            r1_broadcast@.len() == i - 1,
            forall|t: int| 0 <= t < i - 1 ==> (#[trigger] r1_secrets@[t].0) == t + 1,
            forall|t: int| 0 <= t < i - 1 ==> (#[trigger] r1_broadcast@[t].0) == t + 1,
        decreases n as int + 1 - i,
    {
        let (sec, pkg) = match dkg_part1(i as u64, cfg.max_signers, cfg.min_signers) {
            Ok(x) => x,
            Err(e) => {
                return Err(e);
            },
        };
        r1_secrets.push((i as u64, sec));
        r1_broadcast.push((i as u64, pkg));
        i += 1;
    }
    // Round 2: every participant processes the packages of all the others.
    let mut r2_secrets: Vec<(u64, Round2Secret)> = Vec::new();
    let mut recv_r1_all: Vec<(u64, Vec<(u64, Round1Package)>)> = Vec::new();
    let mut outgoing_all: Vec<(u64, Vec<(u64, Round2Package)>)> = Vec::new();
    while r1_secrets.len() > 0
        invariant
            cfg.max_signers >= 2 && cfg.min_signers >= 2 && cfg.min_signers <= cfg.max_signers,
            n == cfg.max_signers,
            r1_secrets@.len() <= n as nat,
            r1_broadcast@.len() == n as nat,
            forall|t: int| 0 <= t < n as int ==> (#[trigger] r1_broadcast@[t].0) == t + 1,
            forall|t: int|
                0 <= t < r1_secrets@.len() ==> (#[trigger] r1_secrets@[t].0) == n as int
                    - r1_secrets@.len() + t + 1,
            r2_secrets@.len() == n as nat - r1_secrets@.len(),
            recv_r1_all@.len() == r2_secrets@.len(),
            outgoing_all@.len() == r2_secrets@.len(),
            forall|t: int| 0 <= t < r2_secrets@.len() ==> (#[trigger] r2_secrets@[t].0) == t + 1,
            forall|t: int| 0 <= t < recv_r1_all@.len() ==> (#[trigger] recv_r1_all@[t].0) == t + 1,
            forall|t: int|
                0 <= t < outgoing_all@.len() ==> 1 <= (#[trigger] outgoing_all@[t].0) <= n as int,
            forall|t: int, w: int|
                0 <= t < recv_r1_all@.len() && 0 <= w < recv_r1_all@[t].1@.len() ==> 1 <= (
                #[trigger] recv_r1_all@[t].1@[w]).0 <= n as int,
        decreases r1_secrets@.len(),
    {
        let (my_id, secret) = r1_secrets.remove(0);
        let mut received: Vec<(u64, Round1Package)> = Vec::new();
        let mut s: usize = 0;
        while s < r1_broadcast.len()
            invariant
                s <= r1_broadcast@.len(),
                r1_broadcast@.len() == n as nat,
                forall|t: int| 0 <= t < n as int ==> (#[trigger] r1_broadcast@[t].0) == t + 1,
                forall|w: int|
                    0 <= w < received@.len() ==> 1 <= (#[trigger] received@[w].0) <= n as int,
            decreases r1_broadcast@.len() - s,
        {
            if r1_broadcast[s].0 != my_id {
                let pkg = clone_round1_package(&r1_broadcast[s].1);
                received.push((r1_broadcast[s].0, pkg));
            }
            s += 1;
        }
        let (s2, outgoing) = match dkg_part2(secret, &received) {
            Ok(x) => x,
            Err(e) => {
                return Err(e);
            },
        };
        r2_secrets.push((my_id, s2));
        recv_r1_all.push((my_id, received));
        outgoing_all.push((my_id, outgoing));
    }
    // Round 3: every participant finishes with the packages addressed to it.
    let mut key_packages: Vec<(u64, KeyPackage)> = Vec::new();
    let mut pubkey: Option<PublicKeyPackage> = None;
    let mut k: usize = 0;
    while k < r2_secrets.len()
        invariant
            cfg.max_signers >= 2 && cfg.min_signers >= 2 && cfg.min_signers <= cfg.max_signers,
            n == cfg.max_signers,
            k <= r2_secrets@.len(),
            r2_secrets@.len() == n as nat,
            recv_r1_all@.len() == n as nat,
            outgoing_all@.len() == n as nat,
            forall|t: int| 0 <= t < n as int ==> (#[trigger] r2_secrets@[t].0) == t + 1,
            forall|t: int| 0 <= t < n as int ==> (#[trigger] recv_r1_all@[t].0) == t + 1,
            forall|t: int|
                0 <= t < n as int ==> 1 <= (#[trigger] outgoing_all@[t].0) <= n as int,
            forall|t: int, w: int|
                0 <= t < n as int && 0 <= w < recv_r1_all@[t].1@.len() ==> 1 <= (
                #[trigger] recv_r1_all@[t].1@[w]).0 <= n as int,
            key_packages@.len() == k,
            forall|t: int| 0 <= t < k ==> (#[trigger] key_packages@[t].0) == t + 1,
            forall|t: int| 0 <= t < k ==> (#[trigger] key_packages@[t].1).wf(),
            k > 0 ==> pubkey is Some,
        decreases r2_secrets@.len() - k,
    {
        let my_id = r2_secrets[k].0;
        let mut mine: Vec<(u64, Round2Package)> = Vec::new();
        let mut t: usize = 0;
        while t < outgoing_all.len()
            invariant
                t <= outgoing_all@.len(),
                outgoing_all@.len() == n as nat,
                forall|u: int|
                    0 <= u < n as int ==> 1 <= (#[trigger] outgoing_all@[u].0) <= n as int,
                forall|w: int| 0 <= w < mine@.len() ==> 1 <= (#[trigger] mine@[w].0) <= n as int,
            decreases outgoing_all@.len() - t,
        {
            let sender = outgoing_all[t].0;
            if sender != my_id {
                let mut w: usize = 0;
                while w < outgoing_all[t].1.len()
                    invariant
                        t < outgoing_all@.len(),
                        w <= outgoing_all@[t as int].1@.len(),
                        sender == outgoing_all@[t as int].0,
                        outgoing_all@.len() == n as nat,
                        forall|u: int|
                            0 <= u < n as int ==> 1 <= (#[trigger] outgoing_all@[u].0)
                                <= n as int,
                        forall|u: int|
                            0 <= u < mine@.len() ==> 1 <= (#[trigger] mine@[u].0) <= n as int,
                    decreases outgoing_all@[t as int].1@.len() - w,
                {
                    if outgoing_all[t].1[w].0 == my_id {
                        let pkg = clone_round2_package(&outgoing_all[t].1[w].1);
                        mine.push((sender, pkg));
                    }
                    w += 1;
                }
            }
            t += 1;
        }
        let (kp, pkpkg) = match dkg_part3(&r2_secrets[k].1, &recv_r1_all[k].1, &mine) {
            Ok(x) => x,
            Err(e) => {
                return Err(e);
            },
        };
        key_packages.push((my_id, kp));
        if k == 0 {
            pubkey = Some(pkpkg);
        }
        k += 1;
    }
    match pubkey {
        Some(public_key_package) => {
            let out = DkgOutput { key_packages, public_key_package };
            proof {
                assert(forall|t: int|
                    0 <= t < n as int ==> output_ids(out)[t] == (#[trigger] out.key_packages@[t]).0);
                assert(output_ids(out).no_duplicates());
            }
            Ok(out)
        },
        None => Err(Error::ExternalDkg),
    }
}

} // verus!
