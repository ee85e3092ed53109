use frostlab::curve::{
    point_compress, point_decompress, point_eq, point_generator, point_identity, point_mul,
    scalar_add, scalar_eq, scalar_from_u64, scalar_random, scalar_to_bytes,
};
use frostlab::dkg::{run_dealerless_dkg, DkgConfig};
use frostlab::ddh_dvrf::run_ddh_dvrf_once;
use frostlab::frost_ext::{frost_sign, frost_verify};
use frostlab::utils::{
    challenge_keccak, compress_roundtrip_holds, export_verification_input, keccak256,
    lagrange_combine_points, prove_eq, verify_eq, Proof,
};
use frostlab::Error;
use sha3::Digest;

#[test]
fn subset_independence() {
    // n = 3, t = 2: the combined value does not depend on which qualifying
    // subset evaluates.
    let cfg = DkgConfig::new(3, 2).unwrap();
    let out = run_dealerless_dkg(cfg).unwrap();
    let msg = b"hello FROST";

    let s1: Vec<u64> = vec![1, 2];
    let s2: Vec<u64> = vec![2, 3];
    let (v1, _) =
        run_ddh_dvrf_once(msg, &out.key_packages, &out.public_key_package, &s1, 2).unwrap();
    let (v2, _) =
        run_ddh_dvrf_once(msg, &out.key_packages, &out.public_key_package, &s2, 2).unwrap();
    assert!(point_eq(&v1, &v2));

    // Determinism: the same subset gives the same value again.
    let (v3, _) =
        run_ddh_dvrf_once(msg, &out.key_packages, &out.public_key_package, &s1, 2).unwrap();
    assert!(point_eq(&v1, &v3));
}

#[test]
fn proof_tamper_rejected() {
    let sk = scalar_random();
    let vk = point_mul(&point_generator(), &sk);
    let msg = b"tamper probe";
    let (v, pi) = prove_eq(msg, &vk, &sk);
    assert!(verify_eq(msg, &vk, &v, &pi));

    // rs -> rs + 1
    let bad_rs = Proof { ch: pi.ch, rs: scalar_add(&pi.rs, &scalar_from_u64(1)) };
    assert!(!verify_eq(msg, &vk, &v, &bad_rs));

    // ch -> ch + 1
    let bad_ch = Proof { ch: scalar_add(&pi.ch, &scalar_from_u64(1)), rs: pi.rs };
    assert!(!verify_eq(msg, &vk, &v, &bad_ch));

    // another message
    assert!(!verify_eq(b"tamper probf", &vk, &v, &pi));

    // v shifted by G
    let bad_v = point_mul(&point_generator(), &scalar_add(&sk, &scalar_from_u64(1)));
    assert!(!verify_eq(msg, &vk, &bad_v, &pi));

    // vk shifted by G
    let bad_vk = point_mul(&point_generator(), &scalar_add(&sk, &scalar_from_u64(1)));
    assert!(!verify_eq(msg, &bad_vk, &v, &pi));
}

#[test]
fn transcript_order_sensitivity() {
    // Swapping vk and v in the transcript yields a different challenge: the
    // transcript is position-bound.
    let g = point_generator();
    let ph = point_mul(&g, &scalar_from_u64(11));
    let vk = point_mul(&g, &scalar_from_u64(7));
    let v = point_mul(&g, &scalar_from_u64(9));
    let c1 = point_mul(&g, &scalar_from_u64(3));
    let c2 = point_mul(&g, &scalar_from_u64(4));
    let canonical = challenge_keccak(&g, &ph, &vk, &v, &c1, &c2);
    let swapped = challenge_keccak(&g, &ph, &v, &vk, &c1, &c2);
    assert!(!scalar_eq(&canonical, &swapped));
}

#[test]
fn config_validation() {
    assert_eq!(DkgConfig::new(1, 1).unwrap_err(), Error::InvalidConfig);
    assert_eq!(DkgConfig::new(5, 1).unwrap_err(), Error::InvalidConfig);
    assert_eq!(DkgConfig::new(1, 5).unwrap_err(), Error::InvalidConfig);
    assert_eq!(DkgConfig::new(2, 3).unwrap_err(), Error::InvalidConfig);
    let cfg = DkgConfig::new(3, 2).unwrap();
    assert_eq!(cfg.max_signers, 3);
    assert_eq!(cfg.min_signers, 2);
    assert!(matches!(
        run_dealerless_dkg(DkgConfig { max_signers: 1, min_signers: 1 }),
        Err(Error::InvalidConfig)
    ));
}

#[test]
fn no_redundancy_threshold() {
    // min_signers == max_signers == n succeeds.
    let cfg = DkgConfig::new(3, 3).unwrap();
    let out = run_dealerless_dkg(cfg).unwrap();
    let signers: Vec<u64> = vec![1, 2, 3];
    let r = run_ddh_dvrf_once(b"full house", &out.key_packages, &out.public_key_package, &signers, 3);
    assert!(r.is_ok());
    let sig = frost_sign(b"full house", &out, &signers).unwrap();
    assert!(frost_verify(b"full house", &sig, &out).unwrap());
}

#[test]
fn subset_validation() {
    let cfg = DkgConfig::new(3, 2).unwrap();
    let out = run_dealerless_dkg(cfg).unwrap();
    let msg = b"subsets";

    // |S| = t - 1: the caller-facing validation refuses it.
    let too_few: Vec<u64> = vec![1];
    assert!(matches!(
        run_ddh_dvrf_once(msg, &out.key_packages, &out.public_key_package, &too_few, 2),
        Err(Error::InvalidSubset)
    ));

    // duplicates are refused
    let dup: Vec<u64> = vec![1, 1];
    assert!(matches!(
        run_ddh_dvrf_once(msg, &out.key_packages, &out.public_key_package, &dup, 2),
        Err(Error::InvalidSubset)
    ));

    // a stranger is refused
    let stranger: Vec<u64> = vec![1, 9];
    assert!(matches!(
        run_ddh_dvrf_once(msg, &out.key_packages, &out.public_key_package, &stranger, 2),
        Err(Error::InvalidSubset)
    ));
    assert!(matches!(frost_sign(msg, &out, &stranger), Err(Error::InvalidSubset)));

    // |S| = t succeeds
    let exact: Vec<u64> = vec![1, 3];
    assert!(run_ddh_dvrf_once(msg, &out.key_packages, &out.public_key_package, &exact, 2).is_ok());
}

#[test]
fn compression_roundtrip() {
    let g = point_generator();
    assert!(compress_roundtrip_holds(&g));
    assert!(compress_roundtrip_holds(&point_identity()));
    assert!(compress_roundtrip_holds(&point_mul(&g, &scalar_random())));

    // The generator's canonical SEC1 compressed encoding.
    assert_eq!(
        hex::encode(point_compress(&g)),
        "0279be667ef9dcbbac55a06295ce870b07029bfcdb2dce28d959f2815b16f81798"
    );

    // 33 bytes that encode no point decode to nothing.
    let junk = [0xffu8; 33];
    assert!(point_decompress(&junk).is_none());

    // A non-canonical 33-byte encoding of a real point — the generator's x
    // coordinate under a tag other than 02/03 — is rejected, not decoded.
    let canonical = point_compress(&g);
    let mut compact = [0u8; 33];
    compact.copy_from_slice(&canonical);
    compact[0] = 0x05;
    assert!(point_decompress(&compact).is_none());
}

#[test]
fn keccak_matches_reference() {
    // Known vectors, and a cross-check against an independent Keccak256.
    assert_eq!(
        hex::encode(keccak256(b"")),
        "c5d2460186f7233c927e7db2dcc703c0e500b653ca82273b7bfad8045d85a470"
    );
    assert_eq!(
        hex::encode(keccak256(b"hello world")),
        "47173285a8d7341e5e972fc677286384f802f8ef42a5ec5f03bbfa254cb01fad"
    );
    let ours = keccak256(b"dvrfddhhello");
    let theirs = sha3::Keccak256::digest(b"dvrfddhhello");
    assert_eq!(ours.to_vec(), theirs.to_vec());
}

#[test]
fn scalar_encoding() {
    let s = scalar_from_u64(258);
    let b = scalar_to_bytes(&s);
    assert_eq!(b.len(), 32);
    assert_eq!(b[30], 1);
    assert_eq!(b[31], 2);
    assert!(b[..30].iter().all(|x| *x == 0));
}

#[test]
fn lagrange_empty_and_constant() {
    // The empty list combines to the identity.
    let empty: Vec<(u64, frostlab::curve::Point)> = Vec::new();
    let v = lagrange_combine_points(&empty).unwrap();
    assert!(point_eq(&v, &point_identity()));

    // A single share (i, G*c) interpolates to G*c... times lambda = i/(i) — for
    // one point lambda_1 = 1, so the value itself comes back.
    let g = point_generator();
    let one: Vec<(u64, frostlab::curve::Point)> = vec![(4, point_mul(&g, &scalar_from_u64(42)))];
    let v1 = lagrange_combine_points(&one).unwrap();
    assert!(point_eq(&v1, &point_mul(&g, &scalar_from_u64(42))));
}

#[test]
fn verification_payload() {
    let sig = [0xabu8; 64];
    let mut pubkey = [0u8; 65];
    pubkey[0] = 0x04;
    for (i, b) in pubkey.iter_mut().enumerate().skip(1) {
        *b = i as u8;
    }
    let msg = b"payload";
    let out = export_verification_input(&sig, &pubkey, msg);

    let expect_hash = format!("0x{}", hex::encode(sha3::Keccak256::digest(msg)));
    assert_eq!(out.message_hash, expect_hash);

    assert_eq!(out.signature, format!("0x{}", hex::encode(sig)));

    let pk_hash = sha3::Keccak256::digest(&pubkey[1..]);
    let expect_signer = format!("0x{}", hex::encode(&pk_hash[12..]));
    assert_eq!(out.expected_signer, expect_signer);
    assert_eq!(out.expected_signer.len(), 42);
}

#[test]
fn all_ids_sorted() {
    let cfg = DkgConfig::new(4, 2).unwrap();
    let out = run_dealerless_dkg(cfg).unwrap();
    assert_eq!(out.all_ids(), vec![1, 2, 3, 4]);
}

#[test]
fn identifier_projection() {
    // Identifiers allocated as small integers project to themselves.
    let id = frostlab::dkg::identifier_from_u16(7).unwrap();
    assert_eq!(frostlab::ddh_dvrf::id_as_u64(&id), 7);
    let id2 = frostlab::dkg::identifier_from_u16(65535).unwrap();
    assert_eq!(frostlab::ddh_dvrf::id_as_u64(&id2), 65535);
}

#[test]
fn unknown_identifier_share() {
    // A participant list that names an index the public key package has no
    // verifying share for: the lookup fails, not the validation.
    let cfg = DkgConfig::new(3, 2).unwrap();
    let out = run_dealerless_dkg(cfg).unwrap();
    let mut packages = out.key_packages;
    let (_, kp) = packages.pop().unwrap();
    packages.push((9, kp));
    let signers: Vec<u64> = vec![1, 9];
    assert!(matches!(
        run_ddh_dvrf_once(b"ghost", &packages, &out.public_key_package, &signers, 2),
        Err(Error::UnknownIdentifier)
    ));
}

#[test]
fn mismatched_share_rejected() {
    // Swap two participants' key packages: each secret no longer matches its
    // verifying share, and the round's self-check refuses the proof.
    let cfg = DkgConfig::new(3, 2).unwrap();
    let out = run_dealerless_dkg(cfg).unwrap();
    let mut packages = out.key_packages;
    let (idx2, kp2) = packages.pop().unwrap();
    let (idx1, kp1) = packages.pop().unwrap();
    packages.push((idx1, kp2));
    packages.push((idx2, kp1));
    let signers: Vec<u64> = vec![idx1, idx2];
    assert!(matches!(
        run_ddh_dvrf_once(b"swapped", &packages, &out.public_key_package, &signers, 2),
        Err(Error::ProofRejected(_))
    ));
}

#[test]
fn frost_below_threshold_fails_externally() {
    // FROST's own signing refuses fewer commitments than the threshold.
    let cfg = DkgConfig::new(3, 2).unwrap();
    let out = run_dealerless_dkg(cfg).unwrap();
    let signers: Vec<u64> = vec![1];
    assert!(matches!(frost_sign(b"short", &out, &signers), Err(Error::ExternalFrost)));
}
