#![allow(non_snake_case)]

use frostlab::curve::{point_eq, point_generator, point_mul, scalar_from_u64, scalar_random, scalar_to_bytes};
use frostlab::dkg::{run_dealerless_dkg, DkgConfig};
use frostlab::ddh_dvrf::run_ddh_dvrf_once;
use frostlab::frost_ext::{frost_sign, frost_verify};
use frostlab::utils::{
    hash_to_curve_point_keccak, hash_to_scalar_keccak, lagrange_combine_points, prove_eq,
    verify_eq,
};

#[test]
fn test_dkg() {
    let cfg = DkgConfig::new(3, 2).unwrap();
    let out = run_dealerless_dkg(cfg).unwrap();
    println!("Group verifying key:\n{:?}", out.all_ids());
    println!("DKG module resolved and ran ✅");
}

#[test]
fn test_frost_sign_verify() {
    let cfg = DkgConfig::new(5, 3).unwrap();
    let out = run_dealerless_dkg(cfg).unwrap();
    let all_ids = out.all_ids();
    let signers: Vec<u64> = all_ids[..cfg.min_signers as usize].to_vec();

    let msg = b"attestation";

    let sig = frost_sign(msg, &out, &signers).unwrap();
    let ok = frost_verify(msg, &sig, &out).unwrap();
    println!("FROST signature valid: {}", ok);
    assert!(ok);
}

#[test]
fn test_lagrange_combine_points() {
    // f(x) = 3x + 5  =>  f(0) = 5
    let shares: [(u64, u64); 3] = [(1, 8), (2, 11), (3, 14)];

    // v_i = G * f(i)
    let g = point_generator();
    let points: Vec<(u64, frostlab::curve::Point)> = shares
        .iter()
        .map(|(i, yi)| (*i, point_mul(&g, &scalar_from_u64(*yi))))
        .collect();

    // Lagrange combine
    let v = lagrange_combine_points(&points).unwrap();

    // Expected: G * 5
    let expected = point_mul(&g, &scalar_from_u64(5));

    assert!(point_eq(&v, &expected), "Lagrange combine result is incorrect");

    println!(
        "v (compressed):      0x{}",
        hex::encode(frostlab::curve::point_compress(&v))
    );
    println!(
        "G*5 (compressed):    0x{}",
        hex::encode(frostlab::curve::point_compress(&expected))
    );
}

#[test]
fn test_hash_to_map() {
    let msg = b"hello world";

    let s = hash_to_scalar_keccak(msg);
    let p = hash_to_curve_point_keccak(msg);

    println!("Scalar mod r: {:?}", scalar_to_bytes(&s));
    println!(
        "Curve point compressed: 0x{}",
        hex::encode(frostlab::curve::point_compress(&p))
    );
}

#[test]
fn test_prove_and_verify_EQ() {
    // as if from a DKG: sk_i and vk_i = G * sk_i
    let sk_i = scalar_random();
    let vk_i = point_mul(&point_generator(), &sk_i);

    let msg = b"hello FROST";

    let (v_i, proof) = prove_eq(msg, &vk_i, &sk_i);
    let ok = verify_eq(msg, &vk_i, &v_i, &proof);

    println!("verifyEq: {}", ok); // true
}

#[test]
fn dvrf_end_to_end_with_frost() {
    // n = 5, t = 4 over "dvrfddhhello"; every per-signer proof is
    // self-checked inside the round, and the combined value comes back.
    let cfg = DkgConfig::new(5, 4).unwrap();
    let out = run_dealerless_dkg(cfg).unwrap();
    let all_ids = out.all_ids();
    let signers: Vec<u64> = all_ids[..4].to_vec();

    let (v, shares) = run_ddh_dvrf_once(
        b"dvrfddhhello",
        &out.key_packages,
        &out.public_key_package,
        &signers,
        cfg.min_signers,
    )
    .unwrap();
    assert_eq!(shares.len(), 4);
    let ids: Vec<u64> = shares.iter().map(|p| p.0).collect();
    assert_eq!(ids, signers);
    // V is a real point; its encoding round-trips.
    assert!(frostlab::utils::compress_roundtrip_holds(&v));

    // FROST sign/verify over the same subset.
    let sig = frost_sign(b"attestation", &out, &signers).unwrap();
    assert!(frost_verify(b"attestation", &sig, &out).unwrap());
}
