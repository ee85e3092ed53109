//! Hashing, the Fiat–Shamir transcript, the DDH-equality proof, and the
//! Lagrange combiner.

use vstd::prelude::*;
use vstd::arithmetic::div_mod::*;
use vstd::arithmetic::mul::*;
use crate::curve::{
    Fr, Point, addm, be_bytes_val, compress_of, group_order, mulm, point_add, point_compress,
    point_decompress, point_eq, point_generator, point_identity, point_mul, scalar_add,
    scalar_eq, scalar_from_u64,
    scalar_invert, scalar_mul, scalar_random, scalar_reduce_bytes, scalar_sub, subm,
};
use crate::Error;
use tiny_keccak::Hasher;

verus! {

/// The 32-byte Keccak256 digest of a byte string. Named, not defined: the
/// digest is computed only by the `tiny_keccak` crate.
pub uninterp spec fn keccak256_of(data: Seq<u8>) -> Seq<u8>;

/// Relies on `tiny_keccak::Keccak::v256`: the Keccak256 digest, a 32-byte
/// function of the input bytes alone.
#[verifier::external_body]
pub fn keccak256(data: &[u8]) -> (r: [u8; 32])
    ensures
        r@ == keccak256_of(data@),
        r@.len() == 32,
{
    let mut h = tiny_keccak::Keccak::v256();
    h.update(data);
    let mut out = [0u8; 32];
    h.finalize(&mut out);
    out
}

/// The value of `hash_to_scalar_keccak`: the digest read big-endian, mod r.
pub open spec fn hash_to_scalar_spec(m: Seq<u8>) -> nat {
    be_bytes_val(keccak256_of(m)) % group_order()
}

/// Reduce a message to a scalar: Keccak256, then big-endian reduction mod r.
pub fn hash_to_scalar_keccak(data: &[u8]) -> (r: Fr)
    ensures
        r.val() == hash_to_scalar_spec(data@),
        r.wf(),
{
    let digest = keccak256(data);
    scalar_reduce_bytes(&digest)
}

/// The per-message base point `PH = hash_to_scalar(m) * G`. Its discrete
/// logarithm is public by construction; see the module notes of `curve`.
pub fn hash_to_curve_point_keccak(data: &[u8]) -> (r: Point)
    ensures
        r.dlog() == hash_to_scalar_spec(data@),
        r.wf(),
{
    let s = hash_to_scalar_keccak(data);
    let g = point_generator();
    let p = point_mul(&g, &s);
    proof {
        lemma_small_mod(s.val(), group_order());
    }
    p
}

/// The challenge derived from the ordered transcript
/// `compress(G) || compress(PH) || compress(vk) || compress(v) || compress(com1) || compress(com2)`,
/// hashed with Keccak256 and reduced mod r. The order is part of the on-wire
/// contract.
pub open spec fn challenge_spec(g: nat, ph: nat, vk: nat, v: nat, c1: nat, c2: nat) -> nat {
    be_bytes_val(
        keccak256_of(
            compress_of(g) + compress_of(ph) + compress_of(vk) + compress_of(v)
                + compress_of(c1) + compress_of(c2),
        ),
    ) % group_order()
}

/// Challenge = Keccak256(G || PH || vk || v || com1 || com2) mod r, over the
/// compressed 33-byte encodings, in exactly that order.
pub fn challenge_keccak(g: &Point, ph: &Point, vk: &Point, v: &Point, com1: &Point, com2: &Point) -> (r: Fr)
    requires
        g.wf(),
        ph.wf(),
        vk.wf(),
        v.wf(),
        com1.wf(),
        com2.wf(),
    ensures
        r.val() == challenge_spec(g.dlog(), ph.dlog(), vk.dlog(), v.dlog(), com1.dlog(), com2.dlog()),
        r.wf(),
{
    let mut buf = point_compress(g);
    let mut part = point_compress(ph);
    buf.append(&mut part);
    let mut part = point_compress(vk);
    buf.append(&mut part);
    let mut part = point_compress(v);
    buf.append(&mut part);
    let mut part = point_compress(com1);
    buf.append(&mut part);
    let mut part = point_compress(com2);
    buf.append(&mut part);
    let digest = keccak256(buf.as_slice());
    scalar_reduce_bytes(&digest)
}

/// A DDH-equality proof `(ch, rs)`: two scalars bound to the message, the
/// verifying share and the evaluation share through the transcript.
#[derive(Clone, Copy)]
pub struct Proof {
    pub ch: Fr,
    pub rs: Fr,
}

impl Proof {
    pub open spec fn wf(self) -> bool {
        self.ch.wf() && self.rs.wf()
    }
}

/// The first commitment recomputed by the verifier: `rs * G - ch * vk`,
/// in the exponent.
pub open spec fn com1_recomputed(vk: nat, ch: nat, rs: nat) -> nat {
    addm(mulm(1, rs), mulm(vk, subm(0, ch)))
}

/// The second commitment recomputed by the verifier: `rs * PH - ch * v`,
/// in the exponent.
pub open spec fn com2_recomputed(h: nat, v: nat, ch: nat, rs: nat) -> nat {
    addm(mulm(h, rs), mulm(v, subm(0, ch)))
}

/// What `verify_eq` decides, over the models: the challenge recomputed from
/// the two recomputed commitments equals the challenge of the proof.
pub open spec fn verify_spec(h: nat, vk: nat, v: nat, ch: nat, rs: nat) -> bool {
    challenge_spec(1, h, vk, v, com1_recomputed(vk, ch, rs), com2_recomputed(h, v, ch, rs)) == ch
}

proof fn lemma_mulm_one(x: nat)
    requires
        x < group_order(),
    ensures
        mulm(1, x) == x,
{
    assert(1 * x == x) by (nonlinear_arith);
    lemma_small_mod(x, group_order());
}

/// The verifier's recomputation cancels the secret: for `rs = s * c + x` and
/// a point pair `(a, a * s)` in the exponent, `a * rs - c * (a * s) == a * x`
/// in the scalar field.
proof fn lemma_commitment_recompute(a: nat, s: nat, c: nat, x: nat)
    requires
        a < group_order(),
        s < group_order(),
        c < group_order(),
        x < group_order(),
    ensures
        addm(mulm(a, addm(mulm(s, c), x)), mulm(mulm(a, s), subm(0, c))) == mulm(a, x),
{
    let m = group_order() as int;
    let ai = a as int;
    let si = s as int;
    let ci = c as int;
    let xi = x as int;
    let rs_red = addm(mulm(s, c), x) as int;
    // term1 == (a * (s * c + x)) % m
    assert(rs_red == ((si * ci) % m + xi) % m);
    lemma_mul_mod_noop_right(ai, (si * ci) % m + xi, m);
    assert((ai * rs_red) % m == (ai * ((si * ci) % m + xi)) % m);
    lemma_mul_is_distributive_add(ai, (si * ci) % m, xi);
    assert(ai * ((si * ci) % m + xi) == ai * ((si * ci) % m) + ai * xi);
    lemma_mul_mod_noop_right(ai, si * ci, m);
    assert((ai * ((si * ci) % m)) % m == (ai * (si * ci)) % m);
    lemma_add_mod_noop(ai * ((si * ci) % m), ai * xi, m);
    lemma_add_mod_noop(ai * (si * ci), ai * xi, m);
    assert((ai * ((si * ci) % m) + ai * xi) % m == (ai * (si * ci) + ai * xi) % m);
    assert(mulm(a, addm(mulm(s, c), x)) == (ai * (si * ci) + ai * xi) % m);
    // term2 == (a * s * (m - c)) % m
    let t2 = mulm(mulm(a, s), subm(0, c)) as int;
    assert(subm(0, c) == (m - ci) % m);
    lemma_mul_mod_noop_general(ai * si, m - ci, m);
    assert(t2 == ((ai * si) * (m - ci)) % m);
    // the sum telescopes to a * x plus a multiple of m
    lemma_add_mod_noop(ai * (si * ci) + ai * xi, (ai * si) * (m - ci), m);
    assert((ai * (si * ci) + ai * xi) + (ai * si) * (m - ci) == ai * xi + m * (ai * si))
        by (nonlinear_arith);
    lemma_mod_multiples_vanish(ai * si, ai * xi, m);
    assert((ai * xi + m * (ai * si)) % m == (ai * xi) % m);
    assert(addm(mulm(a, addm(mulm(s, c), x)), mulm(mulm(a, s), subm(0, c))) == (ai * xi) % m);
}

/// Completeness of the DDH-equality proof (Fiat–Shamir form): an honestly
/// produced proof always verifies. For any message base `h`, secret `s` and
/// nonce `x`, with `vk = s * G` and `v = (h * s) * G` in the exponent, the
/// challenge derived from the honest commitments `(x * G, (h * x) * G)` and
/// the response `rs = s * ch + x` satisfy the verifier's equation.
pub proof fn lemma_prove_verify_complete(h: nat, s: nat, x: nat)
    requires
        h < group_order(),
        s < group_order(),
        x < group_order(),
    ensures
        ({
            let v = mulm(h, s);
            let ch = challenge_spec(1, h, s, v, x, mulm(h, x));
            let rs = addm(mulm(s, ch), x);
            verify_spec(h, s, v, ch, rs)
        }),
{
    let m = group_order() as int;
    let v = mulm(h, s);
    let ch = challenge_spec(1, h, s, v, x, mulm(h, x));
    let rs = addm(mulm(s, ch), x);
    lemma_mod_bound(be_bytes_val(
        keccak256_of(
            compress_of(1) + compress_of(h) + compress_of(s) + compress_of(v)
                + compress_of(x) + compress_of(mulm(h, x)),
        ),
    ) as int, m);
    assert(ch < group_order());
    // com1' = rs * G - ch * vk recomputes x * G
    lemma_mulm_one(s);
    lemma_mulm_one(rs);
    assert(mulm(1, rs) == rs);
    lemma_commitment_recompute(1, s, ch, x);
    assert(addm(mulm(1, addm(mulm(s, ch), x)), mulm(mulm(1, s), subm(0, ch))) == mulm(1, x));
    lemma_mulm_one(x);
    assert(com1_recomputed(s, ch, rs) == x);
    // com2' = rs * PH - ch * v recomputes (h * x) * G
    lemma_commitment_recompute(h, s, ch, x);
    assert(addm(mulm(h, addm(mulm(s, ch), x)), mulm(mulm(h, s), subm(0, ch))) == mulm(h, x));
    assert(com2_recomputed(h, v, ch, rs) == mulm(h, x));
}

/// proveEq: produce the partial evaluation `v_i = sk_i * PH(m)` together with
/// a DDH-equality proof `(ch, rs)` under a fresh random nonce.
///
/// The evaluation share is pinned by the message and the secret alone; the
/// proof varies with the nonce, but whenever `vk_i` really is `sk_i * G`, the
/// proof is guaranteed to pass `verify_eq`.
pub fn prove_eq(msg: &[u8], vk_i: &Point, sk_i: &Fr) -> (r: (Point, Proof))
    requires
        vk_i.wf(),
        sk_i.wf(),
    ensures
        r.0.wf(),
        r.1.wf(),
        r.0.dlog() == mulm(hash_to_scalar_spec(msg@), sk_i.val()),
        vk_i.dlog() == sk_i.val() ==> verify_spec(
            hash_to_scalar_spec(msg@),
            vk_i.dlog(),
            r.0.dlog(),
            r.1.ch.val(),
            r.1.rs.val(),
        ),
{
    let g = point_generator();
    let ph = hash_to_curve_point_keccak(msg);
    let v_i = point_mul(&ph, sk_i);
    let nonce = scalar_random();
    let com1 = point_mul(&g, &nonce);
    let com2 = point_mul(&ph, &nonce);
    let ch = challenge_keccak(&g, &ph, vk_i, &v_i, &com1, &com2);
    let rs = scalar_add(&scalar_mul(sk_i, &ch), &nonce);
    proof {
        lemma_mulm_one(nonce.val());
        if vk_i.dlog() == sk_i.val() {
            lemma_prove_verify_complete(hash_to_scalar_spec(msg@), sk_i.val(), nonce.val());
        }
    }
    (v_i, Proof { ch, rs })
}

/// verifyEq: recompute the commitments as `rs * G - ch * vk` and
/// `rs * PH - ch * v`, re-derive the challenge, and compare. Returns exactly
/// what `verify_spec` states over the models; cryptographic failure is a
/// `false`, never an error.
pub fn verify_eq(msg: &[u8], vk_i: &Point, v_i: &Point, pi: &Proof) -> (r: bool)
    requires
        vk_i.wf(),
        v_i.wf(),
        pi.wf(),
    ensures
        r == verify_spec(hash_to_scalar_spec(msg@), vk_i.dlog(), v_i.dlog(), pi.ch.val(), pi.rs.val()),
{
    let g = point_generator();
    let ph = hash_to_curve_point_keccak(msg);
    let zero = scalar_from_u64(0);
    let minus_ch = scalar_sub(&zero, &pi.ch);
    let com1_p = point_add(&point_mul(&g, &pi.rs), &point_mul(vk_i, &minus_ch));
    let com2_p = point_add(&point_mul(&ph, &pi.rs), &point_mul(v_i, &minus_ch));
    let ch2 = challenge_keccak(&g, &ph, vk_i, v_i, &com1_p, &com2_p);
    scalar_eq(&ch2, &pi.ch)
}

/// The numerator of the Lagrange coefficient for index `i` over the index
/// list `ids`: the product of all `j` in `ids` with `j != i`, mod r.
pub open spec fn lag_num(ids: Seq<u64>, i: u64) -> nat
    decreases ids.len(),
{
    if ids.len() == 0 {
        1nat
    } else {
        let rest = lag_num(ids.drop_last(), i);
        if ids.last() == i {
            rest
        } else {
            mulm(rest, ids.last() as nat)
        }
    }
}

/// The denominator of the Lagrange coefficient for index `i`: the product of
/// all `j - i` for `j` in `ids` with `j != i`, mod r.
pub open spec fn lag_den(ids: Seq<u64>, i: u64) -> nat
    decreases ids.len(),
{
    if ids.len() == 0 {
        1nat
    } else {
        let rest = lag_den(ids.drop_last(), i);
        if ids.last() == i {
            rest
        } else {
            mulm(rest, subm(ids.last() as nat, i as nat))
        }
    }
}

/// The multiplicative inverse mod r, where one exists (r is prime, so for
/// every non-zero element; inverses are unique, see `lemma_inv_unique`).
pub open spec fn inv_mod(a: nat) -> nat {
    choose|x: nat| x < group_order() && mulm(a, x) == 1
}

/// The Lagrange coefficient `lambda_i(S)` evaluating the interpolation at 0.
pub open spec fn lag_coeff(ids: Seq<u64>, i: u64) -> nat {
    mulm(lag_num(ids, i), inv_mod(lag_den(ids, i)))
}

/// The combined exponent: `sum_i lambda_i(ids) * d_i` over the pairs
/// `(index, exponent)`, mod r.
pub open spec fn lag_sum(ids: Seq<u64>, pts: Seq<(u64, nat)>) -> nat
    decreases pts.len(),
{
    if pts.len() == 0 {
        0nat
    } else {
        addm(
            lag_sum(ids, pts.drop_last()),
            mulm(pts.last().1, lag_coeff(ids, pts.last().0)),
        )
    }
}

/// The indices of a list of indexed points.
pub open spec fn ids_of(pts: Seq<(u64, Point)>) -> Seq<u64> {
    pts.map_values(|p: (u64, Point)| p.0)
}

/// The models of a list of indexed points: each point by its exponent.
pub open spec fn points_model(pts: Seq<(u64, Point)>) -> Seq<(u64, nat)> {
    pts.map_values(|p: (u64, Point)| (p.0, p.1.dlog()))
}

/// Inverses mod r are unique.
proof fn lemma_inv_unique(a: nat, x: nat, y: nat)
    requires
        x < group_order(),
        y < group_order(),
        mulm(a, x) == 1,
        mulm(a, y) == 1,
    ensures
        x == y,
{
    let m = group_order() as int;
    let ai = a as int;
    let xi = x as int;
    let yi = y as int;
    lemma_small_mod(x, group_order());
    lemma_small_mod(y, group_order());
    lemma_mul_mod_noop_right(xi, ai * yi, m);
    assert((xi * ((ai * yi) % m)) % m == (xi * (ai * yi)) % m);
    assert(xi * ((ai * yi) % m) == xi * 1);
    assert(xi * (ai * yi) == (ai * xi) * yi) by (nonlinear_arith);
    lemma_mul_mod_noop_left(ai * xi, yi, m);
    assert(((ai * xi) * yi) % m == (((ai * xi) % m) * yi) % m);
    assert((((ai * xi) % m) * yi) % m == (1 * yi) % m);
}

/// A one-point instance of Lagrange interpolation at zero: for a single
/// share the coefficient is 1, so the combination is the share itself. (The
/// general interpolation identity over the prime field is not proved here;
/// the coefficient formula is pinned by `lag_coeff` and exercised at run
/// time.)
pub proof fn lemma_lagrange_single(i: u64, d: nat)
    requires
        d < group_order(),
    ensures
        lag_sum(seq![i], seq![(i, d)]) == d,
{
    let ids = seq![i];
    assert(ids.drop_last() =~= Seq::<u64>::empty());
    assert(ids.last() == i);
    assert(lag_num(Seq::<u64>::empty(), i) == 1);
    assert(lag_den(Seq::<u64>::empty(), i) == 1);
    assert(lag_num(ids, i) == 1);
    assert(lag_den(ids, i) == 1);
    assert(mulm(1, 1nat) == 1) by {
        lemma_mulm_one(1nat);
    }
    assert(exists|x: nat| x < group_order() && mulm(1, x) == 1);
    lemma_inv_unique(1nat, 1nat, inv_mod(1nat));
    assert(lag_coeff(ids, i) == mulm(1, 1nat));
    let pts = seq![(i, d)];
    assert(pts.drop_last() =~= Seq::<(u64, nat)>::empty());
    assert(pts.last() == (i, d));
    assert(lag_sum(ids, Seq::<(u64, nat)>::empty()) == 0);
    assert(lag_sum(ids, pts) == addm(0, mulm(d, lag_coeff(ids, i))));
    assert(lag_sum(ids, pts) == addm(0, mulm(d, 1nat)));
    assert(d * 1 == d) by (nonlinear_arith);
    lemma_small_mod(d, group_order());
}

/// Lagrange combination in the exponent: given indexed points
/// `(i, P_i)`, compute `sum_i lambda_i * P_i` with
/// `lambda_i = prod_{j != i} j * (j - i)^{-1}` in the scalar field. This
/// evaluates the polynomial-in-the-exponent at `x = 0`.
///
/// The result for an empty list is the identity. If some denominator product
/// vanishes mod r — impossible for distinct indices small against r, but
/// checked defensively — the round fails with `CombineDegenerate`; the
/// result is never silently substituted. Iteration order is fixed by the
/// input, and the result is a pure function of it.
pub fn lagrange_combine_points(points: &Vec<(u64, Point)>) -> (r: Result<Point, Error>)
    requires
        forall|k: int| 0 <= k < points@.len() ==> points@[k].1.wf(),
    ensures
        (r is Err) <==> (exists|k: int|
            0 <= k < points@.len() && lag_den(ids_of(points@), points@[k].0) == 0),
        r is Err ==> r == Err::<Point, Error>(Error::CombineDegenerate),
        r is Ok ==> r.unwrap().wf() && r.unwrap().dlog() == lag_sum(
            ids_of(points@),
            points_model(points@),
        ),
{
    let ghost all_ids = ids_of(points@);
    let ghost model = points_model(points@);
    let mut ids: Vec<u64> = Vec::new();
    let mut k: usize = 0;
    while k < points.len()
        invariant
            k <= points@.len(),
            ids@.len() == k,
            forall|t: int| 0 <= t < k ==> ids@[t] == points@[t].0,
        decreases points@.len() - k,
    {
        ids.push(points[k].0);
        k += 1;
    }
    proof {
        assert(ids@ =~= all_ids);
    }
    let mut acc = point_identity();
    let mut idx: usize = 0;
    while idx < points.len()
        invariant
            idx <= points@.len(),
            ids@ == all_ids,
            all_ids == ids_of(points@),
            model == points_model(points@),
            forall|t: int| 0 <= t < points@.len() ==> points@[t].1.wf(),
            acc.wf(),
            acc.dlog() == lag_sum(all_ids, model.take(idx as int)),
            forall|t: int| 0 <= t < idx ==> lag_den(all_ids, points@[t].0) != 0,
        decreases points@.len() - idx,
    {
        let i: u64 = points[idx].0;
        let mut num = scalar_from_u64(1);
        let mut den = scalar_from_u64(1);
        let mut j: usize = 0;
        while j < ids.len()
            invariant
                j <= ids@.len(),
                ids@ == all_ids,
                num.wf(),
                den.wf(),
                num.val() == lag_num(all_ids.take(j as int), i),
                den.val() == lag_den(all_ids.take(j as int), i),
            decreases ids@.len() - j,
        {
            let idj = ids[j];
            if idj != i {
                num = scalar_mul(&num, &scalar_from_u64(idj));
                den = scalar_mul(&den, &scalar_sub(&scalar_from_u64(idj), &scalar_from_u64(i)));
            }
            proof {
                assert(all_ids.take(j as int + 1).drop_last() =~= all_ids.take(j as int));
                assert(all_ids.take(j as int + 1).last() == all_ids[j as int]);
            }
            j += 1;
        }
        proof {
            assert(all_ids.take(all_ids.len() as int) =~= all_ids);
        }
        if scalar_eq(&den, &scalar_from_u64(0)) {
            proof {
                assert(lag_den(all_ids, points@[idx as int].0) == 0);
            }
            return Err(Error::CombineDegenerate);
        }
        let inv = scalar_invert(&den);
        proof {
            assert(exists|x: nat| x < group_order() && mulm(den.val(), x) == 1);
            assert(inv_mod(den.val()) < group_order() && mulm(den.val(), inv_mod(den.val())) == 1);
            lemma_inv_unique(den.val(), inv.val(), inv_mod(den.val()));
        }
        let lambda = scalar_mul(&num, &inv);
        acc = point_add(&acc, &point_mul(&points[idx].1, &lambda));
        proof {
            assert(model.take(idx as int + 1).drop_last() =~= model.take(idx as int));
            assert(model.take(idx as int + 1).last() == model[idx as int]);
            assert(model[idx as int] == (points@[idx as int].0, points@[idx as int].1.dlog()));
            assert(mulm(points@[idx as int].1.dlog(), mulm(lag_num(all_ids, i), inv.val()))
                == mulm(model[idx as int].1, lag_coeff(all_ids, model[idx as int].0)));
        }
        idx += 1;
    }
    proof {
        assert(model.take(model.len() as int) =~= model);
    }
    Ok(acc)
}

/// Round-trip of serialization: decompressing the compressed encoding of a
/// point yields the point back. This holds of every well-formed point, hence
/// of all points produced by the core.
pub fn compress_roundtrip_holds(p: &Point) -> (r: bool)
    requires
        p.wf(),
    ensures
        r,
{
    let b = point_compress(p);
    match point_decompress(b.as_slice()) {
        Some(q) => point_eq(&q, p),
        None => {
            proof {
                assert(p.dlog() < group_order() && compress_of(p.dlog()) == b@);
            }
            false
        },
    }
}

/// The lowercase hexadecimal digit for a value below 16.
pub open spec fn hex_digit(n: nat) -> char {
    if n == 0 { '0' } else if n == 1 { '1' } else if n == 2 { '2' } else if n == 3 { '3' }
    else if n == 4 { '4' } else if n == 5 { '5' } else if n == 6 { '6' } else if n == 7 { '7' }
    else if n == 8 { '8' } else if n == 9 { '9' } else if n == 10 { 'a' } else if n == 11 { 'b' }
    else if n == 12 { 'c' } else if n == 13 { 'd' } else if n == 14 { 'e' } else { 'f' }
}

/// The lowercase hexadecimal encoding of a byte string, two digits per byte.
pub open spec fn hex_of(s: Seq<u8>) -> Seq<char>
    decreases s.len(),
{
    if s.len() == 0 {
        Seq::empty()
    } else {
        hex_of(s.drop_last()) + seq![
            hex_digit((s.last() / 16) as nat),
            hex_digit((s.last() % 16) as nat),
        ]
    }
}

/// Relies on `hex::encode`: the lowercase hexadecimal encoding, two digits
/// per byte, a function of the bytes alone.
#[verifier::external_body]
fn hex_encode(data: &[u8]) -> (r: String)
    ensures
        r@ == hex_of(data@),
{
    hex::encode(data)
}

/// A `"0x"`-prefixed lowercase hex rendering of a byte string.
fn hex_with_prefix(data: &[u8]) -> (r: String)
    ensures
        r@ == seq!['0', 'x'] + hex_of(data@),
{
    proof {
        reveal_strlit("0x");
    }
    let mut s = String::from_str("0x");
    let h = hex_encode(data);
    s.append(h.as_str());
    proof {
        assert(s@ =~= seq!['0', 'x'] + hex_of(data@));
    }
    s
}

/// The verification payload for an on-chain consumer: each field a
/// `"0x"`-prefixed lowercase hex string.
pub struct FrostVerificationInput {
    pub message_hash: String,
    pub signature: String,
    pub expected_signer: String,
}

/// Build the verification payload from a 64-byte signature encoding, the
/// 65-byte uncompressed public-key encoding, and the message:
/// `message_hash` is Keccak256 of the message, `expected_signer` the
/// rightmost 20 bytes of Keccak256 over the public-key encoding without its
/// leading byte (an Ethereum-style address).
pub fn export_verification_input(sig_bytes: &[u8], pubkey_uncompressed: &[u8], msg: &[u8]) -> (r:
    FrostVerificationInput)
    requires
        sig_bytes@.len() == 64,
        pubkey_uncompressed@.len() == 65,
    ensures
        r.message_hash@ == seq!['0', 'x'] + hex_of(keccak256_of(msg@)),
        r.signature@ == seq!['0', 'x'] + hex_of(sig_bytes@),
        r.expected_signer@ == seq!['0', 'x'] + hex_of(
            keccak256_of(pubkey_uncompressed@.skip(1)).skip(12),
        ),
{
    let msg_hash = keccak256(msg);
    let mut body: Vec<u8> = Vec::new();
    let mut i: usize = 1;
    while i < pubkey_uncompressed.len()
        invariant
            1 <= i <= 65,
            pubkey_uncompressed@.len() == 65,
            body@ == pubkey_uncompressed@.subrange(1, i as int),
        decreases 65 - i,
    {
        body.push(pubkey_uncompressed[i]);
        i += 1;
    }
    proof {
        assert(body@ =~= pubkey_uncompressed@.skip(1));
    }
    let pk_hash = keccak256(body.as_slice());
    let mut addr: Vec<u8> = Vec::new();
    let mut j: usize = 12;
    while j < 32
        invariant
            12 <= j <= 32,
            pk_hash@ == keccak256_of(pubkey_uncompressed@.skip(1)),
            addr@ == pk_hash@.subrange(12, j as int),
        decreases 32 - j,
    {
        addr.push(pk_hash[j]);
        j += 1;
    }
    proof {
        assert(addr@ =~= keccak256_of(pubkey_uncompressed@.skip(1)).skip(12));
    }
    FrostVerificationInput {
        message_hash: hex_with_prefix(msg_hash.as_slice()),
        signature: hex_with_prefix(sig_bytes),
        expected_signer: hex_with_prefix(addr.as_slice()),
    }
}

} // verus!
