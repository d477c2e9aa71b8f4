//! End-to-end protocol checks against the real curve, hash and randomness:
//! proving, both verification encodings, challenge determinism and tamper
//! sensitivity.

use ark_ec::{AffineRepr, CurveGroup};
use ark_ff::{BigInteger, PrimeField, UniformRand};
use ark_secp256k1::{Affine, Fq, Fr, Projective};
use ark_std::rand::{rngs::StdRng, SeedableRng};

use sigma_compiler::challenge::derive_challenge;
use sigma_compiler::eval::{compute_constraint, evaluate};
use sigma_compiler::group::{GroupPoint, Scalar};
use sigma_compiler::model::{Relation, StatementModel, Term, Variables};
use sigma_compiler::prover::{prove, ProofTranscript};
use sigma_compiler::verify::{verify_batchable, verify_compact};
use sigma_compiler::ProofError;
use sha2::{Digest, Sha256};

fn term(m: &str, p: &str) -> Term {
    Term { multiplier_name: m.to_string(), point_name: p.to_string() }
}

fn rel(lhs: &str, terms: Vec<Term>) -> Relation {
    Relation { lhs_name: lhs.to_string(), terms }
}

fn dleq_model(label: Option<&str>) -> StatementModel {
    let vars = Variables {
        secret_var: vec!["x".to_string(), "r1".to_string(), "r2".to_string()],
        common_var: vec!["G".to_string(), "H".to_string()],
        instance_var: vec!["A".to_string(), "B".to_string()],
    };
    let rels = vec![
        rel("A", vec![term("x", "G"), term("r1", "H")]),
        rel("B", vec![term("x", "G"), term("r2", "H")]),
    ];
    StatementModel::new(vars, rels, label.map(|l| l.to_string())).unwrap()
}

fn enc_point(a: Affine) -> GroupPoint {
    GroupPoint::from_coords(
        a.x().unwrap().into_bigint().to_bytes_be(),
        a.y().unwrap().into_bigint().to_bytes_be(),
    )
    .unwrap()
}

fn dec_point(p: &GroupPoint) -> Projective {
    if p.infinity {
        Projective::from(Affine::identity())
    } else {
        Projective::from(Affine::new_unchecked(
            Fq::from_be_bytes_mod_order(&p.x),
            Fq::from_be_bytes_mod_order(&p.y),
        ))
    }
}

fn enc_scalar(f: Fr) -> Scalar {
    Scalar { bytes: f.into_bigint().to_bytes_be() }
}

fn dec_scalar(s: &Scalar) -> Fr {
    Fr::from_be_bytes_mod_order(&s.bytes)
}

struct Fixture {
    model: StatementModel,
    secrets: Vec<(String, Scalar)>,
    commons: Vec<(String, GroupPoint)>,
    g: Affine,
    h: Affine,
    x: Fr,
    r1: Fr,
    r2: Fr,
}

fn fixture(label: Option<&str>) -> Fixture {
    let mut rng = StdRng::seed_from_u64(20);
    let g = Affine::generator();
    let h = Affine::rand(&mut rng);
    let x = Fr::rand(&mut rng);
    let r1 = Fr::rand(&mut rng);
    let r2 = Fr::rand(&mut rng);
    Fixture {
        model: dleq_model(label),
        secrets: vec![
            ("x".to_string(), enc_scalar(x)),
            ("r1".to_string(), enc_scalar(r1)),
            ("r2".to_string(), enc_scalar(r2)),
        ],
        commons: vec![("G".to_string(), enc_point(g)), ("H".to_string(), enc_point(h))],
        g,
        h,
        x,
        r1,
        r2,
    }
}

fn lookup<'a, T>(m: &'a [(String, T)], k: &str) -> &'a T {
    &m.iter().find(|e| e.0 == k).unwrap().1
}

#[test]
fn prove_returns_correct_instance_points() {
    let f = fixture(None);
    let t = prove(&f.model, &f.secrets, &f.commons).unwrap();
    let a = (f.g * f.x + f.h * f.r1).into_affine();
    let b = (f.g * f.x + f.h * f.r2).into_affine();
    assert_eq!(dec_point(lookup(&t.instance_points, "A")).into_affine(), a);
    assert_eq!(dec_point(lookup(&t.instance_points, "B")).into_affine(), b);
}

#[test]
fn transcript_satisfies_verification_equation() {
    // For every relation: sum of response·point equals commitment plus
    // challenge·instance, checked here with the curve library directly.
    let f = fixture(None);
    let t = prove(&f.model, &f.secrets, &f.commons).unwrap();
    let c = dec_scalar(&t.challenge);
    for (lhs_name, terms) in [("A", [("x", f.g), ("r1", f.h)]), ("B", [("x", f.g), ("r2", f.h)])] {
        let mut sum = Projective::from(Affine::identity());
        for (resp_name, pt) in terms {
            sum += pt * dec_scalar(lookup(&t.responses, resp_name));
        }
        let rhs = dec_point(lookup(&t.commitment_points, lhs_name))
            + dec_point(lookup(&t.instance_points, lhs_name)) * c;
        assert_eq!(sum.into_affine(), rhs.into_affine());
    }
}

#[test]
fn batchable_and_compact_accept_honest_transcript() {
    let f = fixture(None);
    let t = prove(&f.model, &f.secrets, &f.commons).unwrap();
    assert_eq!(verify_batchable(&f.model, &t, &f.commons), Ok(true));
    assert_eq!(
        verify_compact(&f.model, &t.challenge, &t.responses, &t.instance_points, &f.commons),
        Ok(true)
    );
}

#[test]
fn labelled_model_proves_and_verifies() {
    let f = fixture(Some("dleq-demo-v1"));
    let t = prove(&f.model, &f.secrets, &f.commons).unwrap();
    assert_eq!(verify_batchable(&f.model, &t, &f.commons), Ok(true));
    assert_eq!(
        verify_compact(&f.model, &t.challenge, &t.responses, &t.instance_points, &f.commons),
        Ok(true)
    );
}

#[test]
fn tampered_response_fails_both_encodings() {
    // Substituting one response with an unrelated value must break the
    // batchable equation and the compact challenge comparison alike.
    let f = fixture(None);
    let t = prove(&f.model, &f.secrets, &f.commons).unwrap();
    let mut rng = StdRng::seed_from_u64(99);
    let mut tampered = ProofTranscript {
        challenge: Scalar { bytes: t.challenge.bytes.clone() },
        responses: t
            .responses
            .iter()
            .map(|(n, s)| (n.clone(), Scalar { bytes: s.bytes.clone() }))
            .collect(),
        instance_points: t
            .instance_points
            .iter()
            .map(|(n, p)| {
                (n.clone(), GroupPoint { infinity: p.infinity, x: p.x.clone(), y: p.y.clone() })
            })
            .collect(),
        commitment_points: t
            .commitment_points
            .iter()
            .map(|(n, p)| {
                (n.clone(), GroupPoint { infinity: p.infinity, x: p.x.clone(), y: p.y.clone() })
            })
            .collect(),
    };
    tampered.responses[0].1 = enc_scalar(Fr::rand(&mut rng));
    assert_eq!(verify_batchable(&f.model, &tampered, &f.commons), Ok(false));
    assert_eq!(
        verify_compact(
            &f.model,
            &tampered.challenge,
            &tampered.responses,
            &tampered.instance_points,
            &f.commons
        ),
        Ok(false)
    );
}

#[test]
fn challenge_is_deterministic_and_order_sensitive() {
    let f = fixture(None);
    let insts = vec![enc_point(f.g), enc_point(f.h)];
    let commits = vec![enc_point((f.g * f.x).into_affine()), enc_point((f.h * f.r1).into_affine())];
    let c1 = derive_challenge(&insts, &commits, &None).unwrap();
    let c2 = derive_challenge(&insts, &commits, &None).unwrap();
    assert_eq!(c1.bytes, c2.bytes);
    // Permuting two instance points changes the transcript and the output.
    let swapped = vec![enc_point(f.h), enc_point(f.g)];
    let c3 = derive_challenge(&swapped, &commits, &None).unwrap();
    assert_ne!(c1.bytes, c3.bytes);
    // The label is part of the transcript too.
    let c4 = derive_challenge(&insts, &commits, &Some("other".to_string())).unwrap();
    assert_ne!(c1.bytes, c4.bytes);
}

#[test]
fn bit_flip_in_commitment_changes_challenge() {
    let f = fixture(None);
    let insts = vec![enc_point(f.g), enc_point(f.h)];
    let commits = vec![enc_point((f.g * f.x).into_affine()), enc_point((f.h * f.r1).into_affine())];
    let base = derive_challenge(&insts, &commits, &None).unwrap();
    for byte in 0..32 {
        for bit in 0..8 {
            let mut flipped: Vec<GroupPoint> = vec![
                GroupPoint {
                    infinity: commits[0].infinity,
                    x: commits[0].x.clone(),
                    y: commits[0].y.clone(),
                },
                GroupPoint {
                    infinity: commits[1].infinity,
                    x: commits[1].x.clone(),
                    y: commits[1].y.clone(),
                },
            ];
            flipped[0].x[byte] ^= 1 << bit;
            let c = derive_challenge(&insts, &flipped, &None).unwrap();
            assert_ne!(base.bytes, c.bytes);
            flipped[0].x[byte] ^= 1 << bit;
            flipped[1].y[byte] ^= 1 << bit;
            let c2 = derive_challenge(&insts, &flipped, &None).unwrap();
            assert_ne!(base.bytes, c2.bytes);
        }
    }
}

#[test]
fn infinity_point_is_rejected_by_hasher() {
    let insts = vec![GroupPoint::identity()];
    let commits = vec![GroupPoint::identity()];
    assert_eq!(derive_challenge(&insts, &commits, &None).err(), Some(ProofError::InvalidPoint));
}

#[test]
fn missing_secret_is_reported() {
    let f = fixture(None);
    let partial: Vec<(String, Scalar)> = f
        .secrets
        .iter()
        .filter(|e| e.0 != "r2")
        .map(|(n, s)| (n.clone(), Scalar { bytes: s.bytes.clone() }))
        .collect();
    assert_eq!(
        prove(&f.model, &partial, &f.commons).err(),
        Some(ProofError::MissingVariable)
    );
    assert_eq!(
        prove(&f.model, &f.secrets, &Vec::new()).err(),
        Some(ProofError::MissingVariable)
    );
}

#[test]
fn compute_constraint_matches_curve_arithmetic() {
    let mut rng = StdRng::seed_from_u64(7);
    let g = Affine::generator();
    let k = Fr::rand(&mut rng);
    let m = Fr::rand(&mut rng);
    let h = (g * m).into_affine();
    let r = compute_constraint(vec![(enc_scalar(k), enc_point(g)), (enc_scalar(m), enc_point(h))]);
    let expected = (g * k + h * m).into_affine();
    assert_eq!(dec_point(&r).into_affine(), expected);
    // An empty term list folds to the identity point.
    let empty = compute_constraint(Vec::new());
    assert!(empty.infinity);
}

#[test]
fn evaluate_reports_missing_and_empty() {
    let f = fixture(None);
    let r = rel("A", vec![term("x", "G"), term("r1", "H")]);
    let p = evaluate(&r, &f.secrets, &f.commons).unwrap();
    let expected = (f.g * f.x + f.h * f.r1).into_affine();
    assert_eq!(dec_point(&p).into_affine(), expected);

    let unknown = rel("A", vec![term("x", "Q")]);
    assert_eq!(
        evaluate(&unknown, &f.secrets, &f.commons).err(),
        Some(ProofError::MissingVariable)
    );
    let empty = rel("A", vec![]);
    assert_eq!(
        evaluate(&empty, &f.secrets, &f.commons).err(),
        Some(ProofError::EmptyRelation)
    );
}

#[test]
fn fresh_blinds_give_fresh_commitments() {
    // Two proofs of one statement draw different blinding scalars, so the
    // commitments and challenges differ with overwhelming probability.
    let f = fixture(None);
    let t1 = prove(&f.model, &f.secrets, &f.commons).unwrap();
    let t2 = prove(&f.model, &f.secrets, &f.commons).unwrap();
    assert_ne!(t1.challenge.bytes, t2.challenge.bytes);
    assert_eq!(
        lookup(&t1.instance_points, "A").x,
        lookup(&t2.instance_points, "A").x
    );
}

#[test]
fn challenge_matches_direct_hash() {
    // The derived challenge equals the SHA-256 digest of the concatenated
    // coordinates, reduced mod the group order, computed here with the hash
    // library directly.
    let f = fixture(None);
    let inst = enc_point((f.g * f.x).into_affine());
    let commit = enc_point((f.h * f.r1).into_affine());
    let mut bytes: Vec<u8> = Vec::new();
    bytes.extend_from_slice(&inst.x);
    bytes.extend_from_slice(&inst.y);
    bytes.extend_from_slice(&commit.x);
    bytes.extend_from_slice(&commit.y);
    let expected = Fr::from_be_bytes_mod_order(&Sha256::digest(&bytes));
    let got = derive_challenge(&vec![inst], &vec![commit], &None).unwrap();
    assert_eq!(got.bytes, expected.into_bigint().to_bytes_be());

    // With a label, its UTF-8 bytes prefix the transcript.
    let mut labelled: Vec<u8> = b"tag".to_vec();
    labelled.extend_from_slice(&bytes);
    let expected2 = Fr::from_be_bytes_mod_order(&Sha256::digest(&labelled));
    let inst2 = enc_point((f.g * f.x).into_affine());
    let commit2 = enc_point((f.h * f.r1).into_affine());
    let got2 = derive_challenge(&vec![inst2], &vec![commit2], &Some("tag".to_string())).unwrap();
    assert_eq!(got2.bytes, expected2.into_bigint().to_bytes_be());
}
