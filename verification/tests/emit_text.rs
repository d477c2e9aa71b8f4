//! Exact-text checks of the code emitter.

use sigma_compiler::emit::{
    generate_constraint_code, generate_template_header, template_base,
    template_generator_batchable, template_generator_compact, EmitError, ProofType,
};
use sigma_compiler::group::{GroupPoint, Scalar};
use sigma_compiler::model::{Term, Variables};
use sigma_compiler::prover::ProofTranscript;

fn term(m: &str, p: &str) -> Term {
    Term { multiplier_name: m.to_string(), point_name: p.to_string() }
}

fn dleq_vars() -> Variables {
    Variables {
        secret_var: vec!["x".to_string(), "r1".to_string(), "r2".to_string()],
        common_var: vec!["G".to_string(), "H".to_string()],
        instance_var: vec!["A".to_string(), "B".to_string()],
    }
}

#[test]
fn constraint_code_batchable_two_terms() {
    let code = generate_constraint_code(
        vec![term("x", "G"), term("r1", "H")],
        "A".to_string(),
        ProofType::Batchable,
    );
    let expected = "    let A_lhs: Gej = jet::scale(x, G);\n\
                    \x20   let A_lhs: Gej = jet::gej_add(A_lhs, jet::scale(r1, H));\n\
                    \n\
                    \x20   let A_rhs: Gej = jet::scale(challenge, A);\n\
                    \x20   let A_rhs: Gej = jet::gej_add(A_r, A_rhs);\n\
                    \n\
                    \x20   assert!(jet::gej_equiv(A_lhs, A_rhs));\n";
    assert_eq!(code, expected);
}

#[test]
fn constraint_code_compact_single_term_omits_accumulation() {
    let code = generate_constraint_code(vec![term("x", "B")], "B".to_string(), ProofType::Compact);
    let expected = "    let B_lhs: Gej = jet::scale(x, B);\n\
                    \n\
                    \x20   let B_rhs: Gej = jet::scale(challenge, B);\n\
                    \x20   let B_rhs: Gej = jet::negate(B_rhs);\n\
                    \n\
                    \x20   let B_r: Gej = jet::gej_add(B_lhs, B_rhs);\n";
    assert_eq!(code, expected);
    // One term: a single scalar multiplication seeds the accumulator and no
    // accumulation line is emitted.
    assert!(!code.contains("gej_add(B_lhs, jet::scale"));
    assert_eq!(code.matches("B_lhs: Gej =").count(), 1);
}

#[test]
fn constraint_code_batchable_single_term_omits_accumulation() {
    let code = generate_constraint_code(
        vec![term("x", "A")],
        "A".to_string(),
        ProofType::Batchable,
    );
    assert!(!code.contains("gej_add(A_lhs, jet::scale"));
    assert!(code.contains("assert!(jet::gej_equiv(A_lhs, A_rhs));"));
}

#[test]
fn constraint_code_empty_terms_renders_nothing() {
    let code = generate_constraint_code(Vec::new(), "A".to_string(), ProofType::Batchable);
    assert_eq!(code, "");
}

#[test]
fn template_base_text() {
    let code = template_base(&dleq_vars());
    assert!(code.contains("type Instances = (Gej, Gej);"));
    assert!(code.contains("type Response = (Scalar, Scalar, Scalar);"));
    assert!(code.contains("type Public = (Gej, Gej);"));
    assert!(code.contains("fn sha_256_add_point(ctx: Ctx8, point: Gej) -> Ctx8 {"));
    assert!(code.contains("let (A, B): Instances = instance;"));
    assert!(code.contains("let (A_r, B_r): Instances = commitments;"));
    assert!(code.contains("let ctx: Ctx8 = sha_256_add_point(ctx, A);"));
    assert!(code.contains("let ctx: Ctx8 = sha_256_add_point(ctx, A_r);"));
    assert!(code.contains("let ctx: Ctx8 = sha_256_add_point(ctx, B_r);"));
    assert!(code.contains("jet::scalar_normalize(jet::sha_256_ctx_8_finalize(ctx))"));
}

#[test]
fn template_batchable_text() {
    let constraints = vec![
        (vec![term("x", "G"), term("r1", "H")], "A".to_string()),
        (vec![term("x", "G"), term("r2", "H")], "B".to_string()),
    ];
    let code = template_generator_batchable(dleq_vars(), constraints);
    assert!(code.contains(
        "fn verify_batchable(public_vars: Public, response: Response, instance: Instances, commitments: Instances) {"
    ));
    assert!(code.contains("let (G, H): Public = public_vars;"));
    assert!(code.contains("let (x, r1, r2): Response = response;"));
    assert!(code.contains("let challenge: Scalar = compute_challenge(instance, commitments);"));
    assert!(code.contains("let A_lhs: Gej = jet::scale(x, G);"));
    assert!(code.contains("let B_lhs: Gej = jet::gej_add(B_lhs, jet::scale(r2, H));"));
    assert!(code.contains("let public_vars: Public = (param::G, param::H);"));
    assert!(code.contains("let response: Response = (witness::x, witness::r1, witness::r2);"));
    assert!(code.contains("let instance: Instances = (witness::A, witness::B);"));
    assert!(code.contains("let commitments: Instances = (witness::A_r, witness::B_r);"));
    assert!(code.contains("verify_batchable(public_vars, response, instance, commitments);"));
}

#[test]
fn template_compact_text() {
    let constraints = vec![
        (vec![term("x", "G"), term("r1", "H")], "A".to_string()),
        (vec![term("x", "G"), term("r2", "H")], "B".to_string()),
    ];
    let code = template_generator_compact(dleq_vars(), constraints);
    assert!(code.contains(
        "fn verify_compact(public_vars: Public, response: Response, instance: Instances, challenge: Scalar) {"
    ));
    assert!(code.contains("let A_rhs: Gej = jet::negate(A_rhs);"));
    assert!(code.contains("let A_r: Gej = jet::gej_add(A_lhs, A_rhs);"));
    assert!(code.contains("let commitments: Instances = (A_r, B_r);"));
    assert!(code.contains(
        "let computed_challenge: Scalar = compute_challenge(instance, commitments);"
    ));
    assert!(code.contains("assert!(jet::eq_256(challenge, computed_challenge));"));
    assert!(code.contains("verify_compact(public_vars, response, instance, witness::challenge);"));
}

fn scalar_from_byte(last: u8) -> Scalar {
    let mut bytes = vec![0u8; 32];
    bytes[31] = last;
    Scalar { bytes }
}

fn point_from_bytes(xlast: u8, ylast: u8) -> GroupPoint {
    let mut x = vec![0u8; 32];
    let mut y = vec![0u8; 32];
    x[31] = xlast;
    y[31] = ylast;
    GroupPoint::from_coords(x, y).unwrap()
}

#[test]
fn header_text_and_hex() {
    let vars = Variables {
        secret_var: vec!["x".to_string()],
        common_var: vec!["G".to_string()],
        instance_var: vec!["A".to_string()],
    };
    let transcript = ProofTranscript {
        challenge: scalar_from_byte(0xab),
        responses: vec![("x".to_string(), scalar_from_byte(0x07))],
        instance_points: vec![("A".to_string(), point_from_bytes(1, 2))],
        commitment_points: vec![("A".to_string(), point_from_bytes(3, 4))],
    };
    let commons = vec![("G".to_string(), point_from_bytes(5, 6))];
    let code = generate_template_header(&vars, &transcript, &commons).unwrap();
    let zeros = "00".repeat(31);
    assert!(code.starts_with("mod witness {\n"));
    assert!(code.contains(&format!("    const challenge: Scalar = 0x{zeros}ab;\n")));
    assert!(code.contains(&format!("    const x: Scalar = 0x{zeros}07;\n")));
    assert!(code.contains(&format!("    const A: Gej = ((0x{zeros}01, 0x{zeros}02), 1);\n")));
    assert!(code.contains(&format!("    const A_r: Gej = ((0x{zeros}03, 0x{zeros}04), 1);\n")));
    assert!(code.contains("mod param {\n"));
    assert!(code.contains(&format!("    const G: Gej = ((0x{zeros}05, 0x{zeros}06), 1);\n")));
    assert!(code.ends_with("}\n"));
}

#[test]
fn header_arity_mismatch() {
    let vars = Variables {
        secret_var: vec!["x".to_string()],
        common_var: vec!["G".to_string()],
        instance_var: vec!["A".to_string()],
    };
    // Response named differently from the declared secret variable.
    let transcript = ProofTranscript {
        challenge: scalar_from_byte(1),
        responses: vec![("y".to_string(), scalar_from_byte(2))],
        instance_points: vec![("A".to_string(), point_from_bytes(1, 2))],
        commitment_points: vec![("A".to_string(), point_from_bytes(3, 4))],
    };
    let commons = vec![("G".to_string(), point_from_bytes(5, 6))];
    assert_eq!(
        generate_template_header(&vars, &transcript, &commons),
        Err(EmitError::ArityMismatch)
    );
    // A missing common parameter is an arity mismatch as well.
    let transcript2 = ProofTranscript {
        challenge: scalar_from_byte(1),
        responses: vec![("x".to_string(), scalar_from_byte(2))],
        instance_points: vec![("A".to_string(), point_from_bytes(1, 2))],
        commitment_points: vec![("A".to_string(), point_from_bytes(3, 4))],
    };
    assert_eq!(
        generate_template_header(&vars, &transcript2, &Vec::new()),
        Err(EmitError::ArityMismatch)
    );
}

#[test]
fn header_renders_infinity_flag() {
    let vars = Variables {
        secret_var: vec![],
        common_var: vec!["G".to_string()],
        instance_var: vec![],
    };
    let transcript = ProofTranscript {
        challenge: scalar_from_byte(1),
        responses: vec![],
        instance_points: vec![],
        commitment_points: vec![],
    };
    let commons = vec![("G".to_string(), GroupPoint::identity())];
    let code = generate_template_header(&vars, &transcript, &commons).unwrap();
    let zeros = "00".repeat(32);
    assert!(code.contains(&format!("    const G: Gej = ((0x{zeros}, 0x{zeros}), 0);\n")));
}
