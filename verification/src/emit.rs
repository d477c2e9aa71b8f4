//! Rendering of the verifier programs: the constant block, the shared
//! prelude, and the two encodings. One canonical convention throughout: a
//! relation's accumulator keeps the running sum on the left of each
//! addition, commitment symbols carry an `_r` suffix, and the compact
//! encoding derives each commitment as `lhs - challenge·instance` before
//! recomputing the challenge.

use vstd::prelude::*;
use vstd::string::StringExecFns;

use crate::group::{GroupPoint, PointVal};
use crate::eval::{lookup_point, spec_lookup};
use crate::model::{Term, TermV, Variables, VariablesV};
use crate::prover::{covers, ProofTranscript, TranscriptV};

verus! {

/// Which verifier encoding a constraint is rendered for.
#[derive(Clone, Copy)]
pub enum ProofType {
    Compact,
    Batchable,
}

/// The rendered call multiplying a response symbol onto a point symbol.
pub open spec fn scale_call(m: Seq<char>, p: Seq<char>) -> Seq<char> {
    "jet::scale("@ + m + ", "@ + p + ")"@
}

/// The line seeding a relation's accumulator with its first term.
pub open spec fn seed_line(name: Seq<char>, t: TermV) -> Seq<char> {
    "    let "@ + name + "_lhs: Gej = "@ + scale_call(t.multiplier, t.point) + ";\n"@
}

/// The line adding one further term onto the accumulator.
pub open spec fn accumulate_line(name: Seq<char>, t: TermV) -> Seq<char> {
    "    let "@ + name + "_lhs: Gej = jet::gej_add("@ + name + "_lhs, "@ + scale_call(
        t.multiplier,
        t.point,
    ) + ");\n"@
}

/// The accumulator lines for the first `n` terms: the first seeds, each
/// later one accumulates.
pub open spec fn lhs_lines(name: Seq<char>, terms: Seq<TermV>, n: int) -> Seq<char>
    decreases n,
{
    if n <= 1 {
        seed_line(name, terms[0])
    } else {
        lhs_lines(name, terms, n - 1) + accumulate_line(name, terms[n - 1])
    }
}

/// The batchable ending: recompute the right-hand side from the commitment
/// and the challenge, and assert equality.
pub open spec fn batchable_tail(name: Seq<char>) -> Seq<char> {
    "\n    let "@ + name + "_rhs: Gej = jet::scale(challenge, "@ + name + ");\n    let "@ + name
        + "_rhs: Gej = jet::gej_add("@ + name + "_r, "@ + name
        + "_rhs);\n\n    assert!(jet::gej_equiv("@ + name + "_lhs, "@ + name + "_rhs));\n"@
}

/// The compact ending: derive the commitment as lhs - challenge·instance.
pub open spec fn compact_tail(name: Seq<char>) -> Seq<char> {
    "\n    let "@ + name + "_rhs: Gej = jet::scale(challenge, "@ + name + ");\n    let "@ + name
        + "_rhs: Gej = jet::negate("@ + name + "_rhs);\n\n    let "@ + name
        + "_r: Gej = jet::gej_add("@ + name + "_lhs, "@ + name + "_rhs);\n"@
}

/// The whole rendering of one relation: accumulator lines, then the
/// encoding's ending; empty input renders nothing.
pub open spec fn constraint_code(terms: Seq<TermV>, name: Seq<char>, pt: ProofType) -> Seq<char> {
    if terms.len() == 0 {
        Seq::empty()
    } else {
        lhs_lines(name, terms, terms.len() as int) + match pt {
            ProofType::Batchable => batchable_tail(name),
            ProofType::Compact => compact_tail(name),
        }
    }
}

/// A relation with exactly one term reduces to a single scalar
/// multiplication: the rendered code is the seeding line followed by the
/// encoding's ending, with no accumulation line.
pub proof fn lemma_single_term_no_accumulation(terms: Seq<TermV>, name: Seq<char>, pt: ProofType)
    requires
        terms.len() == 1,
    ensures
        constraint_code(terms, name, pt) == seed_line(name, terms[0]) + match pt {
            ProofType::Batchable => batchable_tail(name),
            ProofType::Compact => compact_tail(name),
        },
{
}

/// Renders one relation's verification code for the chosen encoding.
#[verifier::rlimit(60)]
pub fn generate_constraint_code(terms: Vec<Term>, point_name: String, proof_type: ProofType) -> (r:
    String)
    ensures
        r@ =~= constraint_code(terms.deep_view(), point_name@, proof_type),
{
    let ghost tv = terms.deep_view();
    let mut code = String::new();
    if terms.len() == 0 {
        return code;
    }
    let name = point_name.as_str();
    code.append("    let ");
    code.append(name);
    code.append("_lhs: Gej = ");
    code.append("jet::scale(");
    code.append(terms[0].multiplier_name.as_str());
    code.append(", ");
    code.append(terms[0].point_name.as_str());
    code.append(")");
    code.append(";\n");
    proof {
        assert(tv[0].multiplier == terms@[0].multiplier_name@);
        assert(code@ =~= seed_line(point_name@, tv[0]));
        assert(code@ =~= lhs_lines(point_name@, tv, 1));
    }
    let mut i: usize = 1;
    while i < terms.len()
        invariant
            1 <= i <= tv.len(),
            tv =~= terms.deep_view(),
            code@ =~= lhs_lines(point_name@, tv, i as int),
            name@ == point_name@,
        decreases tv.len() - i,
    {
        code.append("    let ");
        code.append(name);
        code.append("_lhs: Gej = jet::gej_add(");
        code.append(name);
        code.append("_lhs, ");
        code.append("jet::scale(");
        code.append(terms[i].multiplier_name.as_str());
        code.append(", ");
        code.append(terms[i].point_name.as_str());
        code.append(")");
        code.append(");\n");
        proof {
            assert(tv[i as int].multiplier == terms@[i as int].multiplier_name@);
            assert(code@ =~= lhs_lines(point_name@, tv, i as int) + accumulate_line(
                point_name@,
                tv[i as int],
            ));
            assert(code@ =~= lhs_lines(point_name@, tv, i + 1));
        }
        i = i + 1;
    }
    match proof_type {
        ProofType::Batchable => {
            code.append("\n    let ");
            code.append(name);
            code.append("_rhs: Gej = jet::scale(challenge, ");
            code.append(name);
            code.append(");\n    let ");
            code.append(name);
            code.append("_rhs: Gej = jet::gej_add(");
            code.append(name);
            code.append("_r, ");
            code.append(name);
            code.append("_rhs);\n\n    assert!(jet::gej_equiv(");
            code.append(name);
            code.append("_lhs, ");
            code.append(name);
            code.append("_rhs));\n");
            proof {
                assert(code@ =~= lhs_lines(point_name@, tv, tv.len() as int) + batchable_tail(
                    point_name@,
                ));
            }
        },
        ProofType::Compact => {
            code.append("\n    let ");
            code.append(name);
            code.append("_rhs: Gej = jet::scale(challenge, ");
            code.append(name);
            code.append(");\n    let ");
            code.append(name);
            code.append("_rhs: Gej = jet::negate(");
            code.append(name);
            code.append("_rhs);\n\n    let ");
            code.append(name);
            code.append("_r: Gej = jet::gej_add(");
            code.append(name);
            code.append("_lhs, ");
            code.append(name);
            code.append("_rhs);\n");
            proof {
                assert(code@ =~= lhs_lines(point_name@, tv, tv.len() as int) + compact_tail(
                    point_name@,
                ));
            }
        },
    }
    code
}

/// Each name with a prefix and suffix attached.
pub open spec fn affixed(names: Seq<Seq<char>>, pre: Seq<char>, suf: Seq<char>) -> Seq<Seq<char>> {
    Seq::new(names.len(), |i: int| pre + names[i] + suf)
}

/// The first `n` names joined with the separator.
pub open spec fn join_names(names: Seq<Seq<char>>, sep: Seq<char>, n: int) -> Seq<char>
    decreases n,
{
    if n <= 0 {
        Seq::empty()
    } else if n == 1 {
        names[0]
    } else {
        join_names(names, sep, n - 1) + sep + names[n - 1]
    }
}

/// `n` copies of one word.
pub open spec fn repeated(word: Seq<char>, n: nat) -> Seq<Seq<char>> {
    Seq::new(n, |i: int| word)
}

/// Joins the names, each wrapped in the prefix and suffix, with the
/// separator.
fn join_affixed(names: &Vec<String>, pre: &str, suf: &str, sep: &str) -> (r: String)
    ensures
        r@ =~= join_names(
            affixed(names.deep_view(), pre@, suf@),
            sep@,
            names.deep_view().len() as int,
        ),
{
    let ghost nv = names.deep_view();
    let ghost av = affixed(nv, pre@, suf@);
    let mut out = String::new();
    let mut i: usize = 0;
    while i < names.len()
        invariant
            i <= nv.len(),
            nv =~= names.deep_view(),
            av =~= affixed(nv, pre@, suf@),
            out@ =~= join_names(av, sep@, i as int),
        decreases nv.len() - i,
    {
        if i > 0 {
            out.append(sep);
        }
        out.append(pre);
        out.append(names[i].as_str());
        out.append(suf);
        proof {
            assert(av[i as int] == pre@ + nv[i as int] + suf@);
            assert(out@ =~= join_names(av, sep@, i + 1));
        }
        i = i + 1;
    }
    out
}

/// Joins `n` copies of the word with the separator.
fn join_repeated(word: &str, n: usize, sep: &str) -> (r: String)
    ensures
        r@ =~= join_names(repeated(word@, n as nat), sep@, n as int),
{
    let ghost rv = repeated(word@, n as nat);
    let mut out = String::new();
    let mut i: usize = 0;
    while i < n
        invariant
            i <= n,
            rv =~= repeated(word@, n as nat),
            out@ =~= join_names(rv, sep@, i as int),
        decreases n - i,
    {
        if i > 0 {
            out.append(sep);
        }
        out.append(word);
        proof {
            assert(rv[i as int] == word@);
            assert(out@ =~= join_names(rv, sep@, i + 1));
        }
        i = i + 1;
    }
    out
}

/// The two hashing lines for the first `n` instance variables: each hashes
/// the instance point, then its commitment point.
pub open spec fn hash_lines(names: Seq<Seq<char>>, n: int) -> Seq<char>
    decreases n,
{
    if n <= 0 {
        Seq::empty()
    } else {
        hash_lines(names, n - 1) + "    let ctx: Ctx8 = sha_256_add_point(ctx, "@ + names[n - 1]
            + ");\n    let ctx: Ctx8 = sha_256_add_point(ctx, "@ + names[n - 1] + "_r);\n"@
    }
}

/// The shared prelude: the three tuple types, the point-hashing helper, and
/// the challenge recomputation, all over the declared variables.
pub open spec fn spec_template_base(v: crate::model::VariablesV) -> Seq<char> {
    "\ntype Instances = ("@ + join_names(
        repeated("Gej"@, v.instance.len()),
        ", "@,
        v.instance.len() as int,
    ) + ");\ntype Response = ("@ + join_names(
        repeated("Scalar"@, v.secret.len()),
        ", "@,
        v.secret.len() as int,
    ) + ");\ntype Public = ("@ + join_names(
        repeated("Gej"@, v.common.len()),
        ", "@,
        v.common.len() as int,
    ) + ");\n\n\nfn sha_256_add_point(ctx: Ctx8, point: Gej) -> Ctx8 {\n    let (x, y): (u256, u256) = unwrap(jet::gej_normalize(point));\n\n    let ctx: Ctx8 = jet::sha_256_ctx_8_add_32(ctx, x);\n    let ctx: Ctx8 = jet::sha_256_ctx_8_add_32(ctx, y);\n\n    ctx\n}\n\n\nfn compute_challenge(instance: Instances, commitments: Instances) -> Scalar {\n    let ("@
        + join_names(affixed(v.instance, ""@, ""@), ", "@, v.instance.len() as int)
        + "): Instances = instance;\n    let ("@ + join_names(
        affixed(v.instance, ""@, "_r"@),
        ", "@,
        v.instance.len() as int,
    ) + "): Instances = commitments;\n\n    let ctx: Ctx8 = jet::sha_256_ctx_8_init();\n"@
        + hash_lines(v.instance, v.instance.len() as int)
        + "\n    jet::scalar_normalize(jet::sha_256_ctx_8_finalize(ctx))\n}\n\n"@
}

/// Renders the shared prelude for the declared variables.
#[verifier::rlimit(60)]
pub fn template_base(vars: &crate::model::Variables) -> (r: String)
    ensures
        r@ =~= spec_template_base(vars@),
{
    let ghost v = vars@;
    let mut code = String::new();
    code.append("\ntype Instances = (");
    let t1 = join_repeated("Gej", vars.instance_var.len(), ", ");
    code.append(t1.as_str());
    code.append(");\ntype Response = (");
    let t2 = join_repeated("Scalar", vars.secret_var.len(), ", ");
    code.append(t2.as_str());
    code.append(");\ntype Public = (");
    let t3 = join_repeated("Gej", vars.common_var.len(), ", ");
    code.append(t3.as_str());
    code.append(
        ");\n\n\nfn sha_256_add_point(ctx: Ctx8, point: Gej) -> Ctx8 {\n    let (x, y): (u256, u256) = unwrap(jet::gej_normalize(point));\n\n    let ctx: Ctx8 = jet::sha_256_ctx_8_add_32(ctx, x);\n    let ctx: Ctx8 = jet::sha_256_ctx_8_add_32(ctx, y);\n\n    ctx\n}\n\n\nfn compute_challenge(instance: Instances, commitments: Instances) -> Scalar {\n    let (",
    );
    let n1 = join_affixed(&vars.instance_var, "", "", ", ");
    code.append(n1.as_str());
    code.append("): Instances = instance;\n    let (");
    let n2 = join_affixed(&vars.instance_var, "", "_r", ", ");
    code.append(n2.as_str());
    code.append("): Instances = commitments;\n\n    let ctx: Ctx8 = jet::sha_256_ctx_8_init();\n");
    let mut i: usize = 0;
    while i < vars.instance_var.len()
        invariant
            i <= v.instance.len(),
            v =~= vars@,
            code@ =~= "\ntype Instances = ("@ + join_names(
                repeated("Gej"@, v.instance.len()),
                ", "@,
                v.instance.len() as int,
            ) + ");\ntype Response = ("@ + join_names(
                repeated("Scalar"@, v.secret.len()),
                ", "@,
                v.secret.len() as int,
            ) + ");\ntype Public = ("@ + join_names(
                repeated("Gej"@, v.common.len()),
                ", "@,
                v.common.len() as int,
            ) + ");\n\n\nfn sha_256_add_point(ctx: Ctx8, point: Gej) -> Ctx8 {\n    let (x, y): (u256, u256) = unwrap(jet::gej_normalize(point));\n\n    let ctx: Ctx8 = jet::sha_256_ctx_8_add_32(ctx, x);\n    let ctx: Ctx8 = jet::sha_256_ctx_8_add_32(ctx, y);\n\n    ctx\n}\n\n\nfn compute_challenge(instance: Instances, commitments: Instances) -> Scalar {\n    let ("@
                + join_names(affixed(v.instance, ""@, ""@), ", "@, v.instance.len() as int)
                + "): Instances = instance;\n    let ("@ + join_names(
                affixed(v.instance, ""@, "_r"@),
                ", "@,
                v.instance.len() as int,
            ) + "): Instances = commitments;\n\n    let ctx: Ctx8 = jet::sha_256_ctx_8_init();\n"@
                + hash_lines(v.instance, i as int),
        decreases v.instance.len() - i,
    {
        code.append("    let ctx: Ctx8 = sha_256_add_point(ctx, ");
        code.append(vars.instance_var[i].as_str());
        code.append(");\n    let ctx: Ctx8 = sha_256_add_point(ctx, ");
        code.append(vars.instance_var[i].as_str());
        code.append("_r);\n");
        proof {
            assert(vars.instance_var@[i as int]@ == v.instance[i as int]);
            assert(hash_lines(v.instance, i + 1) =~= hash_lines(v.instance, i as int)
                + "    let ctx: Ctx8 = sha_256_add_point(ctx, "@ + v.instance[i as int]
                + ");\n    let ctx: Ctx8 = sha_256_add_point(ctx, "@ + v.instance[i as int]
                + "_r);\n"@);
        }
        i = i + 1;
    }
    code.append("\n    jet::scalar_normalize(jet::sha_256_ctx_8_finalize(ctx))\n}\n\n");
    proof {
        assert(code@ =~= spec_template_base(v));
    }
    code
}

/// The first `n` relations' rendered constraint blocks, joined with blank
/// lines.
pub open spec fn constraints_code(
    cs: Seq<(Seq<TermV>, Seq<char>)>,
    pt: ProofType,
    n: int,
) -> Seq<char>
    decreases n,
{
    if n <= 0 {
        Seq::empty()
    } else if n == 1 {
        constraint_code(cs[0].0, cs[0].1, pt)
    } else {
        constraints_code(cs, pt, n - 1) + "\n"@ + constraint_code(cs[n - 1].0, cs[n - 1].1, pt)
    }
}

/// Renders every relation's constraint block for one encoding, in order,
/// joined with blank lines. Consumes the list, as each block does its
/// terms.
fn constraints_block(constraints: Vec<(Vec<Term>, String)>, proof_type: ProofType) -> (r: String)
    ensures
        r@ =~= constraints_code(
            constraints.deep_view(),
            proof_type,
            constraints.deep_view().len() as int,
        ),
{
    let ghost csv = constraints.deep_view();
    let total = constraints.len();
    let mut cs = constraints;
    let mut out = String::new();
    let mut i: usize = 0;
    while i < total
        invariant
            total == csv.len(),
            i + cs@.len() == csv.len(),
            cs.deep_view() =~~= csv.skip(i as int),
            out@ =~= constraints_code(csv, proof_type, i as int),
        decreases cs@.len(),
    {
        proof {
            assert(cs@.len() > 0);
        }
        let ghost pre = cs.deep_view();
        let ghost pre_shallow = cs@;
        let (terms, name) = cs.remove(0);
        proof {
            assert(pre[0] == pre_shallow[0].deep_view());
            assert(pre_shallow[0].deep_view() == (terms.deep_view(), name@));
            assert(pre[0] == csv.skip(i as int)[0]);
            assert(csv.skip(i as int)[0] == csv[i as int]);
            assert(terms.deep_view() =~~= csv[i as int].0);
            assert(name@ == csv[i as int].1);
            assert(cs.deep_view() =~~= pre.skip(1));
            assert(cs.deep_view() =~~= csv.skip(i + 1));
        }
        if i > 0 {
            out.append("\n");
        }
        let piece = generate_constraint_code(terms, name, proof_type);
        out.append(piece.as_str());
        proof {
            assert(out@ =~= constraints_code(csv, proof_type, i + 1));
        }
        i = i + 1;
    }
    proof {
        assert(i == csv.len());
    }
    out
}

/// The whole batchable program: prelude, a verifier that takes the full
/// transcript and asserts each relation's equation, and an entry point
/// wiring the constant-block symbols in.
pub open spec fn spec_template_batchable(
    v: crate::model::VariablesV,
    cs: Seq<(Seq<TermV>, Seq<char>)>,
) -> Seq<char> {
    spec_template_base(v)
        + "\nfn verify_batchable(public_vars: Public, response: Response, instance: Instances, commitments: Instances) {\n    let ("@
        + join_names(affixed(v.common, ""@, ""@), ", "@, v.common.len() as int)
        + "): Public = public_vars;\n    let ("@
        + join_names(affixed(v.secret, ""@, ""@), ", "@, v.secret.len() as int)
        + "): Response = response;\n    let ("@
        + join_names(affixed(v.instance, ""@, ""@), ", "@, v.instance.len() as int)
        + "): Instances = instance;\n    let ("@
        + join_names(affixed(v.instance, ""@, "_r"@), ", "@, v.instance.len() as int)
        + "): Instances = commitments;\n\n    let challenge: Scalar = compute_challenge(instance, commitments);\n\n"@
        + constraints_code(cs, ProofType::Batchable, cs.len() as int)
        + "\n}\n\nfn main() {\n    let public_vars: Public = ("@
        + join_names(affixed(v.common, "param::"@, ""@), ", "@, v.common.len() as int)
        + ");\n    let response: Response = ("@
        + join_names(affixed(v.secret, "witness::"@, ""@), ", "@, v.secret.len() as int)
        + ");\n    let instance: Instances = ("@
        + join_names(affixed(v.instance, "witness::"@, ""@), ", "@, v.instance.len() as int)
        + ");\n    let commitments: Instances = ("@
        + join_names(affixed(v.instance, "witness::"@, "_r"@), ", "@, v.instance.len() as int)
        + ");\n\n    verify_batchable(public_vars, response, instance, commitments);\n}\n"@
}

/// Renders the batchable verifier program for the declared variables and
/// relations.
#[verifier::rlimit(60)]
pub fn template_generator_batchable(
    vars: crate::model::Variables,
    constraints: Vec<(Vec<Term>, String)>,
) -> (r: String)
    ensures
        r@ =~= spec_template_batchable(vars@, constraints.deep_view()),
{
    let ghost v = vars@;
    let ghost csv = constraints.deep_view();
    let mut code = template_base(&vars);
    code.append(
        "\nfn verify_batchable(public_vars: Public, response: Response, instance: Instances, commitments: Instances) {\n    let (",
    );
    let s1 = join_affixed(&vars.common_var, "", "", ", ");
    code.append(s1.as_str());
    code.append("): Public = public_vars;\n    let (");
    let s2 = join_affixed(&vars.secret_var, "", "", ", ");
    code.append(s2.as_str());
    code.append("): Response = response;\n    let (");
    let s3 = join_affixed(&vars.instance_var, "", "", ", ");
    code.append(s3.as_str());
    code.append("): Instances = instance;\n    let (");
    let s4 = join_affixed(&vars.instance_var, "", "_r", ", ");
    code.append(s4.as_str());
    code.append(
        "): Instances = commitments;\n\n    let challenge: Scalar = compute_challenge(instance, commitments);\n\n",
    );
    let body = constraints_block(constraints, ProofType::Batchable);
    code.append(body.as_str());
    code.append("\n}\n\nfn main() {\n    let public_vars: Public = (");
    let p1 = join_affixed(&vars.common_var, "param::", "", ", ");
    code.append(p1.as_str());
    code.append(");\n    let response: Response = (");
    let p2 = join_affixed(&vars.secret_var, "witness::", "", ", ");
    code.append(p2.as_str());
    code.append(");\n    let instance: Instances = (");
    let p3 = join_affixed(&vars.instance_var, "witness::", "", ", ");
    code.append(p3.as_str());
    code.append(");\n    let commitments: Instances = (");
    let p4 = join_affixed(&vars.instance_var, "witness::", "_r", ", ");
    code.append(p4.as_str());
    code.append(");\n\n    verify_batchable(public_vars, response, instance, commitments);\n}\n");
    proof {
        assert(code@ =~= spec_template_batchable(v, csv));
    }
    code
}

/// The whole compact program: prelude, a verifier that takes only the
/// challenge, derives each commitment algebraically, recomputes the
/// challenge and asserts it matches, and an entry point wiring the
/// constant-block symbols in.
pub open spec fn spec_template_compact(
    v: crate::model::VariablesV,
    cs: Seq<(Seq<TermV>, Seq<char>)>,
) -> Seq<char> {
    spec_template_base(v)
        + "\nfn verify_compact(public_vars: Public, response: Response, instance: Instances, challenge: Scalar) {\n    let ("@
        + join_names(affixed(v.common, ""@, ""@), ", "@, v.common.len() as int)
        + "): Public = public_vars;\n    let ("@
        + join_names(affixed(v.secret, ""@, ""@), ", "@, v.secret.len() as int)
        + "): Response = response;\n    let ("@
        + join_names(affixed(v.instance, ""@, ""@), ", "@, v.instance.len() as int)
        + "): Instances = instance;\n\n"@
        + constraints_code(cs, ProofType::Compact, cs.len() as int)
        + "\n    let commitments: Instances = ("@
        + join_names(affixed(v.instance, ""@, "_r"@), ", "@, v.instance.len() as int)
        + ");\n\n    let computed_challenge: Scalar = compute_challenge(instance, commitments);\n    assert!(jet::eq_256(challenge, computed_challenge));\n}\n\nfn main() {\n    let public_vars: Public = ("@
        + join_names(affixed(v.common, "param::"@, ""@), ", "@, v.common.len() as int)
        + ");\n    let response: Response = ("@
        + join_names(affixed(v.secret, "witness::"@, ""@), ", "@, v.secret.len() as int)
        + ");\n    let instance: Instances = ("@
        + join_names(affixed(v.instance, "witness::"@, ""@), ", "@, v.instance.len() as int)
        + ");\n\n    verify_compact(public_vars, response, instance, witness::challenge);\n}\n"@
}

/// Renders the compact verifier program for the declared variables and
/// relations.
#[verifier::rlimit(60)]
pub fn template_generator_compact(
    vars: crate::model::Variables,
    constraints: Vec<(Vec<Term>, String)>,
) -> (r: String)
    ensures
        r@ =~= spec_template_compact(vars@, constraints.deep_view()),
{
    let ghost v = vars@;
    let ghost csv = constraints.deep_view();
    let mut code = template_base(&vars);
    code.append(
        "\nfn verify_compact(public_vars: Public, response: Response, instance: Instances, challenge: Scalar) {\n    let (",
    );
    let s1 = join_affixed(&vars.common_var, "", "", ", ");
    code.append(s1.as_str());
    code.append("): Public = public_vars;\n    let (");
    let s2 = join_affixed(&vars.secret_var, "", "", ", ");
    code.append(s2.as_str());
    code.append("): Response = response;\n    let (");
    let s3 = join_affixed(&vars.instance_var, "", "", ", ");
    code.append(s3.as_str());
    code.append("): Instances = instance;\n\n");
    let body = constraints_block(constraints, ProofType::Compact);
    code.append(body.as_str());
    code.append("\n    let commitments: Instances = (");
    let s4 = join_affixed(&vars.instance_var, "", "_r", ", ");
    code.append(s4.as_str());
    code.append(
        ");\n\n    let computed_challenge: Scalar = compute_challenge(instance, commitments);\n    assert!(jet::eq_256(challenge, computed_challenge));\n}\n\nfn main() {\n    let public_vars: Public = (",
    );
    let p1 = join_affixed(&vars.common_var, "param::", "", ", ");
    code.append(p1.as_str());
    code.append(");\n    let response: Response = (");
    let p2 = join_affixed(&vars.secret_var, "witness::", "", ", ");
    code.append(p2.as_str());
    code.append(");\n    let instance: Instances = (");
    let p3 = join_affixed(&vars.instance_var, "witness::", "", ", ");
    code.append(p3.as_str());
    code.append(");\n\n    verify_compact(public_vars, response, instance, witness::challenge);\n}\n");
    proof {
        assert(code@ =~= spec_template_compact(v, csv));
    }
    code
}

/// An emission failure: the supplied transcript or parameter set does not
/// match the declared variables.
#[derive(PartialEq, Eq, Structural, Clone, Copy, Debug)]
pub enum EmitError {
    ArityMismatch,
}

/// The hexadecimal digit for a value below sixteen.
pub open spec fn hex_digit(n: u8) -> char {
    if n == 0 {
        '0'
    } else if n == 1 {
        '1'
    } else if n == 2 {
        '2'
    } else if n == 3 {
        '3'
    } else if n == 4 {
        '4'
    } else if n == 5 {
        '5'
    } else if n == 6 {
        '6'
    } else if n == 7 {
        '7'
    } else if n == 8 {
        '8'
    } else if n == 9 {
        '9'
    } else if n == 10 {
        'a'
    } else if n == 11 {
        'b'
    } else if n == 12 {
        'c'
    } else if n == 13 {
        'd'
    } else if n == 14 {
        'e'
    } else {
        'f'
    }
}

/// The first `n` bytes rendered as lowercase hexadecimal, two digits each.
pub open spec fn hex_str(s: Seq<u8>, n: int) -> Seq<char>
    decreases n,
{
    if n <= 0 {
        Seq::empty()
    } else {
        hex_str(s, n - 1) + seq![hex_digit(s[n - 1] / 16), hex_digit(s[n - 1] % 16)]
    }
}

/// A scalar constant: its bytes as a hexadecimal literal.
pub open spec fn scalar_lit(s: Seq<u8>) -> Seq<char> {
    "0x"@ + hex_str(s, s.len() as int)
}

/// A point constant: both coordinates as hexadecimal literals, and a third
/// component that is zero exactly for the point at infinity.
pub open spec fn point_lit(p: crate::group::PointVal) -> Seq<char> {
    "((0x"@ + hex_str(p.x, p.x.len() as int) + ", 0x"@ + hex_str(p.y, p.y.len() as int) + "), "@
        + (if p.infinity {
        "0"@
    } else {
        "1"@
    }) + ")"@
}

/// One hexadecimal digit as text.
fn hex_digit_str(n: u8) -> (r: &'static str)
    requires
        n < 16,
    ensures
        r@ =~= seq![hex_digit(n)],
{
    proof {
        reveal_strlit("0");
        reveal_strlit("1");
        reveal_strlit("2");
        reveal_strlit("3");
        reveal_strlit("4");
        reveal_strlit("5");
        reveal_strlit("6");
        reveal_strlit("7");
        reveal_strlit("8");
        reveal_strlit("9");
        reveal_strlit("a");
        reveal_strlit("b");
        reveal_strlit("c");
        reveal_strlit("d");
        reveal_strlit("e");
        reveal_strlit("f");
    }
    if n == 0 {
        "0"
    } else if n == 1 {
        "1"
    } else if n == 2 {
        "2"
    } else if n == 3 {
        "3"
    } else if n == 4 {
        "4"
    } else if n == 5 {
        "5"
    } else if n == 6 {
        "6"
    } else if n == 7 {
        "7"
    } else if n == 8 {
        "8"
    } else if n == 9 {
        "9"
    } else if n == 10 {
        "a"
    } else if n == 11 {
        "b"
    } else if n == 12 {
        "c"
    } else if n == 13 {
        "d"
    } else if n == 14 {
        "e"
    } else {
        "f"
    }
}

/// Appends the bytes in hexadecimal.
fn push_hex(out: &mut String, bytes: &Vec<u8>)
    ensures
        final(out)@ =~= old(out)@ + hex_str(bytes@, bytes@.len() as int),
{
    let mut i: usize = 0;
    while i < bytes.len()
        invariant
            i <= bytes@.len(),
            out@ =~= old(out)@ + hex_str(bytes@, i as int),
        decreases bytes@.len() - i,
    {
        let b = bytes[i];
        let hi = hex_digit_str(b / 16);
        let lo = hex_digit_str(b % 16);
        out.append(hi);
        out.append(lo);
        proof {
            assert(out@ =~= old(out)@ + hex_str(bytes@, i + 1));
        }
        i = i + 1;
    }
}

/// Appends one point constant.
fn push_point_lit(out: &mut String, p: &crate::group::GroupPoint)
    ensures
        final(out)@ =~= old(out)@ + point_lit(p@),
{
    out.append("((0x");
    push_hex(out, &p.x);
    out.append(", 0x");
    push_hex(out, &p.y);
    out.append("), ");
    if p.infinity {
        out.append("0");
    } else {
        out.append("1");
    }
    out.append(")");
    proof {
        assert(out@ =~= old(out)@ + point_lit(p@));
    }
}

/// The supplied transcript and parameter points match the declared
/// variables exactly: responses line up with the secret variables in
/// order, and each point list has one entry per variable of its class.
pub open spec fn arity_ok(v: VariablesV, t: TranscriptV, cv: Seq<(Seq<char>, PointVal)>) -> bool {
    &&& t.responses.len() == v.secret.len()
    &&& (forall|i: int| 0 <= i < v.secret.len() ==> (#[trigger] t.responses[i]).0 == v.secret[i])
    &&& t.instances.len() == v.instance.len()
    &&& covers(v.instance, t.instances)
    &&& t.commitments.len() == v.instance.len()
    &&& covers(v.instance, t.commitments)
    &&& cv.len() == v.common.len()
    &&& covers(v.common, cv)
}

/// The first `n` response constants.
pub open spec fn resp_lines(resps: Seq<(Seq<char>, Seq<u8>)>, n: int) -> Seq<char>
    decreases n,
{
    if n <= 0 {
        Seq::empty()
    } else {
        resp_lines(resps, n - 1) + "    const "@ + resps[n - 1].0 + ": Scalar = "@ + scalar_lit(
            resps[n - 1].1,
        ) + ";\n"@
    }
}

/// The first `n` instance variables' constants: the instance point, then
/// the commitment point under the `_r` suffix.
pub open spec fn inst_lines(
    names: Seq<Seq<char>>,
    insts: Seq<(Seq<char>, PointVal)>,
    commits: Seq<(Seq<char>, PointVal)>,
    n: int,
) -> Seq<char>
    decreases n,
{
    if n <= 0 {
        Seq::empty()
    } else {
        inst_lines(names, insts, commits, n - 1) + "    const "@ + names[n - 1] + ": Gej = "@
            + point_lit(spec_lookup(insts, names[n - 1])->Some_0) + ";\n    const "@ + names[n - 1]
            + "_r: Gej = "@ + point_lit(spec_lookup(commits, names[n - 1])->Some_0) + ";\n\n"@
    }
}

/// The first `n` common-parameter constants.
pub open spec fn param_lines(names: Seq<Seq<char>>, cv: Seq<(Seq<char>, PointVal)>, n: int) -> Seq<
    char,
>
    decreases n,
{
    if n <= 0 {
        Seq::empty()
    } else {
        param_lines(names, cv, n - 1) + "    const "@ + names[n - 1] + ": Gej = "@ + point_lit(
            spec_lookup(cv, names[n - 1])->Some_0,
        ) + ";\n"@
    }
}

/// The whole constant block: the witness namespace with the challenge, the
/// responses and both point sets, then the parameter namespace with the
/// common points.
pub open spec fn spec_header(v: VariablesV, t: TranscriptV, cv: Seq<(Seq<char>, PointVal)>) -> Seq<
    char,
> {
    "mod witness {\n    const challenge: Scalar = "@ + scalar_lit(t.challenge) + ";\n"@
        + resp_lines(t.responses, t.responses.len() as int) + "\n"@ + inst_lines(
        v.instance,
        t.instances,
        t.commitments,
        v.instance.len() as int,
    ) + "}\n\nmod param {\n"@ + param_lines(v.common, cv, v.common.len() as int) + "}\n"@
}

/// Renders the constant block for a proved transcript and the common-point
/// values. Fails with `ArityMismatch` exactly when the transcript's or the
/// parameters' variable sets do not match the declaration.
#[verifier::rlimit(60)]
pub fn generate_template_header(
    vars: &Variables,
    transcript: &ProofTranscript,
    commons: &Vec<(String, GroupPoint)>,
) -> (r: Result<String, EmitError>)
    ensures
        r is Ok <==> arity_ok(vars@, transcript@, commons.deep_view()),
        r is Err ==> r->Err_0 == EmitError::ArityMismatch,
        r is Ok ==> r->Ok_0@ =~= spec_header(vars@, transcript@, commons.deep_view()),
{
    let ghost v = vars@;
    let ghost t = transcript@;
    let ghost cv = commons.deep_view();

    // Responses must line up with the secret variables, in order.
    if transcript.responses.len() != vars.secret_var.len() {
        return Err(EmitError::ArityMismatch);
    }
    let mut i: usize = 0;
    while i < vars.secret_var.len()
        invariant
            i <= v.secret.len(),
            v =~= vars@,
            t =~= transcript@,
            t.responses.len() == v.secret.len(),
            forall|k: int| 0 <= k < i ==> (#[trigger] t.responses[k]).0 == v.secret[k],
        decreases v.secret.len() - i,
    {
        if !transcript.responses[i].0.eq(&vars.secret_var[i]) {
            proof {
                assert(t.responses[i as int].0 != v.secret[i as int]);
            }
            return Err(EmitError::ArityMismatch);
        }
        proof {
            assert(t.responses[i as int].0 == v.secret[i as int]);
        }
        i = i + 1;
    }

    // One instance and one commitment point per instance variable.
    if transcript.instance_points.len() != vars.instance_var.len() || transcript.commitment_points.len() != vars.instance_var.len() {
        return Err(EmitError::ArityMismatch);
    }
    let mut i2: usize = 0;
    while i2 < vars.instance_var.len()
        invariant
            i2 <= v.instance.len(),
            v =~= vars@,
            t =~= transcript@,
            forall|k: int| 0 <= k < i2 ==> spec_lookup(t.instances, #[trigger] v.instance[k]) is Some
                && spec_lookup(t.commitments, v.instance[k]) is Some,
        decreases v.instance.len() - i2,
    {
        let name = &vars.instance_var[i2];
        proof {
            assert(name@ == v.instance[i2 as int]);
        }
        if lookup_point(&transcript.instance_points, name).is_none() {
            proof {
                assert(spec_lookup(t.instances, v.instance[i2 as int]) is None);
                assert(!covers(v.instance, t.instances));
            }
            return Err(EmitError::ArityMismatch);
        }
        if lookup_point(&transcript.commitment_points, name).is_none() {
            proof {
                assert(spec_lookup(t.commitments, v.instance[i2 as int]) is None);
                assert(!covers(v.instance, t.commitments));
            }
            return Err(EmitError::ArityMismatch);
        }
        i2 = i2 + 1;
    }

    // One parameter point per common variable.
    if commons.len() != vars.common_var.len() {
        return Err(EmitError::ArityMismatch);
    }
    let mut i3: usize = 0;
    while i3 < vars.common_var.len()
        invariant
            i3 <= v.common.len(),
            v =~= vars@,
            cv =~= commons.deep_view(),
            forall|k: int| 0 <= k < i3 ==> spec_lookup(cv, #[trigger] v.common[k]) is Some,
        decreases v.common.len() - i3,
    {
        if lookup_point(commons, &vars.common_var[i3]).is_none() {
            proof {
                assert(vars.common_var@[i3 as int]@ == v.common[i3 as int]);
                assert(spec_lookup(cv, v.common[i3 as int]) is None);
                assert(!covers(v.common, cv));
            }
            return Err(EmitError::ArityMismatch);
        }
        i3 = i3 + 1;
    }
    proof {
        assert(arity_ok(v, t, cv));
    }

    let mut code = String::new();
    code.append("mod witness {\n    const challenge: Scalar = ");
    code.append("0x");
    push_hex(&mut code, &transcript.challenge.bytes);
    code.append(";\n");
    proof {
        assert(code@ =~= "mod witness {\n    const challenge: Scalar = "@ + scalar_lit(t.challenge)
            + ";\n"@);
    }
    let ghost part1 = code@;
    let mut r1: usize = 0;
    while r1 < transcript.responses.len()
        invariant
            r1 <= t.responses.len(),
            t =~= transcript@,
            code@ =~= part1 + resp_lines(t.responses, r1 as int),
        decreases t.responses.len() - r1,
    {
        code.append("    const ");
        code.append(transcript.responses[r1].0.as_str());
        code.append(": Scalar = ");
        code.append("0x");
        push_hex(&mut code, &transcript.responses[r1].1.bytes);
        code.append(";\n");
        proof {
            assert(t.responses[r1 as int] == (transcript.responses@[r1 as int].0@,
            transcript.responses@[r1 as int].1@));
            assert(code@ =~= part1 + resp_lines(t.responses, r1 + 1));
        }
        r1 = r1 + 1;
    }
    code.append("\n");
    let ghost part2 = code@;
    proof {
        assert(part2 =~= part1 + resp_lines(t.responses, t.responses.len() as int) + "\n"@);
    }
    let mut r2: usize = 0;
    while r2 < vars.instance_var.len()
        invariant
            r2 <= v.instance.len(),
            v =~= vars@,
            t =~= transcript@,
            arity_ok(v, t, cv),
            code@ =~= part2 + inst_lines(v.instance, t.instances, t.commitments, r2 as int),
        decreases v.instance.len() - r2,
    {
        let name = &vars.instance_var[r2];
        proof {
            assert(name@ == v.instance[r2 as int]);
            assert(spec_lookup(t.instances, v.instance[r2 as int]) is Some);
            assert(spec_lookup(t.commitments, v.instance[r2 as int]) is Some);
        }
        let ip = match lookup_point(&transcript.instance_points, name) {
            Some(p) => p,
            None => vstd::pervasive::unreached(),
        };
        code.append("    const ");
        code.append(name.as_str());
        code.append(": Gej = ");
        push_point_lit(&mut code, ip);
        code.append(";\n    const ");
        code.append(name.as_str());
        code.append("_r: Gej = ");
        let cp = match lookup_point(&transcript.commitment_points, name) {
            Some(p) => p,
            None => vstd::pervasive::unreached(),
        };
        push_point_lit(&mut code, cp);
        code.append(";\n\n");
        proof {
            assert(code@ =~= part2 + inst_lines(v.instance, t.instances, t.commitments, r2 + 1));
        }
        r2 = r2 + 1;
    }
    code.append("}\n\nmod param {\n");
    let ghost part3 = code@;
    proof {
        assert(part3 =~= part2 + inst_lines(v.instance, t.instances, t.commitments, v.instance.len() as int)
            + "}\n\nmod param {\n"@);
    }
    let mut r3: usize = 0;
    while r3 < vars.common_var.len()
        invariant
            r3 <= v.common.len(),
            v =~= vars@,
            cv =~= commons.deep_view(),
            arity_ok(v, t, cv),
            code@ =~= part3 + param_lines(v.common, cv, r3 as int),
        decreases v.common.len() - r3,
    {
        let name = &vars.common_var[r3];
        proof {
            assert(name@ == v.common[r3 as int]);
            assert(spec_lookup(cv, v.common[r3 as int]) is Some);
        }
        let gp = match lookup_point(commons, name) {
            Some(p) => p,
            None => vstd::pervasive::unreached(),
        };
        code.append("    const ");
        code.append(name.as_str());
        code.append(": Gej = ");
        push_point_lit(&mut code, gp);
        code.append(";\n");
        proof {
            assert(code@ =~= part3 + param_lines(v.common, cv, r3 + 1));
        }
        r3 = r3 + 1;
    }
    code.append("}\n");
    proof {
        assert(code@ =~= spec_header(v, t, cv));
    }
    Ok(code)
}

} // verus!
