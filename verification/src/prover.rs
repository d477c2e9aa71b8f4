//! The prover: evaluates every relation under the real secrets and under
//! fresh blinding scalars, derives the Fiat-Shamir challenge from both point
//! sets, and computes one response per secret variable.

use vstd::prelude::*;
use vstd::arithmetic::div_mod::lemma_add_mod_noop_right;

use crate::challenge::{any_infinite, derive_challenge, spec_challenge};
use crate::eval::{
    all_terms_defined, eval_relation, evaluate, lemma_lookup_some, lookup_point, lookup_scalar,
    spec_lookup,
};
use crate::group::{be_nat, group_order, pv_wf, sc_wf, GroupPoint, PointVal, Scalar};
use crate::group::{random_scalar, scalar_add, scalar_mul};
use crate::model::{ModelV, StatementModel};
use crate::ProofError;

verus! {

/// The proof transcript: challenge, one response per secret variable, and
/// the instance and commitment points keyed by instance-variable name. The
/// construction is arranged so that each relation's response combination
/// equals its commitment point plus challenge times its instance point;
/// the algebraic step of that equation rests on the curve library, the
/// bookkeeping around it is stated in `transcript_consistent`.
pub struct ProofTranscript {
    pub challenge: Scalar,
    pub responses: Vec<(String, Scalar)>,
    pub instance_points: Vec<(String, GroupPoint)>,
    pub commitment_points: Vec<(String, GroupPoint)>,
}

/// The spec-level value of a transcript.
#[verifier::ext_equal]
pub struct TranscriptV {
    pub challenge: Seq<u8>,
    pub responses: Seq<(Seq<char>, Seq<u8>)>,
    pub instances: Seq<(Seq<char>, PointVal)>,
    pub commitments: Seq<(Seq<char>, PointVal)>,
}

impl View for ProofTranscript {
    type V = TranscriptV;

    open spec fn view(&self) -> TranscriptV {
        TranscriptV {
            challenge: self.challenge@,
            responses: self.responses.deep_view(),
            instances: self.instance_points.deep_view(),
            commitments: self.commitment_points.deep_view(),
        }
    }
}

/// Every name in the list is bound in the association list.
pub open spec fn covers<V>(names: Seq<Seq<char>>, m: Seq<(Seq<char>, V)>) -> bool {
    forall|i: int| 0 <= i < names.len() ==> spec_lookup(m, names[i]) is Some
}

/// The blinding assignment: the secret-variable names paired with the
/// blinding scalars, in declaration order.
pub open spec fn blind_assignment(names: Seq<Seq<char>>, blinds: Seq<Seq<u8>>) -> Seq<
    (Seq<char>, Seq<u8>),
> {
    Seq::new(names.len(), |i: int| (names[i], blinds[i]))
}

/// The per-relation evaluation results, keyed by each relation's left-hand
/// side, in relation order.
pub open spec fn relation_points(
    rels: Seq<crate::model::RelationV>,
    secrets: Seq<(Seq<char>, Seq<u8>)>,
    points: Seq<(Seq<char>, PointVal)>,
) -> Seq<(Seq<char>, PointVal)> {
    Seq::new(rels.len(), |j: int| (rels[j].lhs, eval_relation(rels[j], secrets, points)))
}

/// The points looked up by name, in the order the names are listed.
pub open spec fn ordered_points(names: Seq<Seq<char>>, m: Seq<(Seq<char>, PointVal)>) -> Seq<
    PointVal,
> {
    Seq::new(names.len(), |i: int| spec_lookup(m, names[i])->Some_0)
}

/// Some relation has a term whose reference is unbound under the supplied
/// assignments.
pub open spec fn some_term_undefined(
    rels: Seq<crate::model::RelationV>,
    secrets: Seq<(Seq<char>, Seq<u8>)>,
    points: Seq<(Seq<char>, PointVal)>,
) -> bool {
    exists|j: int| 0 <= j < rels.len() && !all_terms_defined(rels[j].terms, secrets, points)
}

/// The prover would fail with `MissingVariable` on these inputs: a secret or
/// common variable is not covered, or some term's reference is unbound
/// under the supplied assignments (a term naming an instance point, say).
pub open spec fn missing_inputs(
    mv: ModelV,
    sv: Seq<(Seq<char>, Seq<u8>)>,
    cv: Seq<(Seq<char>, PointVal)>,
) -> bool {
    ||| !covers(mv.vars.secret, sv)
    ||| !covers(mv.vars.common, cv)
    ||| some_term_undefined(mv.relations, sv, cv)
}

/// Some instance or commitment point, ordered by instance variable, is the
/// point at infinity, which cannot be hashed.
pub open spec fn hits_infinity(
    mv: ModelV,
    sv: Seq<(Seq<char>, Seq<u8>)>,
    cv: Seq<(Seq<char>, PointVal)>,
    blinds: Seq<Seq<u8>>,
) -> bool {
    ||| any_infinite(ordered_points(mv.vars.instance, relation_points(mv.relations, sv, cv)))
    ||| any_infinite(
        ordered_points(
            mv.vars.instance,
            relation_points(mv.relations, blind_assignment(mv.vars.secret, blinds), cv),
        ),
    )
}

/// What a returned transcript holds, for the blinding scalars that were
/// used: instance points are the relations evaluated under the secrets,
/// commitment points the relations evaluated under the blinds, the
/// challenge is derived from both point sets in instance-variable order,
/// and each response is blind + challenge · secret mod the group order.
pub open spec fn transcript_consistent(
    mv: ModelV,
    sv: Seq<(Seq<char>, Seq<u8>)>,
    cv: Seq<(Seq<char>, PointVal)>,
    blinds: Seq<Seq<u8>>,
    t: TranscriptV,
) -> bool {
    &&& t.instances == relation_points(mv.relations, sv, cv)
    &&& t.commitments == relation_points(
        mv.relations,
        blind_assignment(mv.vars.secret, blinds),
        cv,
    )
    &&& be_nat(t.challenge) == spec_challenge(
        mv.label,
        ordered_points(mv.vars.instance, t.instances),
        ordered_points(mv.vars.instance, t.commitments),
    )
    &&& sc_wf(t.challenge)
    &&& t.responses.len() == mv.vars.secret.len()
    &&& forall|i: int|
        0 <= i < t.responses.len() ==> {
            &&& (#[trigger] t.responses[i]).0 == mv.vars.secret[i]
            &&& sc_wf(t.responses[i].1)
            &&& be_nat(t.responses[i].1) == (be_nat(blinds[i]) + be_nat(t.challenge) * be_nat(
                spec_lookup(sv, mv.vars.secret[i])->Some_0,
            )) % group_order()
        }
}

/// Proves the statement with caller-supplied blinding scalars: the
/// deterministic core of the prover. `prove` samples the blinds and calls
/// this.
pub fn prove_with_blinds(
    model: &StatementModel,
    secrets: &Vec<(String, Scalar)>,
    commons: &Vec<(String, GroupPoint)>,
    blinds: &Vec<Scalar>,
) -> (r: Result<ProofTranscript, ProofError>)
    requires
        model.wf(),
        blinds@.len() == model@.vars.secret.len(),
    ensures
        r is Ok <==> !missing_inputs(model@, secrets.deep_view(), commons.deep_view())
            && !hits_infinity(
            model@,
            secrets.deep_view(),
            commons.deep_view(),
            blinds.deep_view(),
        ),
        r == Err::<ProofTranscript, ProofError>(ProofError::MissingVariable) <==> missing_inputs(
            model@,
            secrets.deep_view(),
            commons.deep_view(),
        ),
        r == Err::<ProofTranscript, ProofError>(ProofError::InvalidPoint) <==> !missing_inputs(
            model@,
            secrets.deep_view(),
            commons.deep_view(),
        ) && hits_infinity(model@, secrets.deep_view(), commons.deep_view(), blinds.deep_view()),
        r is Ok ==> transcript_consistent(
            model@,
            secrets.deep_view(),
            commons.deep_view(),
            blinds.deep_view(),
            r->Ok_0@,
        ),
        r is Ok ==> forall|j: int|
            0 <= j < r->Ok_0@.instances.len() ==> pv_wf((#[trigger] r->Ok_0@.instances[j]).1)
                && pv_wf(r->Ok_0@.commitments[j].1),
{
    let ghost mv = model@;
    let ghost sv = secrets.deep_view();
    let ghost cv = commons.deep_view();
    let ghost bv = blinds.deep_view();

    // Coverage of the secret variables.
    let ghost secret_names = mv.vars.secret;
    let mut i: usize = 0;
    while i < model.vars.secret_var.len()
        invariant
            i <= secret_names.len(),
            secret_names =~= model@.vars.secret,
            sv =~= secrets.deep_view(),
            forall|j: int| 0 <= j < i ==> spec_lookup(sv, secret_names[j]) is Some,
        decreases secret_names.len() - i,
    {
        if lookup_scalar(secrets, &model.vars.secret_var[i]).is_none() {
            proof {
                assert(spec_lookup(sv, secret_names[i as int]) is None);
                assert(!covers(secret_names, sv));
            }
            return Err(ProofError::MissingVariable);
        }
        i = i + 1;
    }
    proof {
        assert(covers(secret_names, sv));
    }

    // Coverage of the common variables.
    let ghost common_names = mv.vars.common;
    let mut i2: usize = 0;
    while i2 < model.vars.common_var.len()
        invariant
            i2 <= common_names.len(),
            common_names =~= model@.vars.common,
            cv =~= commons.deep_view(),
            forall|j: int| 0 <= j < i2 ==> spec_lookup(cv, common_names[j]) is Some,
        decreases common_names.len() - i2,
    {
        if lookup_point(commons, &model.vars.common_var[i2]).is_none() {
            proof {
                assert(spec_lookup(cv, common_names[i2 as int]) is None);
                assert(!covers(common_names, cv));
            }
            return Err(ProofError::MissingVariable);
        }
        i2 = i2 + 1;
    }
    proof {
        assert(covers(common_names, cv));
    }

    // Instance points: each relation evaluated under the real secrets.
    let ghost inst_assign = relation_points(mv.relations, sv, cv);
    let mut instance_points: Vec<(String, GroupPoint)> = Vec::new();
    let mut j: usize = 0;
    while j < model.relations.len()
        invariant
            j <= mv.relations.len(),
            mv =~= model@,
            model.wf(),
            sv =~= secrets.deep_view(),
            cv =~= commons.deep_view(),
            inst_assign =~= relation_points(mv.relations, sv, cv),
            instance_points.deep_view() =~~= inst_assign.take(j as int),
            forall|k: int| 0 <= k < j ==> all_terms_defined(mv.relations[k].terms, sv, cv),
            forall|k: int|
                0 <= k < j ==> pv_wf(#[trigger] instance_points.deep_view()[k].1),
        decreases mv.relations.len() - j,
    {
        let rel = &model.relations[j];
        proof {
            assert(rel@ =~= mv.relations[j as int]);
            assert(rel@.terms.len() > 0);
        }
        let p = match evaluate(rel, secrets, commons) {
            Ok(p) => p,
            Err(_) => {
                proof {
                    assert(!all_terms_defined(mv.relations[j as int].terms, sv, cv));
                    assert(some_term_undefined(mv.relations, sv, cv));
                }
                return Err(ProofError::MissingVariable);
            },
        };
        let name = rel.lhs_name.clone();
        let ghost prev = instance_points.deep_view();
        proof {
            assert(prev.len() == j);
            assert(instance_points@.len() == j);
        }
        instance_points.push((name, p));
        proof {
            let dv = instance_points.deep_view();
            assert(dv.len() == j + 1);
            assert(dv[j as int] == (name@, p@));
            assert(dv[j as int] == inst_assign[j as int]);
            assert forall|k: int| 0 <= k < j + 1 implies dv[k] == inst_assign.take(j + 1)[k] by {
                if k < j {
                    assert(dv[k] == prev[k]);
                    assert(prev[k] == inst_assign.take(j as int)[k]);
                }
            }
            assert(instance_points.deep_view() =~= inst_assign.take(j + 1));
        }
        j = j + 1;
    }
    proof {
        assert(instance_points.deep_view() =~~= inst_assign);
        assert(!missing_inputs(mv, sv, cv));
    }

    // The blinding assignment, pairing secret names with the blinds.
    let ghost blind_assign = blind_assignment(secret_names, bv);
    let mut blind_pairs: Vec<(String, Scalar)> = Vec::new();
    let mut b: usize = 0;
    while b < model.vars.secret_var.len()
        invariant
            b <= secret_names.len(),
            secret_names =~= model@.vars.secret,
            bv =~= blinds.deep_view(),
            bv.len() == secret_names.len(),
            blind_assign =~= blind_assignment(secret_names, bv),
            blind_pairs.deep_view() =~~= blind_assign.take(b as int),
        decreases secret_names.len() - b,
    {
        let name = model.vars.secret_var[b].clone();
        let s = blinds[b].dup();
        let ghost prev = blind_pairs.deep_view();
        proof {
            assert(prev.len() == b);
            assert(blind_pairs@.len() == b);
        }
        blind_pairs.push((name, s));
        proof {
            let dv = blind_pairs.deep_view();
            assert(dv.len() == b + 1);
            assert(dv[b as int] == blind_assign[b as int]);
            assert forall|k: int| 0 <= k < b + 1 implies dv[k] == blind_assign.take(b + 1)[k] by {
                if k < b {
                    assert(dv[k] == prev[k]);
                    assert(prev[k] == blind_assign.take(b as int)[k]);
                }
            }
            assert(blind_pairs.deep_view() =~= blind_assign.take(b + 1));
        }
        b = b + 1;
    }
    proof {
        assert(blind_pairs.deep_view() =~~= blind_assign);
    }

    // Commitment points: each relation evaluated under the blinds. Every
    // reference is bound: the multipliers are secret variables, all paired
    // in the blinding assignment, and the points resolved once already.
    let ghost commit_assign = relation_points(mv.relations, blind_assign, cv);
    let mut commitment_points: Vec<(String, GroupPoint)> = Vec::new();
    let mut j2: usize = 0;
    while j2 < model.relations.len()
        invariant
            j2 <= mv.relations.len(),
            mv =~= model@,
            model.wf(),
            sv =~= secrets.deep_view(),
            cv =~= commons.deep_view(),
            blind_assign =~= blind_assignment(mv.vars.secret, bv),
            blind_pairs.deep_view() =~~= blind_assign,
            commit_assign =~= relation_points(mv.relations, blind_assign, cv),
            commitment_points.deep_view() =~~= commit_assign.take(j2 as int),
            forall|k: int| 0 <= k < mv.relations.len() ==> all_terms_defined(
                #[trigger] mv.relations[k].terms,
                sv,
                cv,
            ),
            forall|k: int|
                0 <= k < j2 ==> pv_wf(#[trigger] commitment_points.deep_view()[k].1),
        decreases mv.relations.len() - j2,
    {
        let rel = &model.relations[j2];
        proof {
            assert(rel@ =~= mv.relations[j2 as int]);
            assert(rel@.terms.len() > 0);
            assert forall|t: int| 0 <= t < rel@.terms.len() implies crate::eval::term_defined(
                rel@.terms[t],
                blind_assign,
                cv,
            ) by {
                assert(crate::eval::term_defined(rel@.terms[t], sv, cv));
                let m = rel@.terms[t].multiplier;
                assert(mv.vars.secret.contains(m));
                let w = choose|w: int| 0 <= w < mv.vars.secret.len() && mv.vars.secret[w] == m;
                assert(blind_assign[w].0 == m);
                lemma_lookup_some(blind_assign, m);
            }
        }
        let p = match evaluate(rel, &blind_pairs, commons) {
            Ok(p) => p,
            Err(_) => {
                proof {
                    assert(all_terms_defined(rel@.terms, blind_assign, cv));
                }
                vstd::pervasive::unreached()
            },
        };
        let name = rel.lhs_name.clone();
        let ghost prev = commitment_points.deep_view();
        proof {
            assert(prev.len() == j2);
            assert(commitment_points@.len() == j2);
        }
        commitment_points.push((name, p));
        proof {
            let dv = commitment_points.deep_view();
            assert(dv.len() == j2 + 1);
            assert(dv[j2 as int] == (name@, p@));
            assert(dv[j2 as int] == commit_assign[j2 as int]);
            assert forall|k: int| 0 <= k < j2 + 1 implies dv[k] == commit_assign.take(j2 + 1)[k] by {
                if k < j2 {
                    assert(dv[k] == prev[k]);
                    assert(prev[k] == commit_assign.take(j2 as int)[k]);
                }
            }
            assert(commitment_points.deep_view() =~= commit_assign.take(j2 + 1));
        }
        j2 = j2 + 1;
    }
    proof {
        assert(commitment_points.deep_view() =~~= commit_assign);
    }

    // Order both point sets by instance variable for hashing.
    let ghost ordered_i = ordered_points(mv.vars.instance, inst_assign);
    let ghost ordered_c = ordered_points(mv.vars.instance, commit_assign);
    let mut insts_ordered: Vec<GroupPoint> = Vec::new();
    let mut commits_ordered: Vec<GroupPoint> = Vec::new();
    let mut v: usize = 0;
    while v < model.vars.instance_var.len()
        invariant
            v <= mv.vars.instance.len(),
            mv =~= model@,
            model.wf(),
            instance_points.deep_view() =~~= inst_assign,
            commitment_points.deep_view() =~~= commit_assign,
            inst_assign.len() == mv.relations.len(),
            commit_assign.len() == mv.relations.len(),
            forall|k: int| 0 <= k < inst_assign.len() ==> (#[trigger] inst_assign[k]).0
                == mv.relations[k].lhs,
            forall|k: int| 0 <= k < commit_assign.len() ==> (#[trigger] commit_assign[k]).0
                == mv.relations[k].lhs,
            ordered_i =~= ordered_points(mv.vars.instance, inst_assign),
            ordered_c =~= ordered_points(mv.vars.instance, commit_assign),
            insts_ordered.deep_view() =~~= ordered_i.take(v as int),
            commits_ordered.deep_view() =~~= ordered_c.take(v as int),
        decreases mv.vars.instance.len() - v,
    {
        let name = &model.vars.instance_var[v];
        proof {
            assert(name@ == mv.vars.instance[v as int]);
            assert(crate::model::lhs_names(mv.relations).contains(mv.vars.instance[v as int]));
            let w = choose|w: int|
                0 <= w < mv.relations.len() && crate::model::lhs_names(mv.relations)[w]
                    == mv.vars.instance[v as int];
            assert(inst_assign[w].0 == name@);
            lemma_lookup_some(inst_assign, name@);
            assert(commit_assign[w].0 == name@);
            lemma_lookup_some(commit_assign, name@);
        }
        let ip = match lookup_point(&instance_points, name) {
            Some(p) => p.dup(),
            None => vstd::pervasive::unreached(),
        };
        let cp = match lookup_point(&commitment_points, name) {
            Some(p) => p.dup(),
            None => vstd::pervasive::unreached(),
        };
        let ghost prev_i = insts_ordered.deep_view();
        let ghost prev_c = commits_ordered.deep_view();
        proof {
            assert(prev_i.len() == v);
            assert(insts_ordered@.len() == v);
            assert(prev_c.len() == v);
            assert(commits_ordered@.len() == v);
        }
        insts_ordered.push(ip);
        commits_ordered.push(cp);
        proof {
            let di = insts_ordered.deep_view();
            assert(di.len() == v + 1);
            assert(di[v as int] == ordered_i[v as int]);
            assert forall|k: int| 0 <= k < v + 1 implies di[k] == ordered_i.take(v + 1)[k] by {
                if k < v {
                    assert(di[k] == prev_i[k]);
                    assert(prev_i[k] == ordered_i.take(v as int)[k]);
                }
            }
            assert(insts_ordered.deep_view() =~= ordered_i.take(v + 1));
            let dc = commits_ordered.deep_view();
            assert(dc.len() == v + 1);
            assert(dc[v as int] == ordered_c[v as int]);
            assert forall|k: int| 0 <= k < v + 1 implies dc[k] == ordered_c.take(v + 1)[k] by {
                if k < v {
                    assert(dc[k] == prev_c[k]);
                    assert(prev_c[k] == ordered_c.take(v as int)[k]);
                }
            }
            assert(commits_ordered.deep_view() =~= ordered_c.take(v + 1));
        }
        v = v + 1;
    }
    proof {
        assert(insts_ordered.deep_view() =~~= ordered_i);
        assert(commits_ordered.deep_view() =~~= ordered_c);
    }

    // Fiat-Shamir challenge over both point sets.
    let chal = match derive_challenge(&insts_ordered, &commits_ordered, &model.label) {
        Ok(c) => c,
        Err(e) => {
            proof {
                assert(any_infinite(ordered_i) || any_infinite(ordered_c));
                assert(hits_infinity(mv, sv, cv, bv));
            }
            return Err(e);
        },
    };
    proof {
        assert(!hits_infinity(mv, sv, cv, bv));
        assert(be_nat(chal@) == spec_challenge(mv.label, ordered_i, ordered_c));
    }

    // Responses: blind + challenge · secret, mod the group order.
    let mut responses: Vec<(String, Scalar)> = Vec::new();
    let mut s: usize = 0;
    while s < model.vars.secret_var.len()
        invariant
            s <= secret_names.len(),
            secret_names =~= model@.vars.secret,
            sv =~= secrets.deep_view(),
            bv =~= blinds.deep_view(),
            bv.len() == secret_names.len(),
            covers(secret_names, sv),
            responses.deep_view().len() == s,
            forall|k: int|
                0 <= k < s ==> {
                    &&& (#[trigger] responses.deep_view()[k]).0 == secret_names[k]
                    &&& sc_wf(responses.deep_view()[k].1)
                    &&& be_nat(responses.deep_view()[k].1) == (be_nat(bv[k]) + be_nat(chal@)
                        * be_nat(spec_lookup(sv, secret_names[k])->Some_0)) % group_order()
                },
        decreases secret_names.len() - s,
    {
        let name = &model.vars.secret_var[s];
        proof {
            assert(name@ == secret_names[s as int]);
            assert(spec_lookup(sv, secret_names[s as int]) is Some);
        }
        let x = match lookup_scalar(secrets, name) {
            Some(x) => x,
            None => vstd::pervasive::unreached(),
        };
        let m = scalar_mul(&chal, x);
        let resp = scalar_add(&blinds[s], &m);
        proof {
            lemma_add_mod_noop_right(
                be_nat(bv[s as int]) as int,
                (be_nat(chal@) * be_nat(x@)) as int,
                group_order() as int,
            );
            assert(be_nat(resp@) == (be_nat(bv[s as int]) + be_nat(chal@) * be_nat(x@))
                % group_order());
        }
        let ghost prev = responses.deep_view();
        proof {
            assert(prev.len() == s);
            assert(responses@.len() == s);
        }
        responses.push((name.clone(), resp));
        proof {
            let dv = responses.deep_view();
            assert(dv.len() == s + 1);
            assert(dv[s as int] == (name@, resp@));
            assert(forall|k: int| 0 <= k < s ==> dv[k] == prev[k]);
        }
        s = s + 1;
    }

    let t = ProofTranscript {
        challenge: chal,
        responses,
        instance_points,
        commitment_points,
    };
    proof {
        assert(t@.instances =~~= relation_points(mv.relations, sv, cv));
        assert(t@.commitments =~~= relation_points(mv.relations, blind_assign, cv));
        assert(ordered_points(mv.vars.instance, t@.instances) =~~= ordered_i);
        assert(ordered_points(mv.vars.instance, t@.commitments) =~~= ordered_c);
        assert(transcript_consistent(mv, sv, cv, bv, t@));
    }
    Ok(t)
}

/// Proves the statement: samples one fresh blinding scalar per secret
/// variable from the system's cryptographically secure source, then runs
/// the deterministic core. A returned transcript is consistent with the
/// model for the blinds that were drawn.
#[verifier::rlimit(60)]
pub fn prove(
    model: &StatementModel,
    secrets: &Vec<(String, Scalar)>,
    commons: &Vec<(String, GroupPoint)>,
) -> (r: Result<ProofTranscript, ProofError>)
    requires
        model.wf(),
    ensures
        r == Err::<ProofTranscript, ProofError>(ProofError::MissingVariable) <==> missing_inputs(
            model@,
            secrets.deep_view(),
            commons.deep_view(),
        ),
        r is Err ==> r->Err_0 == ProofError::MissingVariable || r->Err_0
            == ProofError::InvalidPoint,
        r is Ok ==> exists|blinds: Seq<Seq<u8>>|
            {
                &&& blinds.len() == model@.vars.secret.len()
                &&& forall|i: int| 0 <= i < blinds.len() ==> sc_wf(#[trigger] blinds[i])
                &&& transcript_consistent(
                    model@,
                    secrets.deep_view(),
                    commons.deep_view(),
                    blinds,
                    r->Ok_0@,
                )
            },
        r is Ok ==> forall|j: int|
            0 <= j < r->Ok_0@.instances.len() ==> pv_wf((#[trigger] r->Ok_0@.instances[j]).1)
                && pv_wf(r->Ok_0@.commitments[j].1),
{
    let mut blinds: Vec<Scalar> = Vec::new();
    let mut i: usize = 0;
    while i < model.vars.secret_var.len()
        invariant
            i <= model@.vars.secret.len(),
            blinds@.len() == i,
            forall|k: int| 0 <= k < i ==> (#[trigger] blinds@[k]).wf(),
        decreases model@.vars.secret.len() - i,
    {
        blinds.push(random_scalar());
        i = i + 1;
    }
    let r = prove_with_blinds(model, secrets, commons, &blinds);
    proof {
        if r is Ok {
            let bv = blinds.deep_view();
            assert(forall|k: int| 0 <= k < bv.len() ==> sc_wf(#[trigger] bv[k]));
            assert(transcript_consistent(
                model@,
                secrets.deep_view(),
                commons.deep_view(),
                bv,
                r->Ok_0@,
            ));
        }
    }
    r
}

} // verus!
