//! Executable counterparts of the two emitted verifier encodings, over the
//! same byte-level point encodings the emitted code works on: the batchable
//! check recomputes the challenge and tests every relation's equation; the
//! compact check derives each commitment algebraically and tests the
//! recomputed challenge against the given one.

use vstd::prelude::*;

use crate::challenge::{any_infinite, derive_challenge, spec_challenge};
use crate::eval::{all_terms_defined, eval_relation, evaluate, lookup_point, spec_lookup};
use crate::group::{
    add_points, bytes_eq, lemma_scalar_bytes_canonical, nat_to_be, neg_point, points_eq, scale,
};
use crate::group::{be_nat, GroupPoint, PointVal, Scalar};
use crate::model::{ModelV, RelationV, StatementModel};
use crate::prover::{covers, ordered_points, ProofTranscript, TranscriptV};
use crate::ProofError;

verus! {

/// The canonical bytes of the challenge derived from a transcript's two
/// point sets, in instance-variable order.
pub open spec fn derived_challenge_bytes(mv: ModelV, t: TranscriptV) -> Seq<u8> {
    nat_to_be(
        spec_challenge(
            mv.label,
            ordered_points(mv.vars.instance, t.instances),
            ordered_points(mv.vars.instance, t.commitments),
        ),
        32,
    )
}

/// The point assignment the verifier evaluates terms against: the common
/// parameters, then the instance points.
pub open spec fn verifier_points(cv: Seq<(Seq<char>, PointVal)>, t: TranscriptV) -> Seq<
    (Seq<char>, PointVal),
> {
    cv + t.instances
}

/// One relation's batchable equation: the response combination equals the
/// commitment point plus challenge times the instance point.
pub open spec fn relation_equation(
    rel: RelationV,
    t: TranscriptV,
    cv: Seq<(Seq<char>, PointVal)>,
    cbytes: Seq<u8>,
) -> bool {
    eval_relation(rel, t.responses, verifier_points(cv, t)) == crate::group::pt_add(
        spec_lookup(t.commitments, rel.lhs)->Some_0,
        crate::group::pt_scale(cbytes, spec_lookup(t.instances, rel.lhs)->Some_0),
    )
}

/// The batchable outcome: every relation's equation holds under the
/// recomputed challenge.
pub open spec fn spec_batchable_holds(
    mv: ModelV,
    t: TranscriptV,
    cv: Seq<(Seq<char>, PointVal)>,
) -> bool {
    forall|j: int|
        0 <= j < mv.relations.len() ==> relation_equation(
            #[trigger] mv.relations[j],
            t,
            cv,
            derived_challenge_bytes(mv, t),
        )
}

/// Both point sets have an entry for every instance variable.
pub open spec fn points_covered(mv: ModelV, t: TranscriptV) -> bool {
    &&& covers(mv.vars.instance, t.instances)
    &&& covers(mv.vars.instance, t.commitments)
}

/// Some term of some relation is unbound under the verifier's assignments.
pub open spec fn verifier_term_undefined(
    mv: ModelV,
    t: TranscriptV,
    cv: Seq<(Seq<char>, PointVal)>,
) -> bool {
    exists|j: int|
        0 <= j < mv.relations.len() && !all_terms_defined(
            mv.relations[j].terms,
            t.responses,
            verifier_points(cv, t),
        )
}

/// Some hashed point, in instance-variable order, is the point at infinity.
pub open spec fn verifier_hits_infinity(mv: ModelV, t: TranscriptV) -> bool {
    ||| any_infinite(ordered_points(mv.vars.instance, t.instances))
    ||| any_infinite(ordered_points(mv.vars.instance, t.commitments))
}

/// Checks the batchable verification equations against a transcript. The
/// outcome mirrors the emitted batchable program: the challenge is
/// recomputed from the transcript's two point sets, and every relation's
/// equation is tested on normalized encodings.
pub fn verify_batchable(
    model: &StatementModel,
    transcript: &ProofTranscript,
    commons: &Vec<(String, GroupPoint)>,
) -> (r: Result<bool, ProofError>)
    requires
        model.wf(),
    ensures
        r == Err::<bool, ProofError>(ProofError::MissingVariable) <==> !points_covered(
            model@,
            transcript@,
        ) || verifier_term_undefined(model@, transcript@, commons.deep_view()),
        r == Err::<bool, ProofError>(ProofError::InvalidPoint) <==> points_covered(
            model@,
            transcript@,
        ) && !verifier_term_undefined(model@, transcript@, commons.deep_view())
            && verifier_hits_infinity(model@, transcript@),
        r is Ok ==> r->Ok_0 == spec_batchable_holds(model@, transcript@, commons.deep_view()),
{
    let ghost mv = model@;
    let ghost t = transcript@;
    let ghost cv = commons.deep_view();

    // The combined point assignment: commons first, then instance points.
    let ghost vp = verifier_points(cv, t);
    let mut points: Vec<(String, GroupPoint)> = Vec::new();
    let mut a: usize = 0;
    while a < commons.len()
        invariant
            a <= cv.len(),
            cv =~= commons.deep_view(),
            points.deep_view() =~~= cv.take(a as int),
        decreases cv.len() - a,
    {
        let ghost prev = points.deep_view();
        proof {
            assert(prev.len() == a);
            assert(points@.len() == a);
        }
        let entry = (commons[a].0.clone(), commons[a].1.dup());
        points.push(entry);
        proof {
            let dv = points.deep_view();
            assert(dv.len() == a + 1);
            assert(dv[a as int] == cv[a as int]);
            assert forall|k: int| 0 <= k < a + 1 implies dv[k] == cv.take(a + 1)[k] by {
                if k < a {
                    assert(dv[k] == prev[k]);
                }
            }
            assert(points.deep_view() =~= cv.take(a + 1));
        }
        a = a + 1;
    }
    let mut a2: usize = 0;
    while a2 < transcript.instance_points.len()
        invariant
            a2 <= t.instances.len(),
            cv =~= commons.deep_view(),
            t =~= transcript@,
            points.deep_view() =~~= cv + t.instances.take(a2 as int),
        decreases t.instances.len() - a2,
    {
        let ghost prev = points.deep_view();
        proof {
            assert(prev.len() == cv.len() + a2);
            assert(points@.len() == cv.len() + a2);
        }
        let entry = (
            transcript.instance_points[a2].0.clone(),
            transcript.instance_points[a2].1.dup(),
        );
        points.push(entry);
        proof {
            let dv = points.deep_view();
            assert(dv.len() == cv.len() + a2 + 1);
            assert(dv[(cv.len() + a2) as int] == t.instances[a2 as int]);
            assert forall|k: int|
                0 <= k < dv.len() implies dv[k] == (cv + t.instances.take(a2 + 1))[k] by {
                if k < cv.len() + a2 {
                    assert(dv[k] == prev[k]);
                    assert(prev[k] == (cv + t.instances.take(a2 as int))[k]);
                }
            }
            assert(points.deep_view() =~= cv + t.instances.take(a2 + 1));
        }
        a2 = a2 + 1;
    }
    proof {
        assert(t.instances.take(t.instances.len() as int) =~= t.instances);
        assert(points.deep_view() =~~= vp);
    }

    // Order both point sets by instance variable for the hash.
    let ghost ordered_i = ordered_points(mv.vars.instance, t.instances);
    let ghost ordered_c = ordered_points(mv.vars.instance, t.commitments);
    let mut insts_ordered: Vec<GroupPoint> = Vec::new();
    let mut commits_ordered: Vec<GroupPoint> = Vec::new();
    let mut v: usize = 0;
    while v < model.vars.instance_var.len()
        invariant
            v <= mv.vars.instance.len(),
            mv =~= model@,
            t =~= transcript@,
            ordered_i =~= ordered_points(mv.vars.instance, t.instances),
            ordered_c =~= ordered_points(mv.vars.instance, t.commitments),
            forall|k: int|
                0 <= k < v ==> spec_lookup(t.instances, #[trigger] mv.vars.instance[k]) is Some
                    && spec_lookup(t.commitments, mv.vars.instance[k]) is Some,
            insts_ordered.deep_view() =~~= ordered_i.take(v as int),
            commits_ordered.deep_view() =~~= ordered_c.take(v as int),
        decreases mv.vars.instance.len() - v,
    {
        let name = &model.vars.instance_var[v];
        proof {
            assert(name@ == mv.vars.instance[v as int]);
        }
        let ip = match lookup_point(&transcript.instance_points, name) {
            Some(p) => p.dup(),
            None => {
                proof {
                    assert(!covers(mv.vars.instance, t.instances));
                }
                return Err(ProofError::MissingVariable);
            },
        };
        let cp = match lookup_point(&transcript.commitment_points, name) {
            Some(p) => p.dup(),
            None => {
                proof {
                    assert(!covers(mv.vars.instance, t.commitments));
                }
                return Err(ProofError::MissingVariable);
            },
        };
        let ghost prev_i = insts_ordered.deep_view();
        let ghost prev_c = commits_ordered.deep_view();
        proof {
            assert(prev_i.len() == v);
            assert(insts_ordered@.len() == v);
            assert(prev_c.len() == v);
            assert(commits_ordered@.len() == v);
        }
        insts_ordered.push(ip);
        commits_ordered.push(cp);
        proof {
            let di = insts_ordered.deep_view();
            assert(di.len() == v + 1);
            assert(di[v as int] == ordered_i[v as int]);
            assert forall|k: int| 0 <= k < v + 1 implies di[k] == ordered_i.take(v + 1)[k] by {
                if k < v {
                    assert(di[k] == prev_i[k]);
                    assert(prev_i[k] == ordered_i.take(v as int)[k]);
                }
            }
            assert(insts_ordered.deep_view() =~= ordered_i.take(v + 1));
            let dc = commits_ordered.deep_view();
            assert(dc.len() == v + 1);
            assert(dc[v as int] == ordered_c[v as int]);
            assert forall|k: int| 0 <= k < v + 1 implies dc[k] == ordered_c.take(v + 1)[k] by {
                if k < v {
                    assert(dc[k] == prev_c[k]);
                    assert(prev_c[k] == ordered_c.take(v as int)[k]);
                }
            }
            assert(commits_ordered.deep_view() =~= ordered_c.take(v + 1));
        }
        v = v + 1;
    }
    proof {
        assert(covers(mv.vars.instance, t.instances));
        assert(covers(mv.vars.instance, t.commitments));
        assert(insts_ordered.deep_view() =~~= ordered_i);
        assert(commits_ordered.deep_view() =~~= ordered_c);
    }

    // Evaluate every relation's left-hand side first, so that an unbound
    // term is reported before an unhashable point.
    let mut lhs_points: Vec<GroupPoint> = Vec::new();
    let mut j: usize = 0;
    while j < model.relations.len()
        invariant
            j <= mv.relations.len(),
            mv =~= model@,
            model.wf(),
            t =~= transcript@,
            cv =~= commons.deep_view(),
            vp =~= verifier_points(cv, t),
            points.deep_view() =~~= vp,
            lhs_points@.len() == j,
            forall|k: int| 0 <= k < j ==> all_terms_defined(
                (#[trigger] mv.relations[k]).terms,
                t.responses,
                vp,
            ) && lhs_points@[k]@ == eval_relation(mv.relations[k], t.responses, vp),
        decreases mv.relations.len() - j,
    {
        let rel = &model.relations[j];
        proof {
            assert(rel@ =~= mv.relations[j as int]);
            assert(rel@.terms.len() > 0);
        }
        let p = match evaluate(rel, &transcript.responses, &points) {
            Ok(p) => p,
            Err(_) => {
                proof {
                    assert(!all_terms_defined(mv.relations[j as int].terms, t.responses, vp));
                    assert(verifier_term_undefined(mv, t, cv));
                }
                return Err(ProofError::MissingVariable);
            },
        };
        lhs_points.push(p);
        j = j + 1;
    }
    proof {
        assert(!verifier_term_undefined(mv, t, cv));
    }

    // Recompute the challenge from the transcript's two point sets.
    let chal = match derive_challenge(&insts_ordered, &commits_ordered, &model.label) {
        Ok(c) => c,
        Err(e) => {
            proof {
                assert(verifier_hits_infinity(mv, t));
            }
            return Err(e);
        },
    };
    proof {
        assert(!verifier_hits_infinity(mv, t));
        assert(be_nat(chal@) == spec_challenge(mv.label, ordered_i, ordered_c));
        lemma_scalar_bytes_canonical(chal@);
        assert(chal@ =~= derived_challenge_bytes(mv, t));
    }

    // Test every relation's equation on normalized encodings.
    let mut all_hold = true;
    let mut j2: usize = 0;
    while j2 < model.relations.len()
        invariant
            j2 <= mv.relations.len(),
            mv =~= model@,
            model.wf(),
            t =~= transcript@,
            cv =~= commons.deep_view(),
            vp =~= verifier_points(cv, t),
            chal@ =~= derived_challenge_bytes(mv, t),
            covers(mv.vars.instance, t.instances),
            covers(mv.vars.instance, t.commitments),
            lhs_points@.len() == mv.relations.len(),
            forall|k: int| 0 <= k < mv.relations.len() ==> lhs_points@[k]@ == eval_relation(
                #[trigger] mv.relations[k],
                t.responses,
                vp,
            ),
            all_hold == forall|k: int|
                0 <= k < j2 ==> relation_equation(
                    #[trigger] mv.relations[k],
                    t,
                    cv,
                    derived_challenge_bytes(mv, t),
                ),
        decreases mv.relations.len() - j2,
    {
        let rel = &model.relations[j2];
        proof {
            assert(rel@ =~= mv.relations[j2 as int]);
            assert(mv.vars.instance.contains(rel@.lhs)) by {
                assert(!crate::model::has_unknown_reference(mv.vars, mv.relations));
            }
            let w = choose|w: int|
                0 <= w < mv.vars.instance.len() && mv.vars.instance[w] == rel@.lhs;
            assert(spec_lookup(t.instances, rel@.lhs) is Some);
            assert(spec_lookup(t.commitments, rel@.lhs) is Some);
        }
        let inst = match lookup_point(&transcript.instance_points, &rel.lhs_name) {
            Some(p) => p,
            None => vstd::pervasive::unreached(),
        };
        let commit = match lookup_point(&transcript.commitment_points, &rel.lhs_name) {
            Some(p) => p,
            None => vstd::pervasive::unreached(),
        };
        let scaled = scale(&chal, inst);
        let rhs = add_points(commit, &scaled);
        let holds = points_eq(&lhs_points[j2], &rhs);
        proof {
            assert(holds == relation_equation(
                mv.relations[j2 as int],
                t,
                cv,
                derived_challenge_bytes(mv, t),
            ));
        }
        all_hold = all_hold && holds;
        j2 = j2 + 1;
    }
    Ok(all_hold)
}

/// The derived commitment assignment the compact verifier reconstructs:
/// each relation's left-hand side evaluation, minus the given challenge
/// times its instance point.
pub open spec fn compact_commitments(
    mv: ModelV,
    chal: Seq<u8>,
    responses: Seq<(Seq<char>, Seq<u8>)>,
    insts: Seq<(Seq<char>, PointVal)>,
    cv: Seq<(Seq<char>, PointVal)>,
) -> Seq<(Seq<char>, PointVal)> {
    Seq::new(
        mv.relations.len(),
        |j: int|
            (
                mv.relations[j].lhs,
                crate::group::pt_add(
                    eval_relation(mv.relations[j], responses, cv + insts),
                    crate::group::pt_neg(
                        crate::group::pt_scale(chal, spec_lookup(insts, mv.relations[j].lhs)->Some_0),
                    ),
                ),
            ),
    )
}

/// The value of the challenge the compact verifier recomputes.
pub open spec fn compact_challenge_val(
    mv: ModelV,
    chal: Seq<u8>,
    responses: Seq<(Seq<char>, Seq<u8>)>,
    insts: Seq<(Seq<char>, PointVal)>,
    cv: Seq<(Seq<char>, PointVal)>,
) -> nat {
    spec_challenge(
        mv.label,
        ordered_points(mv.vars.instance, insts),
        ordered_points(mv.vars.instance, compact_commitments(mv, chal, responses, insts, cv)),
    )
}

/// Some reference the compact verifier needs is unbound: a term of some
/// relation, or some instance variable's point.
pub open spec fn compact_missing(
    mv: ModelV,
    responses: Seq<(Seq<char>, Seq<u8>)>,
    insts: Seq<(Seq<char>, PointVal)>,
    cv: Seq<(Seq<char>, PointVal)>,
) -> bool {
    ||| exists|j: int|
        0 <= j < mv.relations.len() && !all_terms_defined(
            mv.relations[j].terms,
            responses,
            cv + insts,
        )
    ||| !covers(mv.vars.instance, insts)
}

/// Some hashed point, in instance-variable order, is the point at
/// infinity: a supplied instance point, or a derived commitment.
pub open spec fn compact_hits_infinity(
    mv: ModelV,
    chal: Seq<u8>,
    responses: Seq<(Seq<char>, Seq<u8>)>,
    insts: Seq<(Seq<char>, PointVal)>,
    cv: Seq<(Seq<char>, PointVal)>,
) -> bool {
    ||| any_infinite(ordered_points(mv.vars.instance, insts))
    ||| any_infinite(
        ordered_points(mv.vars.instance, compact_commitments(mv, chal, responses, insts, cv)),
    )
}

/// When the compact verifier's derived commitments coincide with a
/// transcript's commitment points entry for entry, the challenge it
/// recomputes is exactly the challenge the batchable verifier derives from
/// that transcript: the two encodings then accept or reject together on the
/// challenge comparison. This is the hash-level half of the encodings'
/// agreement; the algebraic half rests on the curve library.
pub proof fn lemma_encodings_agree_on_commitments(
    mv: ModelV,
    t: TranscriptV,
    cv: Seq<(Seq<char>, PointVal)>,
)
    requires
        compact_commitments(mv, derived_challenge_bytes(mv, t), t.responses, t.instances, cv)
            =~~= t.commitments,
    ensures
        compact_challenge_val(
            mv,
            derived_challenge_bytes(mv, t),
            t.responses,
            t.instances,
            cv,
        ) == spec_challenge(
            mv.label,
            ordered_points(mv.vars.instance, t.instances),
            ordered_points(mv.vars.instance, t.commitments),
        ),
{
}

/// Checks the compact verification procedure: derives each commitment as
/// `lhs - challenge·instance`, recomputes the challenge over the derived
/// commitments, and accepts exactly when it matches the given challenge's
/// value.
pub fn verify_compact(
    model: &StatementModel,
    challenge: &Scalar,
    responses: &Vec<(String, Scalar)>,
    instance_points: &Vec<(String, GroupPoint)>,
    commons: &Vec<(String, GroupPoint)>,
) -> (r: Result<bool, ProofError>)
    requires
        model.wf(),
        challenge.wf(),
    ensures
        r == Err::<bool, ProofError>(ProofError::MissingVariable) <==> compact_missing(
            model@,
            responses.deep_view(),
            instance_points.deep_view(),
            commons.deep_view(),
        ),
        r == Err::<bool, ProofError>(ProofError::InvalidPoint) <==> !compact_missing(
            model@,
            responses.deep_view(),
            instance_points.deep_view(),
            commons.deep_view(),
        ) && compact_hits_infinity(
            model@,
            challenge@,
            responses.deep_view(),
            instance_points.deep_view(),
            commons.deep_view(),
        ),
        r is Ok ==> r->Ok_0 == (be_nat(challenge@) == compact_challenge_val(
            model@,
            challenge@,
            responses.deep_view(),
            instance_points.deep_view(),
            commons.deep_view(),
        )),
{
    let ghost mv = model@;
    let ghost rv = responses.deep_view();
    let ghost iv = instance_points.deep_view();
    let ghost cv = commons.deep_view();

    // The combined point assignment: commons first, then instance points.
    let mut points: Vec<(String, GroupPoint)> = Vec::new();
    let mut a: usize = 0;
    while a < commons.len()
        invariant
            a <= cv.len(),
            cv =~= commons.deep_view(),
            points.deep_view() =~~= cv.take(a as int),
        decreases cv.len() - a,
    {
        let ghost prev = points.deep_view();
        proof {
            assert(prev.len() == a);
            assert(points@.len() == a);
        }
        let entry = (commons[a].0.clone(), commons[a].1.dup());
        points.push(entry);
        proof {
            let dv = points.deep_view();
            assert(dv.len() == a + 1);
            assert(dv[a as int] == cv[a as int]);
            assert forall|k: int| 0 <= k < a + 1 implies dv[k] == cv.take(a + 1)[k] by {
                if k < a {
                    assert(dv[k] == prev[k]);
                }
            }
            assert(points.deep_view() =~= cv.take(a + 1));
        }
        a = a + 1;
    }
    let mut a2: usize = 0;
    while a2 < instance_points.len()
        invariant
            a2 <= iv.len(),
            cv =~= commons.deep_view(),
            iv =~= instance_points.deep_view(),
            points.deep_view() =~~= cv + iv.take(a2 as int),
        decreases iv.len() - a2,
    {
        let ghost prev = points.deep_view();
        proof {
            assert(prev.len() == cv.len() + a2);
            assert(points@.len() == cv.len() + a2);
        }
        let entry = (instance_points[a2].0.clone(), instance_points[a2].1.dup());
        points.push(entry);
        proof {
            let dv = points.deep_view();
            assert(dv.len() == cv.len() + a2 + 1);
            assert(dv[(cv.len() + a2) as int] == iv[a2 as int]);
            assert forall|k: int| 0 <= k < dv.len() implies dv[k] == (cv + iv.take(a2 + 1))[k] by {
                if k < cv.len() + a2 {
                    assert(dv[k] == prev[k]);
                    assert(prev[k] == (cv + iv.take(a2 as int))[k]);
                }
            }
            assert(points.deep_view() =~= cv + iv.take(a2 + 1));
        }
        a2 = a2 + 1;
    }
    proof {
        assert(iv.take(iv.len() as int) =~= iv);
        assert(points.deep_view() =~~= cv + iv);
    }

    // Derive each relation's commitment: lhs - challenge·instance.
    let ghost cc = compact_commitments(mv, challenge@, rv, iv, cv);
    let mut derived: Vec<(String, GroupPoint)> = Vec::new();
    let mut j: usize = 0;
    while j < model.relations.len()
        invariant
            j <= mv.relations.len(),
            mv =~= model@,
            model.wf(),
            rv =~= responses.deep_view(),
            iv =~= instance_points.deep_view(),
            cv =~= commons.deep_view(),
            points.deep_view() =~~= cv + iv,
            cc =~= compact_commitments(mv, challenge@, rv, iv, cv),
            derived.deep_view() =~~= cc.take(j as int),
            forall|k: int|
                0 <= k < j ==> all_terms_defined((#[trigger] mv.relations[k]).terms, rv, cv + iv)
                    && spec_lookup(iv, mv.relations[k].lhs) is Some,
        decreases mv.relations.len() - j,
    {
        let rel = &model.relations[j];
        proof {
            assert(rel@ =~= mv.relations[j as int]);
            assert(rel@.terms.len() > 0);
        }
        let lhs = match evaluate(rel, responses, &points) {
            Ok(p) => p,
            Err(_) => {
                proof {
                    assert(!all_terms_defined(mv.relations[j as int].terms, rv, cv + iv));
                    assert(compact_missing(mv, rv, iv, cv));
                }
                return Err(ProofError::MissingVariable);
            },
        };
        let inst = match lookup_point(instance_points, &rel.lhs_name) {
            Some(p) => p,
            None => {
                proof {
                    assert(mv.vars.instance.contains(rel@.lhs)) by {
                        assert(!crate::model::has_unknown_reference(mv.vars, mv.relations));
                    }
                    let w = choose|w: int|
                        0 <= w < mv.vars.instance.len() && mv.vars.instance[w] == rel@.lhs;
                    assert(spec_lookup(iv, mv.vars.instance[w]) is None);
                    assert(!covers(mv.vars.instance, iv));
                    assert(compact_missing(mv, rv, iv, cv));
                }
                return Err(ProofError::MissingVariable);
            },
        };
        let scaled = scale(challenge, inst);
        let negated = neg_point(&scaled);
        let commit = add_points(&lhs, &negated);
        let name = rel.lhs_name.clone();
        let ghost prev = derived.deep_view();
        proof {
            assert(prev.len() == j);
            assert(derived@.len() == j);
        }
        derived.push((name, commit));
        proof {
            let dv = derived.deep_view();
            assert(dv.len() == j + 1);
            assert(dv[j as int] == cc[j as int]);
            assert forall|k: int| 0 <= k < j + 1 implies dv[k] == cc.take(j + 1)[k] by {
                if k < j {
                    assert(dv[k] == prev[k]);
                    assert(prev[k] == cc.take(j as int)[k]);
                }
            }
            assert(derived.deep_view() =~= cc.take(j + 1));
        }
        j = j + 1;
    }
    proof {
        assert(derived.deep_view() =~~= cc);
        assert forall|w: int| 0 <= w < mv.vars.instance.len() implies spec_lookup(
            iv,
            #[trigger] mv.vars.instance[w],
        ) is Some by {
            assert(crate::model::lhs_names(mv.relations).contains(mv.vars.instance[w]));
            let k = choose|k: int|
                0 <= k < mv.relations.len() && crate::model::lhs_names(mv.relations)[k]
                    == mv.vars.instance[w];
            assert(spec_lookup(iv, mv.relations[k].lhs) is Some);
        }
        assert(covers(mv.vars.instance, iv));
        assert(!compact_missing(mv, rv, iv, cv));
    }

    // Order instance and derived commitment points by instance variable.
    let ghost ordered_i = ordered_points(mv.vars.instance, iv);
    let ghost ordered_c = ordered_points(mv.vars.instance, cc);
    let mut insts_ordered: Vec<GroupPoint> = Vec::new();
    let mut commits_ordered: Vec<GroupPoint> = Vec::new();
    let mut v: usize = 0;
    while v < model.vars.instance_var.len()
        invariant
            v <= mv.vars.instance.len(),
            mv =~= model@,
            model.wf(),
            iv =~= instance_points.deep_view(),
            derived.deep_view() =~~= cc,
            cc =~= compact_commitments(mv, challenge@, rv, iv, cv),
            cc.len() == mv.relations.len(),
            forall|k: int| 0 <= k < cc.len() ==> (#[trigger] cc[k]).0 == mv.relations[k].lhs,
            covers(mv.vars.instance, iv),
            ordered_i =~= ordered_points(mv.vars.instance, iv),
            ordered_c =~= ordered_points(mv.vars.instance, cc),
            insts_ordered.deep_view() =~~= ordered_i.take(v as int),
            commits_ordered.deep_view() =~~= ordered_c.take(v as int),
        decreases mv.vars.instance.len() - v,
    {
        let name = &model.vars.instance_var[v];
        proof {
            assert(name@ == mv.vars.instance[v as int]);
            assert(spec_lookup(iv, mv.vars.instance[v as int]) is Some);
            assert(crate::model::lhs_names(mv.relations).contains(mv.vars.instance[v as int]));
            let k = choose|k: int|
                0 <= k < mv.relations.len() && crate::model::lhs_names(mv.relations)[k]
                    == mv.vars.instance[v as int];
            assert(cc[k].0 == name@);
            crate::eval::lemma_lookup_some(cc, name@);
        }
        let ip = match lookup_point(instance_points, name) {
            Some(p) => p.dup(),
            None => vstd::pervasive::unreached(),
        };
        let cp = match lookup_point(&derived, name) {
            Some(p) => p.dup(),
            None => vstd::pervasive::unreached(),
        };
        let ghost prev_i = insts_ordered.deep_view();
        let ghost prev_c = commits_ordered.deep_view();
        proof {
            assert(prev_i.len() == v);
            assert(insts_ordered@.len() == v);
            assert(prev_c.len() == v);
            assert(commits_ordered@.len() == v);
        }
        insts_ordered.push(ip);
        commits_ordered.push(cp);
        proof {
            let di = insts_ordered.deep_view();
            assert(di.len() == v + 1);
            assert(di[v as int] == ordered_i[v as int]);
            assert forall|k: int| 0 <= k < v + 1 implies di[k] == ordered_i.take(v + 1)[k] by {
                if k < v {
                    assert(di[k] == prev_i[k]);
                    assert(prev_i[k] == ordered_i.take(v as int)[k]);
                }
            }
            assert(insts_ordered.deep_view() =~= ordered_i.take(v + 1));
            let dc = commits_ordered.deep_view();
            assert(dc.len() == v + 1);
            assert(dc[v as int] == ordered_c[v as int]) by {
                assert(spec_lookup(derived.deep_view(), name@) == spec_lookup(cc, name@));
            }
            assert forall|k: int| 0 <= k < v + 1 implies dc[k] == ordered_c.take(v + 1)[k] by {
                if k < v {
                    assert(dc[k] == prev_c[k]);
                    assert(prev_c[k] == ordered_c.take(v as int)[k]);
                }
            }
            assert(commits_ordered.deep_view() =~= ordered_c.take(v + 1));
        }
        v = v + 1;
    }
    proof {
        assert(insts_ordered.deep_view() =~~= ordered_i);
        assert(commits_ordered.deep_view() =~~= ordered_c);
    }

    // Recompute the challenge over the derived commitments and compare.
    let recomputed = match derive_challenge(&insts_ordered, &commits_ordered, &model.label) {
        Ok(c) => c,
        Err(e) => {
            proof {
                assert(compact_hits_infinity(mv, challenge@, rv, iv, cv));
            }
            return Err(e);
        },
    };
    proof {
        assert(!compact_hits_infinity(mv, challenge@, rv, iv, cv));
    }
    proof {
        assert(be_nat(recomputed@) == compact_challenge_val(mv, challenge@, rv, iv, cv));
        lemma_scalar_bytes_canonical(recomputed@);
        lemma_scalar_bytes_canonical(challenge@);
        if be_nat(challenge@) == be_nat(recomputed@) {
            assert(challenge@ =~= recomputed@);
        }
    }
    Ok(bytes_eq(&challenge.bytes, &recomputed.bytes))
}

} // verus!
