//! Evaluation of one relation's term list against concrete variable
//! assignments: the first term seeds an accumulator with multiplier·point,
//! each later term's multiplier·point is added to it.

use vstd::prelude::*;

use crate::group::{add_points, scale, GroupPoint, PointVal, Scalar};
use crate::group::{pt_add, pt_scale};
use crate::model::{Relation, RelationV, TermV};
use crate::ProofError;

verus! {

/// The accumulator after the first `n` of the scalar/point pairs: the first
/// pair seeds it with its scalar multiple, each later pair's scalar multiple
/// is added on the right.
pub open spec fn msm_val(terms: Seq<(Seq<u8>, PointVal)>, n: int) -> PointVal
    decreases n,
{
    if n <= 1 {
        pt_scale(terms[0].0, terms[0].1)
    } else {
        pt_add(msm_val(terms, n - 1), pt_scale(terms[n - 1].0, terms[n - 1].1))
    }
}

/// The first value at key `k` in the association list, searching from
/// index `i` on.
pub open spec fn first_match<V>(m: Seq<(Seq<char>, V)>, k: Seq<char>, i: int) -> Option<V>
    decreases m.len() - i,
{
    if i < 0 || i >= m.len() {
        None
    } else if m[i].0 == k {
        Some(m[i].1)
    } else {
        first_match(m, k, i + 1)
    }
}

/// The value bound to `k` in the association list: the first match, or
/// nothing.
pub open spec fn spec_lookup<V>(m: Seq<(Seq<char>, V)>, k: Seq<char>) -> Option<V> {
    first_match(m, k, 0)
}

/// A lookup succeeds exactly when some entry carries the key.
pub proof fn lemma_first_match_some<V>(m: Seq<(Seq<char>, V)>, k: Seq<char>, i: int)
    requires
        0 <= i <= m.len(),
    ensures
        first_match(m, k, i) is Some <==> exists|j: int| i <= j < m.len() && m[j].0 == k,
    decreases m.len() - i,
{
    if i < m.len() {
        lemma_first_match_some(m, k, i + 1);
    }
}

/// A lookup succeeds exactly when some entry carries the key.
pub proof fn lemma_lookup_some<V>(m: Seq<(Seq<char>, V)>, k: Seq<char>)
    ensures
        spec_lookup(m, k) is Some <==> exists|j: int| 0 <= j < m.len() && m[j].0 == k,
{
    lemma_first_match_some(m, k, 0);
}

/// Finds the scalar bound to `k`.
pub fn lookup_scalar<'a>(m: &'a Vec<(String, Scalar)>, k: &String) -> (r: Option<&'a Scalar>)
    ensures
        match r {
            Some(s) => spec_lookup(m.deep_view(), k@) == Some(s@),
            None => spec_lookup(m.deep_view(), k@) is None,
        },
{
    let ghost mv = m.deep_view();
    let mut i: usize = 0;
    while i < m.len()
        invariant
            i <= m@.len(),
            mv =~= m.deep_view(),
            first_match(mv, k@, 0) == first_match(mv, k@, i as int),
        decreases m@.len() - i,
    {
        if m[i].0.eq(k) {
            proof {
                assert(mv[i as int].0 == k@);
            }
            return Some(&m[i].1);
        }
        proof {
            assert(mv[i as int].0 != k@);
        }
        i = i + 1;
    }
    None
}

/// Finds the point bound to `k`.
pub fn lookup_point<'a>(m: &'a Vec<(String, GroupPoint)>, k: &String) -> (r: Option<
    &'a GroupPoint,
>)
    ensures
        match r {
            Some(p) => spec_lookup(m.deep_view(), k@) == Some(p@),
            None => spec_lookup(m.deep_view(), k@) is None,
        },
{
    let ghost mv = m.deep_view();
    let mut i: usize = 0;
    while i < m.len()
        invariant
            i <= m@.len(),
            mv =~= m.deep_view(),
            first_match(mv, k@, 0) == first_match(mv, k@, i as int),
        decreases m@.len() - i,
    {
        if m[i].0.eq(k) {
            proof {
                assert(mv[i as int].0 == k@);
            }
            return Some(&m[i].1);
        }
        proof {
            assert(mv[i as int].0 != k@);
        }
        i = i + 1;
    }
    None
}

/// Both of a term's references are bound in the supplied assignments.
pub open spec fn term_defined(
    t: TermV,
    secrets: Seq<(Seq<char>, Seq<u8>)>,
    points: Seq<(Seq<char>, PointVal)>,
) -> bool {
    &&& spec_lookup(secrets, t.multiplier) is Some
    &&& spec_lookup(points, t.point) is Some
}

/// Every term of the list is bound in the supplied assignments.
pub open spec fn all_terms_defined(
    terms: Seq<TermV>,
    secrets: Seq<(Seq<char>, Seq<u8>)>,
    points: Seq<(Seq<char>, PointVal)>,
) -> bool {
    forall|i: int| 0 <= i < terms.len() ==> term_defined(terms[i], secrets, points)
}

/// The scalar/point pair a term resolves to.
pub open spec fn resolved_pair(
    t: TermV,
    secrets: Seq<(Seq<char>, Seq<u8>)>,
    points: Seq<(Seq<char>, PointVal)>,
) -> (Seq<u8>, PointVal) {
    (spec_lookup(secrets, t.multiplier)->Some_0, spec_lookup(points, t.point)->Some_0)
}

/// The whole term list, resolved in order.
pub open spec fn resolved_terms(
    terms: Seq<TermV>,
    secrets: Seq<(Seq<char>, Seq<u8>)>,
    points: Seq<(Seq<char>, PointVal)>,
) -> Seq<(Seq<u8>, PointVal)> {
    Seq::new(terms.len(), |i: int| resolved_pair(terms[i], secrets, points))
}

/// The point one relation evaluates to under the given assignments: the
/// left-to-right accumulation of its resolved terms. Meaningful only when
/// the term list is non-empty and every term is defined.
pub open spec fn eval_relation(
    rel: RelationV,
    secrets: Seq<(Seq<char>, Seq<u8>)>,
    points: Seq<(Seq<char>, PointVal)>,
) -> PointVal {
    msm_val(resolved_terms(rel.terms, secrets, points), rel.terms.len() as int)
}

/// The view of already-resolved scalar/point pairs.
pub open spec fn pairs_view(s: Seq<(Scalar, GroupPoint)>) -> Seq<(Seq<u8>, PointVal)> {
    Seq::new(s.len(), |i: int| (s[i].0@, s[i].1@))
}

/// Accumulates the scalar multiples of a resolved term list, left to right:
/// the first pair seeds the accumulator, each later pair's multiple is
/// added. An empty list yields the identity point.
pub fn compute_constraint(terms: Vec<(Scalar, GroupPoint)>) -> (r: GroupPoint)
    ensures
        r.wf(),
        terms@.len() == 0 ==> r.infinity,
        terms@.len() > 0 ==> r@ =~= msm_val(pairs_view(terms@), terms@.len() as int),
{
    let ghost tv = pairs_view(terms@);
    if terms.len() == 0 {
        return GroupPoint::identity();
    }
    let mut acc = scale(&terms[0].0, &terms[0].1);
    let mut i: usize = 1;
    while i < terms.len()
        invariant
            1 <= i <= terms@.len(),
            tv =~= pairs_view(terms@),
            acc.wf(),
            acc@ =~= msm_val(tv, i as int),
        decreases terms@.len() - i,
    {
        let t = scale(&terms[i].0, &terms[i].1);
        acc = add_points(&acc, &t);
        proof {
            assert(acc@ =~= msm_val(tv, i + 1));
        }
        i = i + 1;
    }
    acc
}

/// Evaluates one relation against the supplied assignments. Fails with
/// `EmptyRelation` on an empty term list (excluded by the statement-model
/// invariant, so a defensive fail-fast rather than a silent identity), and
/// with `MissingVariable` exactly when some term's reference is unbound.
pub fn evaluate(
    rel: &Relation,
    secrets: &Vec<(String, Scalar)>,
    points: &Vec<(String, GroupPoint)>,
) -> (r: Result<GroupPoint, ProofError>)
    ensures
        r is Ok <==> rel@.terms.len() > 0 && all_terms_defined(
            rel@.terms,
            secrets.deep_view(),
            points.deep_view(),
        ),
        r == Err::<GroupPoint, ProofError>(ProofError::EmptyRelation) <==> rel@.terms.len() == 0,
        r == Err::<GroupPoint, ProofError>(ProofError::MissingVariable) <==> rel@.terms.len() > 0
            && !all_terms_defined(rel@.terms, secrets.deep_view(), points.deep_view()),
        r is Ok ==> {
            let p = r->Ok_0;
            &&& p.wf()
            &&& p@ =~= eval_relation(rel@, secrets.deep_view(), points.deep_view())
        },
{
    let ghost sv = secrets.deep_view();
    let ghost pv = points.deep_view();
    let ghost tv = rel@.terms;
    let ghost resolved = resolved_terms(tv, sv, pv);
    if rel.terms.len() == 0 {
        return Err(ProofError::EmptyRelation);
    }
    let mut acc: Option<GroupPoint> = None;
    let mut i: usize = 0;
    while i < rel.terms.len()
        invariant
            i <= tv.len(),
            tv.len() > 0,
            tv =~= rel@.terms,
            sv =~= secrets.deep_view(),
            pv =~= points.deep_view(),
            resolved =~= resolved_terms(tv, sv, pv),
            forall|j: int| 0 <= j < i ==> term_defined(tv[j], sv, pv),
            i == 0 <==> acc is None,
            i > 0 ==> {
                let a = acc->Some_0;
                a.wf() && a@ =~= msm_val(resolved, i as int)
            },
        decreases tv.len() - i,
    {
        let t = &rel.terms[i];
        proof {
            assert(t@ =~= tv[i as int]);
        }
        let s = match lookup_scalar(secrets, &t.multiplier_name) {
            Some(s) => s,
            None => {
                proof {
                    assert(!term_defined(tv[i as int], sv, pv));
                }
                return Err(ProofError::MissingVariable);
            },
        };
        let p = match lookup_point(points, &t.point_name) {
            Some(p) => p,
            None => {
                proof {
                    assert(!term_defined(tv[i as int], sv, pv));
                }
                return Err(ProofError::MissingVariable);
            },
        };
        proof {
            assert(term_defined(tv[i as int], sv, pv));
            assert(resolved[i as int] == (s@, p@));
        }
        let scaled = scale(s, p);
        acc = match acc {
            None => Some(scaled),
            Some(a) => Some(add_points(&a, &scaled)),
        };
        proof {
            assert(acc->Some_0@ =~= msm_val(resolved, i + 1));
        }
        i = i + 1;
    }
    match acc {
        Some(a) => Ok(a),
        None => vstd::pervasive::unreached(),
    }
}

} // verus!
