//! The declarative statement: variable classes and named linear relations,
//! validated once at construction and immutable afterwards.

use vstd::prelude::*;

verus! {

/// One `multiplier · point` summand of a relation. The multiplier names a
/// secret variable; the point names a common or instance variable.
pub struct Term {
    pub point_name: String,
    pub multiplier_name: String,
}

/// The spec-level value of a term: the two identifiers.
#[verifier::ext_equal]
pub struct TermV {
    pub multiplier: Seq<char>,
    pub point: Seq<char>,
}

impl View for Term {
    type V = TermV;

    open spec fn view(&self) -> TermV {
        TermV { multiplier: self.multiplier_name@, point: self.point_name@ }
    }
}

/// The declared variables, one list of identifiers per class: secrets are
/// scalars, commons are public parameter points, instances are points each
/// produced by one relation.
pub struct Variables {
    pub secret_var: Vec<String>,
    pub common_var: Vec<String>,
    pub instance_var: Vec<String>,
}

/// The spec-level value of the variable declaration.
#[verifier::ext_equal]
pub struct VariablesV {
    pub secret: Seq<Seq<char>>,
    pub common: Seq<Seq<char>>,
    pub instance: Seq<Seq<char>>,
}

impl View for Variables {
    type V = VariablesV;

    open spec fn view(&self) -> VariablesV {
        VariablesV {
            secret: self.secret_var.deep_view(),
            common: self.common_var.deep_view(),
            instance: self.instance_var.deep_view(),
        }
    }
}

/// One linear relation: an instance variable on the left, a non-empty sum of
/// terms on the right.
pub struct Relation {
    pub lhs_name: String,
    pub terms: Vec<Term>,
}

/// The spec-level value of a relation.
#[verifier::ext_equal]
pub struct RelationV {
    pub lhs: Seq<char>,
    pub terms: Seq<TermV>,
}

impl View for Relation {
    type V = RelationV;

    open spec fn view(&self) -> RelationV {
        RelationV { lhs: self.lhs_name@, terms: self.terms.deep_view() }
    }
}

impl DeepView for Term {
    type V = TermV;

    open spec fn deep_view(&self) -> TermV {
        self@
    }
}

impl DeepView for Relation {
    type V = RelationV;

    open spec fn deep_view(&self) -> RelationV {
        self@
    }
}

/// A malformed declaration, detected when a `StatementModel` is built.
#[derive(PartialEq, Eq, Structural, Clone, Copy, Debug)]
pub enum SpecError {
    /// An identifier occurs twice within one variable class.
    DuplicateIdentifier,
    /// A relation's term list is empty.
    EmptyRelation,
    /// A term or a relation's left-hand side names an undeclared variable or
    /// one of the wrong class.
    UnknownVariable,
    /// The instance variables and the relations' left-hand sides do not
    /// match up one to one.
    BadInstanceDefinition,
}

/// No identifier occurs twice in the list.
pub open spec fn distinct_names(s: Seq<Seq<char>>) -> bool {
    forall|i: int, j: int| 0 <= i < j < s.len() ==> s[i] != s[j]
}

/// Some variable class declares an identifier twice.
pub open spec fn has_duplicate_class(v: VariablesV) -> bool {
    !distinct_names(v.secret) || !distinct_names(v.common) || !distinct_names(v.instance)
}

/// Some relation has an empty term list.
pub open spec fn has_empty_relation(rels: Seq<RelationV>) -> bool {
    exists|i: int| 0 <= i < rels.len() && rels[i].terms.len() == 0
}

/// A term's two references resolve to declared variables of the right
/// classes: the multiplier to a secret, the point to a common or an
/// instance variable.
pub open spec fn term_resolves(v: VariablesV, t: TermV) -> bool {
    &&& v.secret.contains(t.multiplier)
    &&& v.common.contains(t.point) || v.instance.contains(t.point)
}

/// Some term, or some relation's left-hand side, references an undeclared
/// variable or one of the wrong class.
pub open spec fn has_unknown_reference(v: VariablesV, rels: Seq<RelationV>) -> bool {
    exists|i: int|
        0 <= i < rels.len() && (!v.instance.contains(rels[i].lhs) || exists|j: int|
            0 <= j < rels[i].terms.len() && !term_resolves(v, rels[i].terms[j]))
}

/// The relations' left-hand sides, in declaration order.
pub open spec fn lhs_names(rels: Seq<RelationV>) -> Seq<Seq<char>> {
    rels.map_values(|r: RelationV| r.lhs)
}

/// The relations do not define each instance variable exactly once: a
/// left-hand side repeats (more than one defining relation), or some
/// instance variable is no relation's left-hand side (zero defining
/// relations).
pub open spec fn bad_instance_definitions(v: VariablesV, rels: Seq<RelationV>) -> bool {
    !distinct_names(lhs_names(rels)) || exists|i: int|
        0 <= i < v.instance.len() && !lhs_names(rels).contains(v.instance[i])
}

/// A well-formed declaration: distinct identifiers per class, no empty
/// relation, every reference resolved, and exactly one defining relation
/// per instance variable.
pub open spec fn valid_declaration(v: VariablesV, rels: Seq<RelationV>) -> bool {
    &&& !has_duplicate_class(v)
    &&& !has_empty_relation(rels)
    &&& !has_unknown_reference(v, rels)
    &&& !bad_instance_definitions(v, rels)
}

/// The validated protocol statement: variables, relations in declaration
/// order, and an optional domain-separation label that binds the
/// Fiat-Shamir challenge to this statement. Construction enforces
/// `valid_declaration`; the model is immutable afterwards.
pub struct StatementModel {
    pub vars: Variables,
    pub relations: Vec<Relation>,
    pub label: Option<String>,
}

/// The spec-level value of a statement model.
#[verifier::ext_equal]
pub struct ModelV {
    pub vars: VariablesV,
    pub relations: Seq<RelationV>,
    pub label: Option<Seq<char>>,
}

impl View for StatementModel {
    type V = ModelV;

    open spec fn view(&self) -> ModelV {
        ModelV {
            vars: self.vars@,
            relations: self.relations.deep_view(),
            label: match self.label {
                Some(l) => Some(l@),
                None => None,
            },
        }
    }
}

impl StatementModel {
    /// The construction invariant: the declaration held by the model is
    /// valid.
    pub open spec fn wf(&self) -> bool {
        valid_declaration(self@.vars, self@.relations)
    }

    /// Validates a declaration and builds the model. Exactly one outcome
    /// per declaration: the first failing check in the fixed order
    /// duplicates, empty relation, unknown reference, instance definitions
    /// names the error.
    pub fn new(vars: Variables, relations: Vec<Relation>, label: Option<String>) -> (r: Result<
        StatementModel,
        SpecError,
    >)
        ensures
            r is Ok <==> valid_declaration(vars@, relations.deep_view()),
            r is Ok ==> {
                let m = r->Ok_0;
                &&& m.wf()
                &&& m@.vars =~= vars@
                &&& m@.relations =~= relations.deep_view()
                &&& m@.label == match label {
                    Some(l) => Some(l@),
                    None => None::<Seq<char>>,
                }
            },
            r == Err::<StatementModel, SpecError>(SpecError::DuplicateIdentifier) <==> has_duplicate_class(vars@),
            r == Err::<StatementModel, SpecError>(SpecError::EmptyRelation) <==> !has_duplicate_class(vars@)
                && has_empty_relation(relations.deep_view()),
            r == Err::<StatementModel, SpecError>(SpecError::UnknownVariable) <==> !has_duplicate_class(vars@)
                && !has_empty_relation(relations.deep_view()) && has_unknown_reference(
                vars@,
                relations.deep_view(),
            ),
            r == Err::<StatementModel, SpecError>(SpecError::BadInstanceDefinition) <==> !has_duplicate_class(
                vars@,
            ) && !has_empty_relation(relations.deep_view()) && !has_unknown_reference(
                vars@,
                relations.deep_view(),
            ) && bad_instance_definitions(vars@, relations.deep_view()),
    {
        if has_dup(&vars.secret_var) || has_dup(&vars.common_var) || has_dup(&vars.instance_var) {
            return Err(SpecError::DuplicateIdentifier);
        }
        if any_empty_relation(&relations) {
            return Err(SpecError::EmptyRelation);
        }
        if any_unknown_reference(&vars, &relations) {
            return Err(SpecError::UnknownVariable);
        }
        if lhs_has_dup(&relations) || !instances_covered(&vars, &relations) {
            return Err(SpecError::BadInstanceDefinition);
        }
        Ok(StatementModel { vars, relations, label })
    }
}

/// Whether `x` occurs in the identifier list.
fn name_in(list: &Vec<String>, x: &String) -> (r: bool)
    ensures
        r == list.deep_view().contains(x@),
{
    let ghost names = list.deep_view();
    let mut i: usize = 0;
    while i < list.len()
        invariant
            i <= list@.len(),
            names =~= list.deep_view(),
            forall|j: int| 0 <= j < i ==> names[j] != x@,
        decreases list@.len() - i,
    {
        if list[i].eq(x) {
            assert(names[i as int] == x@);
            return true;
        }
        i = i + 1;
    }
    assert(!names.contains(x@));
    false
}

/// Whether some identifier repeats in the list.
fn has_dup(list: &Vec<String>) -> (r: bool)
    ensures
        r == !distinct_names(list.deep_view()),
{
    let ghost names = list.deep_view();
    let mut i: usize = 0;
    while i < list.len()
        invariant
            i <= list@.len(),
            names =~= list.deep_view(),
            forall|a: int, b: int| 0 <= a < b < list@.len() && a < i ==> names[a] != names[b],
        decreases list@.len() - i,
    {
        let mut j: usize = i + 1;
        while j < list.len()
            invariant
                i < j || (i < list@.len() && j == i + 1),
                i < list@.len(),
                j <= list@.len(),
                names =~= list.deep_view(),
                forall|b: int| i < b < j ==> names[i as int] != names[b],
            decreases list@.len() - j,
        {
            if list[i].eq(&list[j]) {
                assert(i < j);
                assert(names[i as int] =~= list@[i as int]@);
                assert(names[j as int] =~= list@[j as int]@);
                assert(names[i as int] == names[j as int]);
                assert(!distinct_names(names));
                return true;
            }
            j = j + 1;
        }
        i = i + 1;
    }
    assert(distinct_names(names));
    false
}

/// Whether some relation's term list is empty.
fn any_empty_relation(rels: &Vec<Relation>) -> (r: bool)
    ensures
        r == has_empty_relation(rels.deep_view()),
{
    let ghost rv = rels.deep_view();
    let mut i: usize = 0;
    while i < rels.len()
        invariant
            i <= rels@.len(),
            rv =~= rels.deep_view(),
            forall|j: int| 0 <= j < i ==> rv[j].terms.len() != 0,
        decreases rels@.len() - i,
    {
        if rels[i].terms.len() == 0 {
            assert(rv[i as int].terms.len() == 0);
            return true;
        }
        i = i + 1;
    }
    false
}

/// Whether some term or left-hand side fails to resolve.
fn any_unknown_reference(vars: &Variables, rels: &Vec<Relation>) -> (r: bool)
    ensures
        r == has_unknown_reference(vars@, rels.deep_view()),
{
    let ghost rv = rels.deep_view();
    let mut i: usize = 0;
    while i < rels.len()
        invariant
            i <= rels@.len(),
            rv =~= rels.deep_view(),
            forall|j: int|
                0 <= j < i ==> vars@.instance.contains(rv[j].lhs) && forall|k: int|
                    0 <= k < rv[j].terms.len() ==> term_resolves(vars@, rv[j].terms[k]),
        decreases rels@.len() - i,
    {
        if !name_in(&vars.instance_var, &rels[i].lhs_name) {
            assert(!vars@.instance.contains(rv[i as int].lhs));
            return true;
        }
        let terms = &rels[i].terms;
        let mut k: usize = 0;
        while k < terms.len()
            invariant
                k <= terms@.len(),
                i < rels@.len(),
                rv =~= rels.deep_view(),
                terms.deep_view() =~= rv[i as int].terms,
                forall|t: int| 0 <= t < k ==> term_resolves(vars@, rv[i as int].terms[t]),
            decreases terms@.len() - k,
        {
            let t = &terms[k];
            if !name_in(&vars.secret_var, &t.multiplier_name) || (!name_in(
                &vars.common_var,
                &t.point_name,
            ) && !name_in(&vars.instance_var, &t.point_name)) {
                assert(!term_resolves(vars@, rv[i as int].terms[k as int]));
                return true;
            }
            assert(term_resolves(vars@, rv[i as int].terms[k as int]));
            k = k + 1;
        }
        i = i + 1;
    }
    assert(!has_unknown_reference(vars@, rv));
    false
}

/// Whether two relations share a left-hand side.
fn lhs_has_dup(rels: &Vec<Relation>) -> (r: bool)
    ensures
        r == !distinct_names(lhs_names(rels.deep_view())),
{
    let ghost lv = lhs_names(rels.deep_view());
    let mut i: usize = 0;
    while i < rels.len()
        invariant
            i <= rels@.len(),
            lv =~= lhs_names(rels.deep_view()),
            lv.len() == rels@.len(),
            forall|a: int, b: int| 0 <= a < b < lv.len() && a < i ==> lv[a] != lv[b],
        decreases rels@.len() - i,
    {
        let mut j: usize = i + 1;
        while j < rels.len()
            invariant
                i < j || (i < rels@.len() && j == i + 1),
                i < rels@.len(),
                j <= rels@.len(),
                lv =~= lhs_names(rels.deep_view()),
                lv.len() == rels@.len(),
                forall|b: int| i < b < j ==> lv[i as int] != lv[b],
            decreases rels@.len() - j,
        {
            if rels[i].lhs_name.eq(&rels[j].lhs_name) {
                assert(lv[i as int] == lv[j as int]);
                assert(!distinct_names(lv));
                return true;
            }
            j = j + 1;
        }
        i = i + 1;
    }
    assert(distinct_names(lv));
    false
}

/// Whether every instance variable is some relation's left-hand side.
fn instances_covered(vars: &Variables, rels: &Vec<Relation>) -> (r: bool)
    ensures
        r == forall|i: int|
            0 <= i < vars@.instance.len() ==> lhs_names(rels.deep_view()).contains(
                vars@.instance[i],
            ),
{
    let ghost lv = lhs_names(rels.deep_view());
    let mut i: usize = 0;
    while i < vars.instance_var.len()
        invariant
            i <= vars@.instance.len(),
            lv =~= lhs_names(rels.deep_view()),
            forall|j: int| 0 <= j < i ==> lv.contains(vars@.instance[j]),
        decreases vars@.instance.len() - i,
    {
        let x = &vars.instance_var[i];
        let mut k: usize = 0;
        let mut found = false;
        while k < rels.len()
            invariant
                k <= rels@.len(),
                lv =~= lhs_names(rels.deep_view()),
                lv.len() == rels@.len(),
                found ==> lv.contains(x@),
                !found ==> forall|b: int| 0 <= b < k ==> lv[b] != x@,
            decreases rels@.len() - k,
        {
            if rels[k].lhs_name.eq(x) {
                assert(lv[k as int] == x@);
                found = true;
            }
            k = k + 1;
        }
        if !found {
            assert(!lv.contains(vars@.instance[i as int]));
            return false;
        }
        assert(vars@.instance[i as int] == x@);
        i = i + 1;
    }
    true
}

} // verus!
