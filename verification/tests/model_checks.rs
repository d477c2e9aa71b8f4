//! Statement-model validation checks.

use sigma_compiler::model::{Relation, SpecError, StatementModel, Term, Variables};

fn term(m: &str, p: &str) -> Term {
    Term { multiplier_name: m.to_string(), point_name: p.to_string() }
}

fn rel(lhs: &str, terms: Vec<Term>) -> Relation {
    Relation { lhs_name: lhs.to_string(), terms }
}

fn dleq_vars() -> Variables {
    Variables {
        secret_var: vec!["x".to_string(), "r1".to_string(), "r2".to_string()],
        common_var: vec!["G".to_string(), "H".to_string()],
        instance_var: vec!["A".to_string(), "B".to_string()],
    }
}

fn dleq_relations() -> Vec<Relation> {
    vec![
        rel("A", vec![term("x", "G"), term("r1", "H")]),
        rel("B", vec![term("x", "G"), term("r2", "H")]),
    ]
}

#[test]
fn valid_declaration_accepted() {
    let model = StatementModel::new(dleq_vars(), dleq_relations(), None);
    assert!(model.is_ok());
}

#[test]
fn duplicate_identifier_rejected() {
    let vars = Variables {
        secret_var: vec!["x".to_string(), "x".to_string()],
        common_var: vec!["G".to_string()],
        instance_var: vec!["A".to_string()],
    };
    let rels = vec![rel("A", vec![term("x", "G")])];
    assert_eq!(
        StatementModel::new(vars, rels, None).err(),
        Some(SpecError::DuplicateIdentifier)
    );
}

#[test]
fn empty_relation_rejected() {
    let rels = vec![rel("A", vec![]), rel("B", vec![term("x", "G")])];
    assert_eq!(
        StatementModel::new(dleq_vars(), rels, None).err(),
        Some(SpecError::EmptyRelation)
    );
}

#[test]
fn unknown_variable_rejected() {
    // The multiplier names a common variable: wrong class.
    let rels = vec![
        rel("A", vec![term("G", "G"), term("r1", "H")]),
        rel("B", vec![term("x", "G")]),
    ];
    assert_eq!(
        StatementModel::new(dleq_vars(), rels, None).err(),
        Some(SpecError::UnknownVariable)
    );
    // A relation's left-hand side must be an instance variable.
    let rels2 = vec![
        rel("A", vec![term("x", "G")]),
        rel("C", vec![term("x", "G")]),
    ];
    assert_eq!(
        StatementModel::new(dleq_vars(), rels2, None).err(),
        Some(SpecError::UnknownVariable)
    );
}

#[test]
fn bad_instance_definitions_rejected() {
    // Two defining relations for one instance variable.
    let rels = vec![
        rel("A", vec![term("x", "G")]),
        rel("A", vec![term("r1", "H")]),
    ];
    assert_eq!(
        StatementModel::new(dleq_vars(), rels, None).err(),
        Some(SpecError::BadInstanceDefinition)
    );
    // No defining relation for the instance variable B.
    let rels2 = vec![rel("A", vec![term("x", "G")])];
    assert_eq!(
        StatementModel::new(dleq_vars(), rels2, None).err(),
        Some(SpecError::BadInstanceDefinition)
    );
}

#[test]
fn terms_may_reference_instance_points() {
    // A term's point may name another instance variable; the declaration is
    // valid, and the prover then reports it as a missing variable, since
    // only common points are supplied.
    let rels = vec![
        rel("A", vec![term("x", "G")]),
        rel("B", vec![term("r1", "A")]),
    ];
    assert!(StatementModel::new(dleq_vars(), rels, None).is_ok());
}
