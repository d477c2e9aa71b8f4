//! Compiler for Sigma protocols over secp256k1: a declarative statement of
//! linear discrete-log relations is turned into a concrete prover transcript
//! and into source text for a verifier in a small scripting language, in two
//! interchangeable encodings (batchable and compact).

pub mod challenge;
pub mod emit;
pub mod eval;
pub mod group;
pub mod model;
pub mod prover;
pub mod verify;

use vstd::prelude::*;

verus! {

/// A failure while proving: detected before any partial transcript is
/// returned.
#[derive(PartialEq, Eq, Structural, Clone, Copy, Debug)]
pub enum ProofError {
    /// An assignment omits a declared variable that a relation references.
    MissingVariable,
    /// A point at infinity reached coordinate encoding.
    InvalidPoint,
    /// A relation with no terms reached evaluation; the statement-model
    /// invariant excludes this, so it is a defensive fail-fast.
    EmptyRelation,
}

} // verus!
