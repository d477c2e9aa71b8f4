//! Fiat-Shamir challenge derivation: an ordered transcript of point
//! coordinates, optionally preceded by the statement's domain-separation
//! label, is hashed with SHA-256 and the digest is reduced mod the group
//! order. Hashing the label binds the challenge to one statement; a model
//! built without a label omits it, which keeps transcripts interchangeable
//! with label-free peers at the cost of that binding.

use vstd::prelude::*;
use vstd::utf8::encode_utf8;

use crate::group::{be_nat, group_order, GroupPoint, PointVal, Scalar};
use crate::ProofError;

use ark_ff::{BigInteger, PrimeField};
use sha2::Digest;

verus! {

impl DeepView for GroupPoint {
    type V = PointVal;

    open spec fn deep_view(&self) -> PointVal {
        self@
    }
}

/// What SHA-256 returns on the given bytes: a function of the input alone.
pub uninterp spec fn sha256_of(data: Seq<u8>) -> Seq<u8>;

/// Relies on sha2's `Sha256`: the 32-byte digest of the input, a pure
/// function of the input bytes.
#[verifier::external_body]
fn sha256(data: &Vec<u8>) -> (r: Vec<u8>)
    ensures
        r@ =~= sha256_of(data@),
        r@.len() == 32,
{
    sha2::Sha256::digest(data.as_slice()).to_vec()
}

/// Relies on ark-ff `from_be_bytes_mod_order` for the secp256k1 scalar
/// field: the digest read as a big-endian integer, reduced mod the group
/// order, re-encoded canonically.
#[verifier::external_body]
fn scalar_from_digest(d: &Vec<u8>) -> (r: Scalar)
    ensures
        r.wf(),
        be_nat(r@) == be_nat(d@) % group_order(),
{
    let f = ark_secp256k1::Fr::from_be_bytes_mod_order(d.as_slice());
    Scalar { bytes: f.into_bigint().to_bytes_be() }
}

/// The label's contribution to the transcript: its UTF-8 bytes, or nothing.
pub open spec fn label_bytes(label: Option<Seq<char>>) -> Seq<u8> {
    match label {
        Some(l) => encode_utf8(l),
        None => Seq::empty(),
    }
}

/// The first `n` instance/commitment pairs' contribution: for each index in
/// order, the instance point's X then Y coordinate, then the commitment
/// point's X then Y coordinate.
pub open spec fn pairs_bytes(insts: Seq<PointVal>, commits: Seq<PointVal>, n: int) -> Seq<u8>
    decreases n,
{
    if n <= 0 {
        Seq::empty()
    } else {
        pairs_bytes(insts, commits, n - 1) + insts[n - 1].x + insts[n - 1].y + commits[n - 1].x
            + commits[n - 1].y
    }
}

/// The whole hash transcript: label bytes, then every pair's coordinates in
/// declaration order.
pub open spec fn transcript_bytes(
    label: Option<Seq<char>>,
    insts: Seq<PointVal>,
    commits: Seq<PointVal>,
) -> Seq<u8> {
    label_bytes(label) + pairs_bytes(insts, commits, insts.len() as int)
}

/// The challenge scalar's value: the transcript's SHA-256 digest read
/// big-endian, reduced mod the group order.
pub open spec fn spec_challenge(
    label: Option<Seq<char>>,
    insts: Seq<PointVal>,
    commits: Seq<PointVal>,
) -> nat {
    be_nat(sha256_of(transcript_bytes(label, insts, commits))) % group_order()
}

/// Some point in the list is the point at infinity, which has no affine
/// coordinates to hash.
pub open spec fn any_infinite(pts: Seq<PointVal>) -> bool {
    exists|i: int| 0 <= i < pts.len() && pts[i].infinity
}

/// Appends every byte of `src` to `out`.
fn push_bytes(out: &mut Vec<u8>, src: &Vec<u8>)
    ensures
        final(out)@ =~= old(out)@ + src@,
{
    let mut j: usize = 0;
    while j < src.len()
        invariant
            j <= src@.len(),
            out@ =~= old(out)@ + src@.take(j as int),
        decreases src@.len() - j,
    {
        out.push(src[j]);
        proof {
            assert(out@ =~= old(out)@ + src@.take(j + 1));
        }
        j = j + 1;
    }
    proof {
        assert(src@.take(src@.len() as int) =~= src@);
    }
}

/// Derives the Fiat-Shamir challenge from the ordered instance and
/// commitment points and the optional label. Fails if and only if some
/// point in either list is the point at infinity.
pub fn derive_challenge(
    insts: &Vec<GroupPoint>,
    commits: &Vec<GroupPoint>,
    label: &Option<String>,
) -> (r: Result<Scalar, ProofError>)
    requires
        insts@.len() == commits@.len(),
    ensures
        r is Ok <==> !any_infinite(insts.deep_view()) && !any_infinite(commits.deep_view()),
        r is Err ==> r->Err_0 == ProofError::InvalidPoint,
        r is Ok ==> {
            let c = r->Ok_0;
            &&& c.wf()
            &&& be_nat(c@) == spec_challenge(
                match label {
                    Some(l) => Some(l@),
                    None => None,
                },
                insts.deep_view(),
                commits.deep_view(),
            )
        },
{
    let ghost iv = insts.deep_view();
    let ghost cv = commits.deep_view();
    let ghost lv: Option<Seq<char>> = match label {
        Some(l) => Some(l@),
        None => None,
    };
    let mut i: usize = 0;
    while i < insts.len()
        invariant
            i <= insts@.len(),
            insts@.len() == commits@.len(),
            iv =~= insts.deep_view(),
            cv =~= commits.deep_view(),
            forall|j: int| 0 <= j < i ==> !iv[j].infinity && !cv[j].infinity,
        decreases insts@.len() - i,
    {
        if insts[i].infinity || commits[i].infinity {
            proof {
                assert(iv[i as int] =~= insts@[i as int]@);
                assert(cv[i as int] =~= commits@[i as int]@);
                assert(iv[i as int].infinity || cv[i as int].infinity);
            }
            return Err(ProofError::InvalidPoint);
        }
        i = i + 1;
    }
    let mut data: Vec<u8> = Vec::new();
    match label {
        Some(l) => {
            let lb = vstd::slice::slice_to_vec(l.as_str().as_bytes());
            push_bytes(&mut data, &lb);
            proof {
                assert(data@ =~= label_bytes(lv));
            }
        },
        None => {
            proof {
                assert(data@ =~= label_bytes(lv));
            }
        },
    }
    let mut k: usize = 0;
    while k < insts.len()
        invariant
            k <= insts@.len(),
            insts@.len() == commits@.len(),
            iv =~= insts.deep_view(),
            cv =~= commits.deep_view(),
            data@ =~= label_bytes(lv) + pairs_bytes(iv, cv, k as int),
        decreases insts@.len() - k,
    {
        push_bytes(&mut data, &insts[k].x);
        push_bytes(&mut data, &insts[k].y);
        push_bytes(&mut data, &commits[k].x);
        push_bytes(&mut data, &commits[k].y);
        proof {
            assert(data@ =~= label_bytes(lv) + pairs_bytes(iv, cv, k + 1));
        }
        k = k + 1;
    }
    proof {
        assert(data@ =~= transcript_bytes(lv, iv, cv));
    }
    let digest = sha256(&data);
    Ok(scalar_from_digest(&digest))
}

/// Challenge derivation is deterministic: identical ordered point lists and
/// label give the identical challenge value.
pub proof fn lemma_challenge_deterministic(
    label1: Option<Seq<char>>,
    insts1: Seq<PointVal>,
    commits1: Seq<PointVal>,
    label2: Option<Seq<char>>,
    insts2: Seq<PointVal>,
    commits2: Seq<PointVal>,
)
    requires
        label1 == label2,
        insts1 =~= insts2,
        commits1 =~= commits2,
    ensures
        spec_challenge(label1, insts1, commits1) == spec_challenge(label2, insts2, commits2),
{
}

} // verus!
