//! Plain-value model of the secp256k1 group: scalars and points are held as
//! fixed-width big-endian byte encodings, and the group operations are carried
//! out by the arkworks curve library behind trusted wrappers.

use vstd::prelude::*;

use ark_ec::{AffineRepr, CurveGroup};
use ark_ff::{BigInteger, PrimeField, UniformRand};
use ark_secp256k1::{Affine, Fq, Fr, Projective};

verus! {

/// The order n of the secp256k1 scalar field.
pub open spec fn group_order() -> nat {
    0xFFFFFFFFFFFFFFFFFFFFFFFFFFFFFFFEBAAEDCE6AF48A03BBFD25E8CD0364141nat
}

/// The value of a byte string read as a big-endian unsigned integer.
pub open spec fn be_nat(s: Seq<u8>) -> nat
    decreases s.len(),
{
    if s.len() == 0 {
        0
    } else {
        be_nat(s.drop_last()) * 256 + s.last() as nat
    }
}

/// A scalar mod n, held as its canonical 32-byte big-endian encoding.
pub struct Scalar {
    pub bytes: Vec<u8>,
}

impl View for Scalar {
    type V = Seq<u8>;

    open spec fn view(&self) -> Seq<u8> {
        self.bytes@
    }
}

impl DeepView for Scalar {
    type V = Seq<u8>;

    open spec fn deep_view(&self) -> Seq<u8> {
        self@
    }
}

/// A canonical scalar encoding: exactly 32 bytes, value below the group
/// order.
pub open spec fn sc_wf(s: Seq<u8>) -> bool {
    &&& s.len() == 32
    &&& be_nat(s) < group_order()
}

impl Scalar {
    /// Canonical encoding: exactly 32 bytes, value below the group order.
    pub open spec fn wf(&self) -> bool {
        sc_wf(self@)
    }

    /// A copy of this scalar.
    pub fn dup(&self) -> (r: Scalar)
        ensures
            r@ =~= self@,
    {
        Scalar { bytes: self.bytes.clone() }
    }
}

/// The affine encoding of a curve point: the identity (point at infinity),
/// or a pair of 32-byte big-endian coordinates.
#[verifier::ext_equal]
pub struct PointVal {
    pub infinity: bool,
    pub x: Seq<u8>,
    pub y: Seq<u8>,
}

/// A curve point, held as its normalized affine encoding.
pub struct GroupPoint {
    pub infinity: bool,
    pub x: Vec<u8>,
    pub y: Vec<u8>,
}

impl View for GroupPoint {
    type V = PointVal;

    open spec fn view(&self) -> PointVal {
        PointVal { infinity: self.infinity, x: self.x@, y: self.y@ }
    }
}

/// 32 zero bytes.
pub open spec fn seq_32_zero() -> Seq<u8> {
    Seq::new(32, |i: int| 0u8)
}

/// A well-formed point encoding: exactly 32 bytes per coordinate, all zero
/// for the identity.
pub open spec fn pv_wf(p: PointVal) -> bool {
    &&& p.x.len() == 32
    &&& p.y.len() == 32
    &&& p.infinity ==> p.x =~= seq_32_zero() && p.y =~= seq_32_zero()
}

impl GroupPoint {
    /// Both coordinate fields hold exactly 32 bytes; for the identity they
    /// are all zero.
    pub open spec fn wf(&self) -> bool {
        pv_wf(self@)
    }

    /// A point built directly from caller-supplied affine coordinates.
    pub fn from_coords(x: Vec<u8>, y: Vec<u8>) -> (r: Option<GroupPoint>)
        ensures
            match r {
                Some(p) => {
                    &&& p.wf()
                    &&& !p.infinity
                    &&& p.x@ == x@
                    &&& p.y@ == y@
                },
                None => x@.len() != 32 || y@.len() != 32,
            },
    {
        if x.len() == 32 && y.len() == 32 {
            Some(GroupPoint { infinity: false, x, y })
        } else {
            None
        }
    }

    /// The identity element's encoding.
    pub fn identity() -> (r: GroupPoint)
        ensures
            r.wf(),
            r.infinity,
    {
        let z = zero_32();
        let z2 = zero_32();
        GroupPoint { infinity: true, x: z, y: z2 }
    }

    /// A copy of this point.
    pub fn dup(&self) -> (r: GroupPoint)
        ensures
            r@ =~= self@,
    {
        GroupPoint { infinity: self.infinity, x: self.x.clone(), y: self.y.clone() }
    }
}

fn zero_32() -> (r: Vec<u8>)
    ensures
        r@ =~= seq_32_zero(),
{
    let mut v: Vec<u8> = Vec::new();
    let mut i: usize = 0;
    while i < 32
        invariant
            i <= 32,
            v@.len() == i,
            forall|j: int| 0 <= j < i ==> v@[j] == 0u8,
        decreases 32 - i,
    {
        v.push(0u8);
        i = i + 1;
    }
    proof {
        assert(v@ =~= seq_32_zero());
    }
    v
}

/// Holds one arkworks secp256k1 point in projective form; opaque to the
/// verifier, and only ever touched inside the trusted wrappers below.
#[verifier::external_body]
struct ArkPoint {
    inner: Projective,
}

/// Relies on ark-ff `from_be_bytes_mod_order` and ark-ec affine/projective
/// conversion: turns this library's encoding of a point into the arkworks
/// value it encodes. Carries no contract; it is only called from the trusted
/// group-operation wrappers below.
#[verifier::external_body]
fn decode(p: &GroupPoint) -> ArkPoint {
    if p.infinity {
        ArkPoint { inner: Projective::from(Affine::identity()) }
    } else {
        ArkPoint { inner: Projective::from(Affine::new_unchecked(
            Fq::from_be_bytes_mod_order(&p.x),
            Fq::from_be_bytes_mod_order(&p.y),
        )) }
    }
}

/// Relies on ark-ec affine normalization and ark-ff `into_bigint` /
/// `to_bytes_be` (32 bytes for a 4-limb field): turns an arkworks point into
/// this library's encoding. Carries no contract; it is only called from the
/// trusted group-operation wrappers below.
#[verifier::external_body]
fn encode(a: &ArkPoint) -> GroupPoint {
    let q = a.inner.into_affine();
    if q.is_zero() {
        GroupPoint { infinity: true, x: vec![0u8; 32], y: vec![0u8; 32] }
    } else {
        GroupPoint {
            infinity: false,
            x: q.x.into_bigint().to_bytes_be(),
            y: q.y.into_bigint().to_bytes_be(),
        }
    }
}

/// What scalar multiplication on the curve returns: the affine encoding of
/// k·P, for the scalar encoded by `k` and the point encoded by `p`.
pub uninterp spec fn pt_scale(k: Seq<u8>, p: PointVal) -> PointVal;

/// What point addition on the curve returns: the affine encoding of P + Q.
pub uninterp spec fn pt_add(p: PointVal, q: PointVal) -> PointVal;

/// What point negation on the curve returns: the affine encoding of -P.
pub uninterp spec fn pt_neg(p: PointVal) -> PointVal;

/// Relies on arkworks short-Weierstrass scalar multiplication over secp256k1
/// (`Mul<Fr> for Projective` in ark-ec, parameters from ark-secp256k1): the
/// result is a function of the two encodings alone, and its normalized
/// affine coordinates re-encode to 32 big-endian bytes each.
#[verifier::external_body]
pub(crate) fn scale(k: &Scalar, p: &GroupPoint) -> (r: GroupPoint)
    ensures
        r@ =~= pt_scale(k@, p@),
        r.wf(),
{
    let kf = Fr::from_be_bytes_mod_order(&k.bytes);
    encode(&ArkPoint { inner: decode(p).inner * kf })
}

/// Relies on arkworks short-Weierstrass point addition over secp256k1
/// (`Add for Projective` in ark-ec): the result is a function of the two
/// encodings alone, re-encoded to 32 big-endian bytes per coordinate.
#[verifier::external_body]
pub(crate) fn add_points(p: &GroupPoint, q: &GroupPoint) -> (r: GroupPoint)
    ensures
        r@ =~= pt_add(p@, q@),
        r.wf(),
{
    encode(&ArkPoint { inner: decode(p).inner + decode(q).inner })
}

/// Relies on arkworks point negation over secp256k1 (`Neg for Projective` in
/// ark-ec): the result is a function of the encoding alone, re-encoded to 32
/// big-endian bytes per coordinate.
#[verifier::external_body]
pub(crate) fn neg_point(p: &GroupPoint) -> (r: GroupPoint)
    ensures
        r@ =~= pt_neg(p@),
        r.wf(),
{
    encode(&ArkPoint { inner: -decode(p).inner })
}

/// Relies on `UniformRand` for ark-ff prime fields with `rand::thread_rng`:
/// a uniformly random element of the scalar field, whose canonical value is
/// below the group order and encodes to 32 big-endian bytes. The draw is
/// fresh on every call; nothing relates two results.
#[verifier::external_body]
pub(crate) fn random_scalar() -> (r: Scalar)
    ensures
        r.wf(),
{
    let mut rng = rand::thread_rng();
    let f = Fr::rand(&mut rng);
    Scalar { bytes: f.into_bigint().to_bytes_be() }
}

/// Relies on ark-ff field addition mod the secp256k1 group order
/// (`Add for Fr`): the sum of the two scalar values, reduced mod n, in
/// canonical 32-byte big-endian form.
#[verifier::external_body]
pub(crate) fn scalar_add(a: &Scalar, b: &Scalar) -> (r: Scalar)
    ensures
        r.wf(),
        be_nat(r@) == (be_nat(a@) + be_nat(b@)) % group_order(),
{
    let af = Fr::from_be_bytes_mod_order(&a.bytes);
    let bf = Fr::from_be_bytes_mod_order(&b.bytes);
    Scalar { bytes: (af + bf).into_bigint().to_bytes_be() }
}

/// Relies on ark-ff field multiplication mod the secp256k1 group order
/// (`Mul for Fr`): the product of the two scalar values, reduced mod n, in
/// canonical 32-byte big-endian form.
#[verifier::external_body]
pub(crate) fn scalar_mul(a: &Scalar, b: &Scalar) -> (r: Scalar)
    ensures
        r.wf(),
        be_nat(r@) == (be_nat(a@) * be_nat(b@)) % group_order(),
{
    let af = Fr::from_be_bytes_mod_order(&a.bytes);
    let bf = Fr::from_be_bytes_mod_order(&b.bytes);
    Scalar { bytes: (af * bf).into_bigint().to_bytes_be() }
}

/// Byte-for-byte equality of two vectors.
pub fn bytes_eq(a: &Vec<u8>, b: &Vec<u8>) -> (r: bool)
    ensures
        r == (a@ =~= b@),
{
    if a.len() != b.len() {
        return false;
    }
    let mut i: usize = 0;
    while i < a.len()
        invariant
            i <= a@.len(),
            a@.len() == b@.len(),
            forall|j: int| 0 <= j < i ==> a@[j] == b@[j],
        decreases a@.len() - i,
    {
        if a[i] != b[i] {
            return false;
        }
        i = i + 1;
    }
    proof {
        assert(a@ =~= b@);
    }
    true
}

/// Equality of two point encodings.
pub fn points_eq(p: &GroupPoint, q: &GroupPoint) -> (r: bool)
    ensures
        r == (p@ =~= q@),
{
    p.infinity == q.infinity && bytes_eq(&p.x, &q.x) && bytes_eq(&p.y, &q.y)
}

/// 256 raised to `len`: the number of byte strings of that length.
pub open spec fn pow256(len: nat) -> nat
    decreases len,
{
    if len == 0 {
        1
    } else {
        256 * pow256((len - 1) as nat)
    }
}

/// The canonical `len`-byte big-endian encoding of `v`.
pub open spec fn nat_to_be(v: nat, len: nat) -> Seq<u8>
    decreases len,
{
    if len == 0 {
        Seq::empty()
    } else {
        nat_to_be(v / 256, (len - 1) as nat).push((v % 256) as u8)
    }
}

pub proof fn lemma_nat_to_be_len(v: nat, len: nat)
    ensures
        nat_to_be(v, len).len() == len,
    decreases len,
{
    if len > 0 {
        lemma_nat_to_be_len(v / 256, (len - 1) as nat);
    }
}

/// Encoding then decoding gives the value back, when it fits.
pub proof fn lemma_be_nat_of_nat_to_be(v: nat, len: nat)
    requires
        v < pow256(len),
    ensures
        be_nat(nat_to_be(v, len)) == v,
    decreases len,
{
    if len > 0 {
        assert(v / 256 < pow256((len - 1) as nat)) by (nonlinear_arith)
            requires
                v < 256 * pow256((len - 1) as nat),
        ;
        lemma_be_nat_of_nat_to_be(v / 256, (len - 1) as nat);
        lemma_nat_to_be_len(v / 256, (len - 1) as nat);
        let s = nat_to_be(v / 256, (len - 1) as nat);
        let full = s.push((v % 256) as u8);
        assert(full.drop_last() =~= s);
        assert(be_nat(full) == be_nat(s) * 256 + (v % 256));
        assert((v / 256) * 256 + (v % 256) == v) by (nonlinear_arith);
    } else {
        assert(v == 0);
    }
}

/// Two byte strings of one length with one value are the same string.
pub proof fn lemma_be_nat_injective(a: Seq<u8>, b: Seq<u8>)
    requires
        a.len() == b.len(),
        be_nat(a) == be_nat(b),
    ensures
        a =~= b,
    decreases a.len(),
{
    if a.len() > 0 {
        assert(be_nat(a) == be_nat(a.drop_last()) * 256 + a.last());
        assert(be_nat(b) == be_nat(b.drop_last()) * 256 + b.last());
        vstd::arithmetic::div_mod::lemma_fundamental_div_mod_converse(
            be_nat(a) as int,
            256,
            be_nat(a.drop_last()) as int,
            a.last() as int,
        );
        vstd::arithmetic::div_mod::lemma_fundamental_div_mod_converse(
            be_nat(b) as int,
            256,
            be_nat(b.drop_last()) as int,
            b.last() as int,
        );
        assert(a.last() == b.last());
        assert(be_nat(a.drop_last()) == be_nat(b.drop_last()));
        lemma_be_nat_injective(a.drop_last(), b.drop_last());
        assert(a =~= a.drop_last().push(a.last()));
        assert(b =~= b.drop_last().push(b.last()));
    }
}

/// The group order fits in 32 bytes.
pub proof fn lemma_group_order_fits()
    ensures
        group_order() < pow256(32),
{
    reveal_with_fuel(pow256, 33);
}

/// A well-formed scalar encoding is the canonical encoding of its value.
pub proof fn lemma_scalar_bytes_canonical(s: Seq<u8>)
    requires
        sc_wf(s),
    ensures
        s =~= nat_to_be(be_nat(s), 32),
{
    lemma_group_order_fits();
    lemma_be_nat_of_nat_to_be(be_nat(s), 32);
    lemma_nat_to_be_len(be_nat(s), 32);
    lemma_be_nat_injective(s, nat_to_be(be_nat(s), 32));
}

} // verus!
