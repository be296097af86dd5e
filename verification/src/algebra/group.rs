//! Points of the two source groups of the BLS12-381 pairing, held as their
//! canonical compressed encodings. The group arithmetic is done by `blstrs`
//! behind trusted wrappers; what a wrapper returns is named by an
//! uninterpreted function of the argument bytes, which is sound because the
//! compressed encoding is canonical: one byte string for one point.

use vstd::prelude::*;
use crate::algebra::scalar::Scalar;
use crate::utils::serialization::{bytes_eq, clone_bytes};
use blstrs::{Bls12, G1Affine, G1Projective, G2Affine, G2Prepared, G2Projective, Gt};
use group::Group;
use pairing::{MillerLoopResult, MultiMillerLoop};

verus! {

/// Whether a 48-byte string is the canonical compressed encoding of a G1
/// point; named for what `blstrs::G1Projective::from_compressed` accepts.
pub uninterp spec fn g1_valid(bytes: Seq<u8>) -> bool;

/// Whether a 96-byte string is the canonical compressed encoding of a G2
/// point; named for what `blstrs::G2Projective::from_compressed` accepts.
pub uninterp spec fn g2_valid(bytes: Seq<u8>) -> bool;

/// The compressed encoding of the sum of the two G1 points encoded by the
/// arguments; names `blstrs::G1Projective::add`.
pub uninterp spec fn g1_add_spec(a: Seq<u8>, b: Seq<u8>) -> Seq<u8>;

/// The compressed encoding of the G1 point encoded by `p`, multiplied by the
/// scalar of value `e`; names `blstrs::G1Projective::mul`.
pub uninterp spec fn g1_mul_spec(p: Seq<u8>, e: nat) -> Seq<u8>;

/// The compressed encoding of the negation of the G1 point encoded by `p`;
/// names `blstrs::G1Projective::neg`.
pub uninterp spec fn g1_neg_spec(p: Seq<u8>) -> Seq<u8>;

/// The compressed encoding of the multi-exponentiation (the sum of each
/// base raised to its scalar); names `blstrs::G1Projective::multi_exp`.
pub uninterp spec fn g1_msm_spec(bases: Seq<Seq<u8>>, exps: Seq<nat>) -> Seq<u8>;

/// The compressed encoding of the point that the `msg`, the domain
/// separation tag `dst` and the augmentation string `aug` hash to; names
/// `blstrs::G1Projective::hash_to_curve`.
pub uninterp spec fn g1_h2c_spec(msg: Seq<u8>, dst: Seq<u8>, aug: Seq<u8>) -> Seq<u8>;

/// The compressed encoding of the sum of the two G2 points encoded by the
/// arguments; names `blstrs::G2Projective::add`.
pub uninterp spec fn g2_add_spec(a: Seq<u8>, b: Seq<u8>) -> Seq<u8>;

/// The compressed encoding of the G2 point encoded by `p`, multiplied by the
/// scalar of value `e`; names `blstrs::G2Projective::mul`.
pub uninterp spec fn g2_mul_spec(p: Seq<u8>, e: nat) -> Seq<u8>;

/// The compressed encoding of the G2 multi-exponentiation; names
/// `blstrs::G2Projective::multi_exp`.
pub uninterp spec fn g2_msm_spec(bases: Seq<Seq<u8>>, exps: Seq<nat>) -> Seq<u8>;

/// The compressed encoding of the G2 point hashed to by the arguments; names
/// `blstrs::G2Projective::hash_to_curve`.
pub uninterp spec fn g2_h2c_spec(msg: Seq<u8>, dst: Seq<u8>, aug: Seq<u8>) -> Seq<u8>;

/// Whether the product of the pairings of the point pairs encoded by the two
/// sequences is the identity of the target group; names the composite of
/// `blstrs::Bls12::multi_miller_loop` and `final_exponentiation` compared
/// against `blstrs::Gt::identity`.
pub uninterp spec fn multi_pairing_is_id_spec(g1s: Seq<Seq<u8>>, g2s: Seq<Seq<u8>>) -> bool;

/// A point of G1, as its canonical 48-byte compressed encoding.
#[derive(Debug)]
pub struct G1Point {
    bytes: Vec<u8>,
}

/// A point of G2, as its canonical 96-byte compressed encoding.
#[derive(Debug)]
pub struct G2Point {
    bytes: Vec<u8>,
}

impl View for G1Point {
    type V = Seq<u8>;

    closed spec fn view(&self) -> Seq<u8> {
        self.bytes@
    }
}

impl View for G2Point {
    type V = Seq<u8>;

    closed spec fn view(&self) -> Seq<u8> {
        self.bytes@
    }
}

impl G1Point {
    /// A well-formed G1 point is a canonical 48-byte compressed encoding.
    pub open spec fn wf(&self) -> bool {
        self@.len() == 48 && g1_valid(self@)
    }

    /// The compressed encoding of this point.
    pub fn to_compressed(&self) -> (r: Vec<u8>)
        ensures
            r@ == self@,
    {
        clone_bytes(&self.bytes)
    }
}

impl G2Point {
    /// A well-formed G2 point is a canonical 96-byte compressed encoding.
    pub open spec fn wf(&self) -> bool {
        self@.len() == 96 && g2_valid(self@)
    }

    /// The compressed encoding of this point.
    pub fn to_compressed(&self) -> (r: Vec<u8>)
        ensures
            r@ == self@,
    {
        clone_bytes(&self.bytes)
    }
}

impl Clone for G1Point {
    fn clone(&self) -> (r: Self)
        ensures
            r@ == self@,
    {
        G1Point { bytes: clone_bytes(&self.bytes) }
    }
}

impl Clone for G2Point {
    fn clone(&self) -> (r: Self)
        ensures
            r@ == self@,
    {
        G2Point { bytes: clone_bytes(&self.bytes) }
    }
}

impl PartialEq for G1Point {
    fn eq(&self, other: &Self) -> (r: bool) {
        bytes_eq(&self.bytes, &other.bytes)
    }
}

impl vstd::std_specs::cmp::PartialEqSpecImpl for G1Point {
    open spec fn obeys_eq_spec() -> bool {
        true
    }

    open spec fn eq_spec(&self, other: &Self) -> bool {
        self@ == other@
    }
}

impl Eq for G1Point {}

impl PartialEq for G2Point {
    fn eq(&self, other: &Self) -> (r: bool) {
        bytes_eq(&self.bytes, &other.bytes)
    }
}

impl vstd::std_specs::cmp::PartialEqSpecImpl for G2Point {
    open spec fn obeys_eq_spec() -> bool {
        true
    }

    open spec fn eq_spec(&self, other: &Self) -> bool {
        self@ == other@
    }
}

impl Eq for G2Point {}

/// The byte views of a sequence of G1 points.
pub open spec fn g1_views(s: Seq<G1Point>) -> Seq<Seq<u8>> {
    s.map_values(|p: G1Point| p@)
}

/// The byte views of a sequence of G2 points.
pub open spec fn g2_views(s: Seq<G2Point>) -> Seq<Seq<u8>> {
    s.map_values(|p: G2Point| p@)
}

/// Whether every G1 point of a sequence is well-formed.
pub open spec fn g1_all_wf(s: Seq<G1Point>) -> bool {
    forall|i: int| 0 <= i < s.len() ==> #[trigger] s[i].wf()
}

/// Whether every G2 point of a sequence is well-formed.
pub open spec fn g2_all_wf(s: Seq<G2Point>) -> bool {
    forall|i: int| 0 <= i < s.len() ==> #[trigger] s[i].wf()
}

/// Whether every byte string of a sequence is a valid G1 encoding.
pub open spec fn g1_views_ok(s: Seq<Seq<u8>>) -> bool {
    forall|i: int| 0 <= i < s.len() ==> (#[trigger] s[i]).len() == 48 && g1_valid(s[i])
}

/// Whether every byte string of a sequence is a valid G2 encoding.
pub open spec fn g2_views_ok(s: Seq<Seq<u8>>) -> bool {
    forall|i: int| 0 <= i < s.len() ==> (#[trigger] s[i]).len() == 96 && g2_valid(s[i])
}

/// Views that are all valid make every point well-formed.
pub proof fn lemma_g1_views_ok_wf(pts: Seq<G1Point>)
    requires
        g1_views_ok(g1_views(pts)),
    ensures
        g1_all_wf(pts),
{
    assert forall|i: int| 0 <= i < pts.len() implies #[trigger] pts[i].wf() by {
        assert(g1_views(pts)[i] == pts[i]@);
    }
}

/// Well-formed points have views that are all valid.
pub proof fn lemma_g1_all_wf_views(pts: Seq<G1Point>)
    requires
        g1_all_wf(pts),
    ensures
        g1_views_ok(g1_views(pts)),
{
    assert forall|i: int|
        0 <= i < g1_views(pts).len() implies (#[trigger] g1_views(pts)[i]).len() == 48 && g1_valid(
        g1_views(pts)[i]) by {
        assert(pts[i].wf());
        assert(g1_views(pts)[i] == pts[i]@);
    }
}

/// Views that are all valid make every point well-formed.
pub proof fn lemma_g2_views_ok_wf(pts: Seq<G2Point>)
    requires
        g2_views_ok(g2_views(pts)),
    ensures
        g2_all_wf(pts),
{
    assert forall|i: int| 0 <= i < pts.len() implies #[trigger] pts[i].wf() by {
        assert(g2_views(pts)[i] == pts[i]@);
    }
}

/// Well-formed points have views that are all valid.
pub proof fn lemma_g2_all_wf_views(pts: Seq<G2Point>)
    requires
        g2_all_wf(pts),
    ensures
        g2_views_ok(g2_views(pts)),
{
    assert forall|i: int|
        0 <= i < g2_views(pts).len() implies (#[trigger] g2_views(pts)[i]).len() == 96 && g2_valid(
        g2_views(pts)[i]) by {
        assert(pts[i].wf());
        assert(g2_views(pts)[i] == pts[i]@);
    }
}

/// The canonical compressed encoding of the identity of G1 under the ZCash
/// serialization blstrs uses: the compression and infinity bits set, all
/// other bits zero.
pub open spec fn g1_identity_bytes() -> Seq<u8> {
    Seq::new(48, |i: int| if i == 0 { 0xc0u8 } else { 0u8 })
}

/// The compressed encoding of the identity of G1, as bytes.
pub fn g1_identity() -> (r: Vec<u8>)
    ensures
        r@ == g1_identity_bytes(),
{
    let mut r: Vec<u8> = Vec::new();
    r.push(0xc0);
    let mut i: usize = 1;
    while i < 48
        invariant
            1 <= i <= 48,
            r@.len() == i,
            r@[0] == 0xc0u8,
            forall|j: int| 1 <= j < i ==> r@[j] == 0u8,
        decreases 48 - i,
    {
        r.push(0);
        i += 1;
    }
    proof {
        assert(r@ =~= g1_identity_bytes());
    }
    r
}

/// Compares two vectors of G1 points byte for byte.
pub fn g1_points_eq(a: &Vec<G1Point>, b: &Vec<G1Point>) -> (r: bool)
    ensures
        r == (g1_views(a@) == g1_views(b@)),
{
    if a.len() != b.len() {
        proof {
            assert(g1_views(a@).len() != g1_views(b@).len());
        }
        return false;
    }
    let mut i: usize = 0;
    while i < a.len()
        invariant
            i <= a@.len(),
            a@.len() == b@.len(),
            forall|j: int| 0 <= j < i ==> a@[j]@ == b@[j]@,
        decreases a@.len() - i,
    {
        if !a[i].eq(&b[i]) {
            proof {
                assert(g1_views(a@)[i as int] != g1_views(b@)[i as int]);
            }
            return false;
        }
        i += 1;
    }
    proof {
        assert(g1_views(a@) =~= g1_views(b@));
    }
    true
}

/// Compares two vectors of G2 points byte for byte.
pub fn g2_points_eq(a: &Vec<G2Point>, b: &Vec<G2Point>) -> (r: bool)
    ensures
        r == (g2_views(a@) == g2_views(b@)),
{
    if a.len() != b.len() {
        proof {
            assert(g2_views(a@).len() != g2_views(b@).len());
        }
        return false;
    }
    let mut i: usize = 0;
    while i < a.len()
        invariant
            i <= a@.len(),
            a@.len() == b@.len(),
            forall|j: int| 0 <= j < i ==> a@[j]@ == b@[j]@,
        decreases a@.len() - i,
    {
        if !a[i].eq(&b[i]) {
            proof {
                assert(g2_views(a@)[i as int] != g2_views(b@)[i as int]);
            }
            return false;
        }
        i += 1;
    }
    proof {
        assert(g2_views(a@) =~= g2_views(b@));
    }
    true
}

/// A copy of a vector of G1 points.
pub fn clone_g1_points(v: &Vec<G1Point>) -> (r: Vec<G1Point>)
    ensures
        g1_views(r@) == g1_views(v@),
        r@.len() == v@.len(),
        g1_all_wf(v@) ==> g1_all_wf(r@),
{
    let mut r: Vec<G1Point> = Vec::new();
    let mut i: usize = 0;
    while i < v.len()
        invariant
            i <= v@.len(),
            r@.len() == i,
            forall|j: int| 0 <= j < i ==> (#[trigger] r@[j])@ == v@[j]@,
        decreases v@.len() - i,
    {
        r.push(v[i].clone());
        i += 1;
    }
    proof {
        assert(g1_views(r@) =~= g1_views(v@));
        if g1_all_wf(v@) {
            assert forall|j: int| 0 <= j < r@.len() implies (#[trigger] r@[j]).wf() by {
                assert(v@[j].wf());
            }
        }
    }
    r
}

/// A copy of a vector of G2 points.
pub fn clone_g2_points(v: &Vec<G2Point>) -> (r: Vec<G2Point>)
    ensures
        g2_views(r@) == g2_views(v@),
        r@.len() == v@.len(),
        g2_all_wf(v@) ==> g2_all_wf(r@),
{
    let mut r: Vec<G2Point> = Vec::new();
    let mut i: usize = 0;
    while i < v.len()
        invariant
            i <= v@.len(),
            r@.len() == i,
            forall|j: int| 0 <= j < i ==> (#[trigger] r@[j])@ == v@[j]@,
        decreases v@.len() - i,
    {
        r.push(v[i].clone());
        i += 1;
    }
    proof {
        assert(g2_views(r@) =~= g2_views(v@));
        if g2_all_wf(v@) {
            assert forall|j: int| 0 <= j < r@.len() implies (#[trigger] r@[j]).wf() by {
                assert(v@[j].wf());
            }
        }
    }
    r
}

/// Relies on `blstrs::G1Projective::from_compressed`: it accepts exactly the
/// canonical compressed encodings of G1 points. The accepted bytes are kept
/// as they are, which is faithful because the encoding is canonical.
#[verifier::external_body]
pub fn g1_from_compressed(bytes: &Vec<u8>) -> (r: Option<G1Point>)
    requires
        bytes@.len() == 48,
    ensures
        r is Some <==> g1_valid(bytes@),
        r is Some ==> r.unwrap()@ == bytes@ && r.unwrap().wf(),
{
    let arr: &[u8; 48] = bytes.as_slice().try_into().unwrap();
    if G1Projective::from_compressed(arr).is_some().into() {
        Some(G1Point { bytes: bytes.clone() })
    } else {
        None
    }
}

/// Relies on `blstrs::G2Projective::from_compressed`: it accepts exactly the
/// canonical compressed encodings of G2 points. The accepted bytes are kept
/// as they are, which is faithful because the encoding is canonical.
#[verifier::external_body]
pub fn g2_from_compressed(bytes: &Vec<u8>) -> (r: Option<G2Point>)
    requires
        bytes@.len() == 96,
    ensures
        r is Some <==> g2_valid(bytes@),
        r is Some ==> r.unwrap()@ == bytes@ && r.unwrap().wf(),
{
    let arr: &[u8; 96] = bytes.as_slice().try_into().unwrap();
    if G2Projective::from_compressed(arr).is_some().into() {
        Some(G2Point { bytes: bytes.clone() })
    } else {
        None
    }
}

/// Relies on `blstrs::G1Projective`: addition of two G1 points, re-encoded
/// in compressed form. Group addition commutes, so the result is the sum in
/// either order.
#[verifier::external_body]
pub(crate) fn g1_add(a: &G1Point, b: &G1Point) -> (r: G1Point)
    requires
        a.wf(),
        b.wf(),
    ensures
        r.wf(),
        r@ == g1_add_spec(a@, b@),
        r@ == g1_add_spec(b@, a@),
{
    let x = G1Projective::from_compressed(a.bytes.as_slice().try_into().unwrap()).unwrap();
    let y = G1Projective::from_compressed(b.bytes.as_slice().try_into().unwrap()).unwrap();
    G1Point { bytes: (x + y).to_compressed().to_vec() }
}

/// Relies on `blstrs::G1Projective`: multiplication of a G1 point by a
/// scalar, re-encoded in compressed form.
#[verifier::external_body]
pub(crate) fn g1_mul(p: &G1Point, s: &Scalar) -> (r: G1Point)
    requires
        p.wf(),
        s.wf(),
    ensures
        r.wf(),
        r@ == g1_mul_spec(p@, s.value()),
{
    let x = G1Projective::from_compressed(p.bytes.as_slice().try_into().unwrap()).unwrap();
    let e = blstrs::Scalar::from_bytes_le(s.to_bytes_le().as_slice().try_into().unwrap()).unwrap();
    G1Point { bytes: (x * e).to_compressed().to_vec() }
}

/// Relies on `blstrs::G1Projective`: negation of a G1 point, re-encoded in
/// compressed form.
#[verifier::external_body]
pub(crate) fn g1_neg(p: &G1Point) -> (r: G1Point)
    requires
        p.wf(),
    ensures
        r.wf(),
        r@ == g1_neg_spec(p@),
{
    let x = G1Projective::from_compressed(p.bytes.as_slice().try_into().unwrap()).unwrap();
    G1Point { bytes: (-x).to_compressed().to_vec() }
}

/// Relies on `blstrs::G1Projective::multi_exp`: the sum over all `i` of
/// `bases[i]` raised to `scalars[i]`, re-encoded in compressed form. At
/// least one base is required: the outside implementation reads the first
/// point unconditionally.
#[verifier::external_body]
pub(crate) fn g1_msm(bases: &Vec<G1Point>, scalars: &Vec<Scalar>) -> (r: G1Point)
    requires
        bases@.len() >= 1,
        bases@.len() == scalars@.len(),
        g1_all_wf(bases@),
        forall|i: int| 0 <= i < scalars@.len() ==> (#[trigger] scalars@[i]).wf(),
    ensures
        r.wf(),
        r@ == g1_msm_spec(g1_views(bases@), crate::algebra::scalar::scalar_values(scalars@)),
{
    let ps: Vec<G1Projective> = bases.iter().map(
        |p| G1Projective::from_compressed(p.bytes.as_slice().try_into().unwrap()).unwrap(),
    ).collect();
    let es: Vec<blstrs::Scalar> = scalars.iter().map(
        |s| blstrs::Scalar::from_bytes_le(s.to_bytes_le().as_slice().try_into().unwrap()).unwrap(),
    ).collect();
    G1Point { bytes: G1Projective::multi_exp(&ps, &es).to_compressed().to_vec() }
}

/// Relies on `blstrs::G1Projective::hash_to_curve`: a deterministic hash of
/// the message, domain separation tag and augmentation string to a G1 point.
#[verifier::external_body]
pub(crate) fn g1_hash_to_curve(msg: &Vec<u8>, dst: &Vec<u8>, aug: &Vec<u8>) -> (r: G1Point)
    ensures
        r.wf(),
        r@ == g1_h2c_spec(msg@, dst@, aug@),
{
    let p = G1Projective::hash_to_curve(msg.as_slice(), dst.as_slice(), aug.as_slice());
    G1Point { bytes: p.to_compressed().to_vec() }
}

/// Relies on `blstrs::G2Projective`: addition of two G2 points, re-encoded
/// in compressed form. Group addition commutes, so the result is the sum in
/// either order.
#[verifier::external_body]
pub(crate) fn g2_add(a: &G2Point, b: &G2Point) -> (r: G2Point)
    requires
        a.wf(),
        b.wf(),
    ensures
        r.wf(),
        r@ == g2_add_spec(a@, b@),
        r@ == g2_add_spec(b@, a@),
{
    let x = G2Projective::from_compressed(a.bytes.as_slice().try_into().unwrap()).unwrap();
    let y = G2Projective::from_compressed(b.bytes.as_slice().try_into().unwrap()).unwrap();
    G2Point { bytes: (x + y).to_compressed().to_vec() }
}

/// Relies on `blstrs::G2Projective`: multiplication of a G2 point by a
/// scalar, re-encoded in compressed form.
#[verifier::external_body]
pub(crate) fn g2_mul(p: &G2Point, s: &Scalar) -> (r: G2Point)
    requires
        p.wf(),
        s.wf(),
    ensures
        r.wf(),
        r@ == g2_mul_spec(p@, s.value()),
{
    let x = G2Projective::from_compressed(p.bytes.as_slice().try_into().unwrap()).unwrap();
    let e = blstrs::Scalar::from_bytes_le(s.to_bytes_le().as_slice().try_into().unwrap()).unwrap();
    G2Point { bytes: (x * e).to_compressed().to_vec() }
}

/// Relies on `blstrs::G2Projective::multi_exp`: the sum over all `i` of
/// `bases[i]` raised to `scalars[i]`, re-encoded in compressed form. At
/// least one base is required: the outside implementation reads the first
/// point unconditionally.
#[verifier::external_body]
pub(crate) fn g2_msm(bases: &Vec<G2Point>, scalars: &Vec<Scalar>) -> (r: G2Point)
    requires
        bases@.len() >= 1,
        bases@.len() == scalars@.len(),
        g2_all_wf(bases@),
        forall|i: int| 0 <= i < scalars@.len() ==> (#[trigger] scalars@[i]).wf(),
    ensures
        r.wf(),
        r@ == g2_msm_spec(g2_views(bases@), crate::algebra::scalar::scalar_values(scalars@)),
{
    let ps: Vec<G2Projective> = bases.iter().map(
        |p| G2Projective::from_compressed(p.bytes.as_slice().try_into().unwrap()).unwrap(),
    ).collect();
    let es: Vec<blstrs::Scalar> = scalars.iter().map(
        |s| blstrs::Scalar::from_bytes_le(s.to_bytes_le().as_slice().try_into().unwrap()).unwrap(),
    ).collect();
    G2Point { bytes: G2Projective::multi_exp(&ps, &es).to_compressed().to_vec() }
}

/// Relies on `blstrs::G2Projective::hash_to_curve`: a deterministic hash of
/// the message, domain separation tag and augmentation string to a G2 point.
#[verifier::external_body]
pub(crate) fn g2_hash_to_curve(msg: &Vec<u8>, dst: &Vec<u8>, aug: &Vec<u8>) -> (r: G2Point)
    ensures
        r.wf(),
        r@ == g2_h2c_spec(msg@, dst@, aug@),
{
    let p = G2Projective::hash_to_curve(msg.as_slice(), dst.as_slice(), aug.as_slice());
    G2Point { bytes: p.to_compressed().to_vec() }
}

/// Relies on `blstrs`: `Bls12::multi_miller_loop` over the paired points
/// followed by `final_exponentiation` computes the product of the pairings,
/// and the result is compared against the identity of the target group.
#[verifier::external_body]
pub(crate) fn multi_pairing_is_identity(g1s: &Vec<G1Point>, g2s: &Vec<G2Point>) -> (r: bool)
    requires
        g1s@.len() == g2s@.len(),
        g1_all_wf(g1s@),
        g2_all_wf(g2s@),
    ensures
        r == multi_pairing_is_id_spec(g1_views(g1s@), g2_views(g2s@)),
{
    let lhs: Vec<G1Affine> = g1s.iter().map(
        |p| G1Affine::from_compressed(p.bytes.as_slice().try_into().unwrap()).unwrap(),
    ).collect();
    let rhs: Vec<G2Prepared> = g2s.iter().map(
        |p| G2Prepared::from(G2Affine::from_compressed(p.bytes.as_slice().try_into().unwrap()).unwrap()),
    ).collect();
    let terms: Vec<(&G1Affine, &G2Prepared)> = lhs.iter().zip(rhs.iter()).collect();
    let res = <Bls12 as MultiMillerLoop>::multi_miller_loop(terms.as_slice()).final_exponentiation();
    res == Gt::identity()
}

} // verus!
