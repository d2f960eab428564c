//! Points and scalars of the NIST P-256 curve as plain values.
//!
//! A point is held as its compressed SEC1 encoding and a scalar as 32
//! big-endian bytes. The arithmetic itself is done by the `p256` crate; the
//! functions here that call it are believed, not proved, and each says in its
//! documentation what is assumed of the call.

use p256::elliptic_curve::ops::Reduce;
use p256::elliptic_curve::sec1::{FromEncodedPoint, ToEncodedPoint};
use p256::elliptic_curve::Field;
use vstd::prelude::*;

verus! {

/// The length of a scalar, in bytes.
pub const SCALAR_LEN: usize = 32;

/// The length of the compressed SEC1 encoding of a point other than the
/// identity, in bytes.
pub const COMPRESSED_POINT_LEN: usize = 33;

/// What `p256` decodes the SEC1 encoding `bytes` to, as the compressed SEC1
/// encoding of that point; `None` where it rejects `bytes`.
pub uninterp spec fn sec1_point(bytes: Seq<u8>) -> Option<Seq<u8>>;

/// The uncompressed SEC1 encoding of the point whose compressed encoding is
/// `point`.
pub uninterp spec fn sec1_uncompressed(point: Seq<u8>) -> Seq<u8>;

/// The compressed encoding of the product of the point encoded by `point` and
/// the scalar that `scalar` holds, reduced modulo the group order.
pub uninterp spec fn curve_mul(point: Seq<u8>, scalar: Seq<u8>) -> Seq<u8>;

/// The compressed encoding of the sum of the points encoded by `p` and `q`.
pub uninterp spec fn curve_add(p: Seq<u8>, q: Seq<u8>) -> Seq<u8>;

/// The compressed encoding of the difference of the points encoded by `p` and
/// `q`.
pub uninterp spec fn curve_sub(p: Seq<u8>, q: Seq<u8>) -> Seq<u8>;

/// `bytes` is the compressed encoding of a point: decoding accepts it,
/// encoding the result gives `bytes` back, and it is 33 bytes long unless it
/// is the identity.
pub open spec fn is_point(bytes: Seq<u8>) -> bool {
    &&& sec1_point(bytes) == Some(bytes)
    &&& (bytes.len() == COMPRESSED_POINT_LEN || bytes == identity_sec1())
}

/// The compressed SEC1 encoding of the base point G.
pub open spec fn generator_sec1() -> Seq<u8> {
    seq![
        0x03u8, 0x6b, 0x17, 0xd1, 0xf2, 0xe1, 0x2c, 0x42, 0x47, 0xf8, 0xbc, 0xe6, 0xe5, 0x63, 0xa4,
        0x40, 0xf2, 0x77, 0x03, 0x7d, 0x81, 0x2d, 0xeb, 0x33, 0xa0, 0xf4, 0xa1, 0x39, 0x45, 0xd8,
        0x98, 0xc2, 0x96,
    ]
}

/// The compressed SEC1 encoding of the identity: the single byte zero.
pub open spec fn identity_sec1() -> Seq<u8> {
    seq![0u8]
}

/// Calls `EncodedPoint::from_bytes` and `ProjectivePoint::from_encoded_point`
/// of `p256`, and hands the point back in compressed form.
///
/// Assumed: the result is what the two calls decode `bytes` to; a point that
/// was decoded encodes to bytes that decode to the same point; and the
/// compressed encoding is 33 bytes long, or the single byte zero for the
/// identity.
#[verifier::external_body]
fn decode_sec1(bytes: &[u8]) -> (r: Option<Vec<u8>>)
    ensures
        match r {
            Some(point) => sec1_point(bytes@) == Some(point@) && is_point(point@),
            None => sec1_point(bytes@) is None,
        },
{
    let encoded = p256::EncodedPoint::from_bytes(bytes).ok()?;
    let point: Option<p256::ProjectivePoint> =
        p256::ProjectivePoint::from_encoded_point(&encoded).into();
    point.map(|p| p.to_encoded_point(true).as_bytes().to_vec())
}

/// Reads `ProjectivePoint::GENERATOR` of `p256` in compressed form.
///
/// Assumed: it is the base point of the standard, whose encoding is
/// [`generator_sec1`], and that encoding decodes to the same point.
#[verifier::external_body]
fn generator_bytes() -> (r: Vec<u8>)
    ensures
        r@ == generator_sec1(),
        is_point(r@),
{
    p256::ProjectivePoint::GENERATOR.to_encoded_point(true).as_bytes().to_vec()
}

/// Calls `ToEncodedPoint::to_encoded_point(false)` of `p256` on the point that
/// `point` encodes.
///
/// Assumed: the result is a function of the point alone.
#[verifier::external_body]
fn uncompressed_bytes(point: &[u8]) -> (r: Vec<u8>)
    requires
        is_point(point@),
    ensures
        r@ == sec1_uncompressed(point@),
{
    let encoded = p256::EncodedPoint::from_bytes(point).unwrap();
    let p = p256::ProjectivePoint::from_encoded_point(&encoded).unwrap();
    p.to_encoded_point(false).as_bytes().to_vec()
}

/// Multiplies, with `p256`, the point that `point` encodes by the scalar that
/// `Scalar::reduce_bytes` reads from `scalar`.
///
/// Assumed: the result is a function of the arguments alone and the compressed
/// encoding of a point, as [`is_point`] says it; and two scalar
/// multiplications of a point give the same point in either order.
#[verifier::external_body]
fn mul_bytes(point: &[u8], scalar: &[u8; 32]) -> (r: Vec<u8>)
    requires
        is_point(point@),
    ensures
        is_point(r@),
        r@ == curve_mul(point@, scalar@),
        forall|t: Seq<u8>|
            t.len() == SCALAR_LEN ==> #[trigger] curve_mul(r@, t) == curve_mul(
                curve_mul(point@, t),
                scalar@,
            ),
{
    let encoded = p256::EncodedPoint::from_bytes(point).unwrap();
    let p = p256::ProjectivePoint::from_encoded_point(&encoded).unwrap();
    let s = p256::Scalar::reduce_bytes(&p256::FieldBytes::from(*scalar));
    (p * s).to_encoded_point(true).as_bytes().to_vec()
}

/// Adds, with `p256`, the points that `p` and `q` encode.
///
/// Assumed: the result is a function of the arguments alone and the compressed
/// encoding of a point, as [`is_point`] says it; and subtracting `p` from the
/// sum gives `q` back.
#[verifier::external_body]
fn add_bytes(p: &[u8], q: &[u8]) -> (r: Vec<u8>)
    requires
        is_point(p@),
        is_point(q@),
    ensures
        is_point(r@),
        r@ == curve_add(p@, q@),
        curve_sub(r@, p@) == q@,
{
    let ep = p256::EncodedPoint::from_bytes(p).unwrap();
    let eq = p256::EncodedPoint::from_bytes(q).unwrap();
    let a = p256::ProjectivePoint::from_encoded_point(&ep).unwrap();
    let b = p256::ProjectivePoint::from_encoded_point(&eq).unwrap();
    (a + b).to_encoded_point(true).as_bytes().to_vec()
}

/// Subtracts, with `p256`, the point that `q` encodes from the one that `p`
/// encodes.
///
/// Assumed: the result is a function of the arguments alone and the compressed
/// encoding of a point, as [`is_point`] says it.
#[verifier::external_body]
fn sub_bytes(p: &[u8], q: &[u8]) -> (r: Vec<u8>)
    requires
        is_point(p@),
        is_point(q@),
    ensures
        is_point(r@),
        r@ == curve_sub(p@, q@),
{
    let ep = p256::EncodedPoint::from_bytes(p).unwrap();
    let eq = p256::EncodedPoint::from_bytes(q).unwrap();
    let a = p256::ProjectivePoint::from_encoded_point(&ep).unwrap();
    let b = p256::ProjectivePoint::from_encoded_point(&eq).unwrap();
    (a - b).to_encoded_point(true).as_bytes().to_vec()
}

/// `bytes` hold a scalar of the field: they are 32 bytes, and the integer
/// that they hold, read big-endian, is below the order of the group, so
/// that `Scalar::from_repr` of `p256` accepts them.
pub open spec fn in_scalar_field(bytes: Seq<u8>) -> bool {
    &&& bytes.len() == SCALAR_LEN
    &&& be_value(bytes) < group_order()
}

/// Draws a bit with `rand::random`.
///
/// Nothing is assumed of the outcome.
#[verifier::external_body]
pub(crate) fn random_bit() -> (r: bool) {
    rand::random()
}

/// A scalar of the curve: 32 bytes, read big-endian and reduced modulo the
/// group order wherever it multiplies a point.
#[derive(Clone, Copy, Debug, PartialEq, Eq)]
pub struct Scalar {
    bytes: [u8; 32],
}

impl View for Scalar {
    type V = Seq<u8>;

    closed spec fn view(&self) -> Seq<u8> {
        self.bytes@
    }
}

impl Scalar {
    /// The scalar that `bytes` holds.
    pub fn from_bytes(bytes: [u8; 32]) -> (r: Scalar)
        ensures
            r@ == bytes@,
    {
        Scalar { bytes }
    }

    /// The 32 bytes of the scalar.
    pub fn to_bytes(&self) -> (r: [u8; 32])
        ensures
            r@ == self@,
    {
        self.bytes
    }

    /// A scalar drawn uniformly from the scalar field by the thread's
    /// generator. Two calls may differ.
    pub fn random() -> (r: Scalar)
        ensures
            in_scalar_field(r@),
    {
        Scalar { bytes: random_scalar_bytes() }
    }

    /// A scalar has 32 bytes.
    pub proof fn lemma_len(self)
        ensures
            self@.len() == SCALAR_LEN,
    {
    }
}

/// The integer that `bytes` hold, read big-endian.
pub open spec fn be_value(bytes: Seq<u8>) -> nat
    decreases bytes.len(),
{
    if bytes.len() == 0 {
        0
    } else {
        be_value(bytes.drop_last()) * 256 + bytes.last() as nat
    }
}

/// The order of the group that the base point generates, which is the size
/// of the scalar field.
pub open spec fn group_order() -> nat {
    0xffffffff00000000ffffffffffffffffbce6faada7179e84f3b9cac2fc632551nat
}

/// Draws a scalar with `Scalar::random` of `p256` from `rand::thread_rng`,
/// and takes its bytes with `Scalar::to_bytes`.
///
/// Assumed of every outcome: it lies in the scalar field. `Scalar::random`
/// draws 32 bytes until `Scalar::from_repr` accepts them, which it does where
/// their big-endian value is below the group order, and `Scalar::to_bytes`
/// gives those bytes back. Nothing is assumed of which scalar it is.
#[verifier::external_body]
fn random_scalar_bytes() -> (r: [u8; 32])
    ensures
        in_scalar_field(r@),
{
    p256::Scalar::random(rand::thread_rng()).to_bytes().into()
}

/// A point of the curve, held as its compressed SEC1 encoding.
#[derive(Debug, PartialEq, Eq)]
pub struct CurvePoint {
    sec1: Vec<u8>,
}

impl View for CurvePoint {
    type V = Seq<u8>;

    closed spec fn view(&self) -> Seq<u8> {
        self.sec1@
    }
}

impl Clone for CurvePoint {
    fn clone(&self) -> (r: Self)
        ensures
            r@ == self@,
            r.wf(),
    {
        proof {
            use_type_invariant(self);
        }
        CurvePoint { sec1: self.sec1.clone() }
    }
}

impl CurvePoint {
    #[verifier::type_invariant]
    spec fn inv(self) -> bool {
        is_point(self.sec1@)
    }

    /// The invariant of every point: its bytes are the compressed encoding of
    /// a point of the curve.
    pub open spec fn wf(self) -> bool {
        is_point(self@)
    }

    /// Decodes a SEC1 encoding (compressed, uncompressed, compact or the
    /// identity), `None` where the bytes encode no point of the curve.
    pub fn from_sec1(bytes: &[u8]) -> (r: Option<CurvePoint>)
        ensures
            match r {
                Some(point) => sec1_point(bytes@) == Some(point@) && point.wf(),
                None => sec1_point(bytes@) is None,
            },
    {
        match decode_sec1(bytes) {
            Some(sec1) => Some(CurvePoint { sec1 }),
            None => None,
        }
    }

    /// The compressed SEC1 encoding.
    pub fn to_sec1(&self) -> (r: Vec<u8>)
        ensures
            r@ == self@,
            is_point(r@),
    {
        proof {
            use_type_invariant(self);
        }
        self.sec1.clone()
    }

    /// The compressed SEC1 encoding, borrowed.
    pub fn as_bytes(&self) -> (r: &[u8])
        ensures
            r@ == self@,
            is_point(r@),
    {
        proof {
            use_type_invariant(self);
        }
        self.sec1.as_slice()
    }

    /// The uncompressed SEC1 encoding, over which keys are derived.
    pub fn to_uncompressed(&self) -> (r: Vec<u8>)
        ensures
            r@ == sec1_uncompressed(self@),
    {
        proof {
            use_type_invariant(self);
        }
        uncompressed_bytes(self.sec1.as_slice())
    }

    /// Whether this is the identity, the point at infinity.
    pub fn is_identity(&self) -> (r: bool)
        ensures
            r == (self@ == identity_sec1()),
    {
        let r = self.sec1.len() == 1 && self.sec1[0] == 0;
        proof {
            if r {
                assert(self.sec1@ =~= identity_sec1());
            }
        }
        r
    }

    /// The base point G.
    pub fn generator() -> (r: CurvePoint)
        ensures
            r@ == generator_sec1(),
            r.wf(),
    {
        CurvePoint { sec1: generator_bytes() }
    }

    /// The product of this point and `scalar`. Multiplying the product by
    /// another scalar gives what multiplying in the other order gives.
    pub fn mul(&self, scalar: &Scalar) -> (r: CurvePoint)
        ensures
            r@ == curve_mul(self@, scalar@),
            r.wf(),
            forall|t: Seq<u8>|
                t.len() == SCALAR_LEN ==> #[trigger] curve_mul(r@, t) == curve_mul(
                    curve_mul(self@, t),
                    scalar@,
                ),
    {
        proof {
            use_type_invariant(self);
        }
        CurvePoint { sec1: mul_bytes(self.sec1.as_slice(), &scalar.bytes) }
    }

    /// The sum of this point and `other`. The sum less this point is
    /// `other`.
    pub fn add(&self, other: &CurvePoint) -> (r: CurvePoint)
        ensures
            r@ == curve_add(self@, other@),
            r.wf(),
            curve_sub(r@, self@) == other@,
    {
        proof {
            use_type_invariant(self);
            use_type_invariant(other);
        }
        CurvePoint { sec1: add_bytes(self.sec1.as_slice(), other.sec1.as_slice()) }
    }

    /// The difference of this point and `other`.
    pub fn sub(&self, other: &CurvePoint) -> (r: CurvePoint)
        ensures
            r@ == curve_sub(self@, other@),
            r.wf(),
    {
        proof {
            use_type_invariant(self);
            use_type_invariant(other);
        }
        CurvePoint { sec1: sub_bytes(self.sec1.as_slice(), other.sec1.as_slice()) }
    }
}

} // verus!
