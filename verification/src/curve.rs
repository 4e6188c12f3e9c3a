//! Adapter to the secp256k1 backend.
//!
//! The backend types are opaque to the verifier. Their contracts speak of two
//! abstraction functions: `scalar_nat` maps a backend scalar to its field
//! value, and `point_nat` maps a backend group element to its discrete
//! logarithm with respect to the generator. The secp256k1 group has prime
//! order (`arith::group_order`) and cofactor one, so every group element is a
//! multiple of the generator and `point_nat` is total; both functions return
//! naturals below the group order.

use crate::arith::{addq, group_order, mulq, subq};
use crate::encoding::be_value;
use k256::elliptic_curve::ops::Reduce;
use k256::elliptic_curve::sec1::{FromEncodedPoint, ToEncodedPoint};
use k256::elliptic_curve::{Group, PrimeField};
use rand_core::OsRng;
use vstd::prelude::*;

verus! {

#[verifier::external_type_specification]
#[verifier::external_body]
pub struct ExScalar(k256::Scalar);

#[verifier::external_type_specification]
#[verifier::external_body]
pub struct ExProjectivePoint(k256::ProjectivePoint);

/// The field value a backend scalar holds, a natural below the group order.
pub uninterp spec fn scalar_nat(s: k256::Scalar) -> nat;

/// The discrete logarithm of a backend group element with respect to the
/// generator, a natural below the group order.
pub uninterp spec fn point_nat(p: k256::ProjectivePoint) -> nat;

/// The 33-byte SEC1 compressed encoding of the non-identity group element
/// with the given discrete logarithm.
pub uninterp spec fn point_encoding(d: nat) -> Seq<u8>;

/// The discrete logarithm of the point a byte string under a compressed
/// `0x02`/`0x03` tag decodes to, or `None` where such bytes are not a valid
/// encoding. Nothing is claimed of byte strings under other tags; the
/// verified decoder rejects those before the backend is consulted.
pub uninterp spec fn point_decoding(b: Seq<u8>) -> Option<nat>;

/// A scalar of the secp256k1 scalar field.
#[derive(Clone, Copy, Debug)]
pub struct CurveScalar {
    /// The opaque backend scalar; its field value is `scalar_nat` of it.
    pub backend: k256::Scalar,
}

impl View for CurveScalar {
    type V = nat;

    open spec fn view(&self) -> nat {
        scalar_nat(self.backend)
    }
}

impl CurveScalar {
    /// Relies on `k256::Scalar::ONE`.
    #[verifier::external_body]
    pub fn one() -> (r: Self)
        ensures
            r@ == 1,
    {
        Self { backend: k256::Scalar::ONE }
    }

    /// Relies on `k256::Scalar::ZERO`.
    #[verifier::external_body]
    pub fn zero() -> (r: Self)
        ensures
            r@ == 0,
    {
        Self { backend: k256::Scalar::ZERO }
    }

    /// Relies on `k256::Scalar::is_zero`.
    #[verifier::external_body]
    pub fn is_zero(&self) -> (r: bool)
        ensures
            r == (self@ == 0),
    {
        self.backend.is_zero().into()
    }

    /// Relies on `k256::Scalar`'s `PartialEq`: field-element equality.
    #[verifier::external_body]
    pub fn equals(&self, other: &Self) -> (r: bool)
        ensures
            r == (scalar_nat(self.backend) == scalar_nat(other.backend)),
    {
        self.backend == other.backend
    }

    /// Relies on `k256::Scalar`'s `Add`: field addition modulo the order.
    #[verifier::external_body]
    pub fn add(&self, other: &Self) -> (r: Self)
        ensures
            r@ == addq(self@, other@),
    {
        Self { backend: self.backend + other.backend }
    }

    /// Relies on `k256::Scalar`'s `Sub`: field subtraction modulo the order.
    #[verifier::external_body]
    pub fn sub(&self, other: &Self) -> (r: Self)
        ensures
            r@ == subq(self@, other@),
    {
        Self { backend: self.backend - other.backend }
    }

    /// Relies on `k256::Scalar`'s `Mul`: field multiplication modulo the order.
    #[verifier::external_body]
    pub fn mul(&self, other: &Self) -> (r: Self)
        ensures
            r@ == mulq(self@, other@),
    {
        Self { backend: self.backend * other.backend }
    }

    /// Relies on `k256::Scalar::invert`: `None` exactly on zero, else the
    /// multiplicative inverse modulo the order.
    #[verifier::external_body]
    pub fn invert(&self) -> (r: Option<Self>)
        ensures
            r is Some <==> self@ != 0,
            r matches Some(s) ==> s@ < group_order() && mulq(self@, s@) == 1,
    {
        Option::from(self.backend.invert().map(|s| Self { backend: s }))
    }

    /// Relies on `elliptic_curve::NonZeroScalar::random`: uniform over the
    /// nonzero field elements. Aborts the process if the operating system's
    /// randomness source fails.
    #[verifier::external_body]
    pub fn random_nonzero() -> (r: Self)
        ensures
            0 < r@ < group_order(),
    {
        let nz = k256::NonZeroScalar::random(&mut OsRng);
        Self { backend: *nz }
    }

    /// Relies on `k256::Scalar::from_repr`: accepts exactly the canonical
    /// 32-byte big-endian encodings of values below the order.
    #[verifier::external_body]
    pub fn from_bytes(bytes: &[u8]) -> (r: Option<Self>)
        requires
            bytes@.len() == 32,
        ensures
            r is Some <==> be_value(bytes@) < group_order(),
            r matches Some(s) ==> s@ == be_value(bytes@),
    {
        let arr = k256::FieldBytes::from_slice(bytes);
        Option::from(k256::Scalar::from_repr(*arr).map(|s| Self { backend: s }))
    }

    /// Relies on `k256::Scalar::to_bytes`: the canonical 32-byte big-endian
    /// encoding of the field value.
    #[verifier::external_body]
    pub fn to_bytes(&self) -> (r: Vec<u8>)
        ensures
            r@.len() == 32,
            be_value(r@) == self@,
    {
        self.backend.to_bytes().to_vec()
    }

    /// Relies on `k256::Scalar`'s `Reduce<U256>`: reduces a 32-byte
    /// big-endian integer modulo the order (a single conditional subtraction,
    /// complete because the order exceeds half the 256-bit range).
    #[verifier::external_body]
    pub fn from_digest(bytes: &[u8]) -> (r: Self)
        requires
            bytes@.len() == 32,
        ensures
            r@ == be_value(bytes@) % group_order(),
    {
        let arr = k256::FieldBytes::from_slice(bytes);
        Self { backend: <k256::Scalar as Reduce<k256::U256>>::reduce_bytes(arr) }
    }
}

/// An element of the secp256k1 group of points.
#[derive(Clone, Copy, Debug)]
pub struct CurvePoint {
    /// The opaque backend element; its discrete logarithm is `point_nat` of it.
    pub backend: k256::ProjectivePoint,
}

impl View for CurvePoint {
    type V = nat;

    open spec fn view(&self) -> nat {
        point_nat(self.backend)
    }
}

impl CurvePoint {
    /// Relies on `k256::ProjectivePoint::GENERATOR`.
    #[verifier::external_body]
    pub fn generator() -> (r: Self)
        ensures
            r@ == 1,
    {
        Self { backend: k256::ProjectivePoint::GENERATOR }
    }

    /// Relies on `k256::ProjectivePoint::IDENTITY`.
    #[verifier::external_body]
    pub fn identity() -> (r: Self)
        ensures
            r@ == 0,
    {
        Self { backend: k256::ProjectivePoint::IDENTITY }
    }

    /// Relies on `k256::ProjectivePoint::is_identity`.
    #[verifier::external_body]
    pub fn is_identity(&self) -> (r: bool)
        ensures
            r == (self@ == 0),
    {
        self.backend.is_identity().into()
    }

    /// Relies on `k256::ProjectivePoint`'s `PartialEq`: group-element
    /// equality, which coincides with equal discrete logarithms.
    #[verifier::external_body]
    pub fn equals(&self, other: &Self) -> (r: bool)
        ensures
            r == (point_nat(self.backend) == point_nat(other.backend)),
    {
        self.backend == other.backend
    }

    /// Relies on `k256::ProjectivePoint`'s `Add`: the group operation, whose
    /// discrete logarithm is the sum of the summands' modulo the order.
    #[verifier::external_body]
    pub fn add(&self, other: &Self) -> (r: Self)
        ensures
            r@ == addq(self@, other@),
    {
        Self { backend: self.backend + other.backend }
    }

    /// Relies on `k256::ProjectivePoint`'s `Mul<Scalar>`: scalar
    /// multiplication, whose discrete logarithm is the product modulo the
    /// order.
    #[verifier::external_body]
    pub fn mul(&self, scalar: &CurveScalar) -> (r: Self)
        ensures
            r@ == mulq(self@, scalar@),
    {
        Self { backend: self.backend * scalar.backend }
    }

    /// Relies on `ToEncodedPoint::to_encoded_point(true)`: the 33-byte SEC1
    /// compressed encoding of a non-identity point, tagged `0x02` or `0x03`
    /// by the y parity, which `from_encoded_point` decodes back to the same
    /// point.
    #[verifier::external_body]
    pub fn to_bytes(&self) -> (r: Vec<u8>)
        requires
            self@ != 0,
        ensures
            r@.len() == 33,
            r@[0] == 2 || r@[0] == 3,
            r@ == point_encoding(self@),
            point_decoding(r@) == Some(self@),
    {
        self.backend.to_affine().to_encoded_point(true).as_bytes().to_vec()
    }

    /// Relies on `EncodedPoint::from_bytes` and
    /// `FromEncodedPoint::from_encoded_point`: under a compressed
    /// `0x02`/`0x03` tag they accept exactly the valid canonical encodings,
    /// each of which decodes to the unique non-identity point it encodes.
    /// The tag restriction in the `requires` matters: the backend alone
    /// would also accept the 33-byte compact `0x05` form, a second encoding
    /// of the same point.
    #[verifier::external_body]
    fn decode_compressed(bytes: &[u8]) -> (r: Option<Self>)
        requires
            bytes@.len() == 33,
            bytes@[0] == 2 || bytes@[0] == 3,
        ensures
            r is Some <==> point_decoding(bytes@) is Some,
            r matches Some(p) ==> point_decoding(bytes@) == Some(p@) && 0 < p@ < group_order()
                && bytes@ == point_encoding(p@),
    {
        let ep = match k256::EncodedPoint::from_bytes(bytes) {
            Ok(ep) => ep,
            Err(_) => {
                return None;
            },
        };
        let cp: Option<k256::ProjectivePoint> = k256::ProjectivePoint::from_encoded_point(
            &ep,
        ).into();
        cp.map(|p| Self { backend: p })
    }

    /// Decodes a 33-byte compressed encoding, rejecting any tag but `0x02`
    /// and `0x03` before the backend is consulted.
    pub fn from_bytes(bytes: &[u8]) -> (r: Option<Self>)
        requires
            bytes@.len() == 33,
        ensures
            r is Some <==> (bytes@[0] == 2 || bytes@[0] == 3) && point_decoding(bytes@) is Some,
            r matches Some(p) ==> point_decoding(bytes@) == Some(p@) && 0 < p@ < group_order()
                && bytes@ == point_encoding(p@),
    {
        let tag = *vstd::slice::slice_index_get(bytes, 0);
        if tag != 2 && tag != 3 {
            return None;
        }
        Self::decode_compressed(bytes)
    }
}

} // verus!
