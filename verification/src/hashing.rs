//! The scalar digest: absorbs tagged byte strings and reduces a SHA-256
//! digest to a field scalar.
//!
//! Every absorption sequence starts with a domain separation tag, prefixed
//! with its 4-byte big-endian length.

use crate::arith::group_order;
use crate::curve::{point_encoding, CurvePoint, CurveScalar};
use crate::encoding::{append_bytes, be_value};
use sha2::{Digest, Sha256};
use vstd::prelude::*;

verus! {

/// The 32-byte SHA-256 digest of a byte string.
pub uninterp spec fn sha256_digest(data: Seq<u8>) -> Seq<u8>;

/// Relies on `sha2::Sha256::digest`: the result depends on the input bytes
/// alone.
#[verifier::external_body]
pub(crate) fn sha256(data: &[u8]) -> (r: Vec<u8>)
    ensures
        r@ == sha256_digest(data@),
        r@.len() == 32,
{
    Sha256::digest(data).to_vec()
}

/// The scalar a digest over `data` reduces to: the 32-byte SHA-256 output
/// read big-endian, modulo the group order.
pub open spec fn digest_scalar(data: Seq<u8>) -> nat {
    be_value(sha256_digest(data)) % group_order()
}

/// A domain separation tag with its 4-byte big-endian length prefix. All
/// tags of this crate are shorter than 256 bytes, so the first three prefix
/// bytes are zero.
pub open spec fn dst_tag(dst: Seq<u8>) -> Seq<u8> {
    seq![0u8, 0u8, 0u8, dst.len() as u8] + dst
}

/// The concatenation of the compressed encodings of a sequence of
/// non-identity group elements, given by their discrete logarithms.
pub open spec fn points_encoding(ds: Seq<nat>) -> Seq<u8>
    decreases ds.len(),
{
    if ds.len() == 0 {
        Seq::<u8>::empty()
    } else {
        points_encoding(ds.drop_last()) + point_encoding(ds.last())
    }
}

/// An accumulating digest that absorbs domain-tagged data and finalizes to a
/// field scalar.
pub struct ScalarDigest {
    data: Vec<u8>,
}

impl View for ScalarDigest {
    type V = Seq<u8>;

    closed spec fn view(&self) -> Seq<u8> {
        self.data@
    }
}

impl ScalarDigest {
    /// Starts a digest with the length-prefixed domain separation tag.
    pub fn new_with_dst(dst: &[u8]) -> (r: Self)
        requires
            dst@.len() < 256,
        ensures
            r@ == dst_tag(dst@),
    {
        let mut data: Vec<u8> = Vec::new();
        data.push(0u8);
        data.push(0u8);
        data.push(0u8);
        data.push(dst.len() as u8);
        append_bytes(&mut data, dst);
        proof {
            assert(data@ =~= dst_tag(dst@));
        }
        ScalarDigest { data }
    }

    /// Absorbs raw bytes.
    pub fn chain_bytes(self, bytes: &[u8]) -> (r: Self)
        ensures
            r@ == self@ + bytes@,
    {
        let mut data = self.data;
        append_bytes(&mut data, bytes);
        ScalarDigest { data }
    }

    /// Absorbs the compressed encoding of a non-identity point.
    pub fn chain_point(self, point: &CurvePoint) -> (r: Self)
        requires
            point@ != 0,
        ensures
            r@ == self@ + point_encoding(point@),
    {
        let mut data = self.data;
        let encoded = point.to_bytes();
        append_bytes(&mut data, encoded.as_slice());
        ScalarDigest { data }
    }

    /// Absorbs the compressed encodings of non-identity points in order.
    pub fn chain_points(self, points: &[CurvePoint]) -> (r: Self)
        requires
            forall|i: int| 0 <= i < points@.len() ==> points@[i]@ != 0,
        ensures
            r@ == self@ + points_encoding(points@.map_values(|p: CurvePoint| p@)),
    {
        let ghost init = self@;
        let ghost ds = points@.map_values(|p: CurvePoint| p@);
        let mut acc = self;
        let n = points.len();
        for i in 0..n
            invariant
                n == points@.len(),
                ds == points@.map_values(|p: CurvePoint| p@),
                forall|j: int| 0 <= j < points@.len() ==> points@[j]@ != 0,
                acc@ == init + points_encoding(ds.subrange(0, i as int)),
        {
            let p = *vstd::slice::slice_index_get(points, i);
            acc = acc.chain_point(&p);
            proof {
                assert(ds.subrange(0, i + 1).drop_last() =~= ds.subrange(0, i as int));
                assert(ds.subrange(0, i + 1).last() == points@[i as int]@);
            }
        }
        proof {
            assert(ds.subrange(0, ds.len() as int) =~= ds);
        }
        acc
    }

    /// Reduces the SHA-256 digest of everything absorbed to a scalar.
    pub fn finalize(self) -> (r: CurveScalar)
        ensures
            r@ == digest_scalar(self@),
    {
        let digest = sha256(self.data.as_slice());
        CurveScalar::from_digest(digest.as_slice())
    }
}

} // verus!
