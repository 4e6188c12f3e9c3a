//! Hashing sequences with their domain separation tags, shared between the
//! parts of the protocol.
//!
//! Every scalar-producing hash absorbs its tag first; the spec functions
//! below pin the absorbed byte stream exactly.

use crate::curve::{point_encoding, CurvePoint, CurveScalar};
use crate::hashing::{digest_scalar, dst_tag, points_encoding, ScalarDigest};
use crate::key_frag::KeyFragID;
use crate::keys::PublicKey;
use vstd::prelude::*;

verus! {

/// The ASCII domain separation tag `POLYNOMIAL_ARG`.
pub open spec fn polynomial_arg_dst() -> Seq<u8> {
    seq![80u8, 79u8, 76u8, 89u8, 78u8, 79u8, 77u8, 73u8, 65u8, 76u8, 95u8, 65u8, 82u8, 71u8]
}

fn polynomial_arg_dst_bytes() -> (r: Vec<u8>)
    ensures
        r@ == polynomial_arg_dst(),
{
    let mut v: Vec<u8> = Vec::new();
    v.push(80u8);
    v.push(79u8);
    v.push(76u8);
    v.push(89u8);
    v.push(78u8);
    v.push(79u8);
    v.push(77u8);
    v.push(73u8);
    v.push(65u8);
    v.push(76u8);
    v.push(95u8);
    v.push(65u8);
    v.push(82u8);
    v.push(71u8);
    proof {
        assert(v@ =~= polynomial_arg_dst());
    }
    v
}

/// The ASCII domain separation tag `SHARED_SECRET`.
pub open spec fn shared_secret_dst() -> Seq<u8> {
    seq![83u8, 72u8, 65u8, 82u8, 69u8, 68u8, 95u8, 83u8, 69u8, 67u8, 82u8, 69u8, 84u8]
}

fn shared_secret_dst_bytes() -> (r: Vec<u8>)
    ensures
        r@ == shared_secret_dst(),
{
    let mut v: Vec<u8> = Vec::new();
    v.push(83u8);
    v.push(72u8);
    v.push(65u8);
    v.push(82u8);
    v.push(69u8);
    v.push(68u8);
    v.push(95u8);
    v.push(83u8);
    v.push(69u8);
    v.push(67u8);
    v.push(82u8);
    v.push(69u8);
    v.push(84u8);
    proof {
        assert(v@ =~= shared_secret_dst());
    }
    v
}

/// The ASCII domain separation tag `CAPSULE_POINTS`.
pub open spec fn capsule_points_dst() -> Seq<u8> {
    seq![67u8, 65u8, 80u8, 83u8, 85u8, 76u8, 69u8, 95u8, 80u8, 79u8, 73u8, 78u8, 84u8, 83u8]
}

fn capsule_points_dst_bytes() -> (r: Vec<u8>)
    ensures
        r@ == capsule_points_dst(),
{
    let mut v: Vec<u8> = Vec::new();
    v.push(67u8);
    v.push(65u8);
    v.push(80u8);
    v.push(83u8);
    v.push(85u8);
    v.push(76u8);
    v.push(69u8);
    v.push(95u8);
    v.push(80u8);
    v.push(79u8);
    v.push(73u8);
    v.push(78u8);
    v.push(84u8);
    v.push(83u8);
    proof {
        assert(v@ =~= capsule_points_dst());
    }
    v
}

/// The ASCII domain separation tag `CFRAG_VERIFICATION`.
pub open spec fn cfrag_verification_dst() -> Seq<u8> {
    seq![67u8, 70u8, 82u8, 65u8, 71u8, 95u8, 86u8, 69u8, 82u8, 73u8, 70u8, 73u8, 67u8, 65u8, 84u8, 73u8, 79u8, 78u8]
}

fn cfrag_verification_dst_bytes() -> (r: Vec<u8>)
    ensures
        r@ == cfrag_verification_dst(),
{
    let mut v: Vec<u8> = Vec::new();
    v.push(67u8);
    v.push(70u8);
    v.push(82u8);
    v.push(65u8);
    v.push(71u8);
    v.push(95u8);
    v.push(86u8);
    v.push(69u8);
    v.push(82u8);
    v.push(73u8);
    v.push(70u8);
    v.push(73u8);
    v.push(67u8);
    v.push(65u8);
    v.push(84u8);
    v.push(73u8);
    v.push(79u8);
    v.push(78u8);
    proof {
        assert(v@ =~= cfrag_verification_dst());
    }
    v
}

/// The scalar the polynomial-argument hash yields.
pub open spec fn spec_hash_to_polynomial_arg(precursor: nat, pubkey: nat, dh: nat, id: Seq<u8>) -> nat {
    digest_scalar(
        dst_tag(polynomial_arg_dst()) + point_encoding(precursor) + point_encoding(pubkey)
            + point_encoding(dh) + id,
    )
}

/// The share index for a key fragment: a domain-tagged hash of the
/// delegation precursor, the receiving public key, the shared point and the
/// fragment id.
pub(crate) fn hash_to_polynomial_arg(
    precursor: &CurvePoint,
    pubkey: &CurvePoint,
    dh_point: &CurvePoint,
    kfrag_id: &KeyFragID,
) -> (r: CurveScalar)
    requires
        precursor@ != 0,
        pubkey@ != 0,
        dh_point@ != 0,
    ensures
        r@ == spec_hash_to_polynomial_arg(precursor@, pubkey@, dh_point@, kfrag_id@),
{
    let digest = ScalarDigest::new_with_dst(polynomial_arg_dst_bytes().as_slice()).chain_point(
        precursor,
    ).chain_point(pubkey).chain_point(dh_point).chain_bytes(kfrag_id.as_slice());
    proof {
        assert(digest@ =~= dst_tag(polynomial_arg_dst()) + point_encoding(precursor@)
            + point_encoding(pubkey@) + point_encoding(dh_point@) + kfrag_id@);
    }
    digest.finalize()
}

/// The scalar the shared-secret hash yields.
pub open spec fn spec_hash_to_shared_secret(precursor: nat, pubkey: nat, dh: nat) -> nat {
    digest_scalar(
        dst_tag(shared_secret_dst()) + point_encoding(precursor) + point_encoding(pubkey)
            + point_encoding(dh),
    )
}

/// The delegation shared secret: a domain-tagged hash of the precursor, the
/// receiving public key and the shared point.
pub(crate) fn hash_to_shared_secret(
    precursor: &CurvePoint,
    pubkey: &CurvePoint,
    dh_point: &CurvePoint,
) -> (r: CurveScalar)
    requires
        precursor@ != 0,
        pubkey@ != 0,
        dh_point@ != 0,
    ensures
        r@ == spec_hash_to_shared_secret(precursor@, pubkey@, dh_point@),
{
    let digest = ScalarDigest::new_with_dst(shared_secret_dst_bytes().as_slice()).chain_point(
        precursor,
    ).chain_point(pubkey).chain_point(dh_point);
    proof {
        assert(digest@ =~= dst_tag(shared_secret_dst()) + point_encoding(precursor@)
            + point_encoding(pubkey@) + point_encoding(dh_point@));
    }
    digest.finalize()
}

/// The scalar the capsule-points hash yields.
pub open spec fn spec_hash_capsule_points(capsule_e: nat, capsule_v: nat) -> nat {
    digest_scalar(
        dst_tag(capsule_points_dst()) + point_encoding(capsule_e) + point_encoding(capsule_v),
    )
}

/// The capsule correctness challenge: a domain-tagged hash of the two
/// capsule points.
pub(crate) fn hash_capsule_points(capsule_e: &CurvePoint, capsule_v: &CurvePoint) -> (r:
    CurveScalar)
    requires
        capsule_e@ != 0,
        capsule_v@ != 0,
    ensures
        r@ == spec_hash_capsule_points(capsule_e@, capsule_v@),
{
    let digest = ScalarDigest::new_with_dst(capsule_points_dst_bytes().as_slice()).chain_point(
        capsule_e,
    ).chain_point(capsule_v);
    proof {
        assert(digest@ =~= dst_tag(capsule_points_dst()) + point_encoding(capsule_e@)
            + point_encoding(capsule_v@));
    }
    digest.finalize()
}

/// The metadata part of the re-encryption challenge stream: the metadata
/// bytes where present, nothing where absent.
pub open spec fn metadata_stream(metadata: Option<Seq<u8>>) -> Seq<u8> {
    match metadata {
        Some(m) => m,
        None => Seq::<u8>::empty(),
    }
}

/// The scalar the re-encryption challenge hash yields over the given point
/// logarithms and optional metadata.
pub open spec fn spec_hash_to_cfrag_verification(points: Seq<nat>, metadata: Option<Seq<u8>>) -> nat {
    digest_scalar(
        dst_tag(cfrag_verification_dst()) + points_encoding(points) + metadata_stream(metadata),
    )
}

/// The re-encryption challenge: a domain-tagged hash of the listed points
/// and, where given, the metadata bytes.
pub(crate) fn hash_to_cfrag_verification(points: &[CurvePoint], metadata: Option<&[u8]>) -> (r:
    CurveScalar)
    requires
        forall|i: int| 0 <= i < points@.len() ==> points@[i]@ != 0,
    ensures
        r@ == spec_hash_to_cfrag_verification(
            points@.map_values(|p: CurvePoint| p@),
            match metadata {
                Some(m) => Some(m@),
                None => None,
            },
        ),
{
    let digest = ScalarDigest::new_with_dst(cfrag_verification_dst_bytes().as_slice()).chain_points(
        points,
    );
    let digest = match metadata {
        Some(m) => digest.chain_bytes(m),
        None => digest,
    };
    proof {
        assert(digest@ =~= dst_tag(cfrag_verification_dst()) + points_encoding(
            points@.map_values(|p: CurvePoint| p@),
        ) + metadata_stream(
            match metadata {
                Some(m) => Some(m@),
                None => None,
            },
        ));
    }
    digest.finalize()
}

/// The byte stream both key fragment signatures cover: the fragment id, the
/// commitment, the precursor, then each optional identity behind its
/// presence byte.
pub open spec fn spec_kfrag_signature_message(
    id: Seq<u8>,
    commitment: nat,
    precursor: nat,
    maybe_delegating: Option<nat>,
    maybe_receiving: Option<nat>,
) -> Seq<u8> {
    id + point_encoding(commitment) + point_encoding(precursor) + (match maybe_delegating {
        Some(d) => seq![1u8] + point_encoding(d),
        None => seq![0u8],
    }) + (match maybe_receiving {
        Some(rr) => seq![1u8] + point_encoding(rr),
        None => seq![0u8],
    })
}

/// Assembles the message a key fragment signature covers, with whichever
/// identities are bound into it.
pub(crate) fn kfrag_signature_message(
    kfrag_id: &KeyFragID,
    commitment: &CurvePoint,
    precursor: &CurvePoint,
    maybe_delegating_pk: Option<&PublicKey>,
    maybe_receiving_pk: Option<&PublicKey>,
) -> (r: Vec<u8>)
    requires
        commitment@ != 0,
        precursor@ != 0,
    ensures
        r@ == spec_kfrag_signature_message(
            kfrag_id@,
            commitment@,
            precursor@,
            match maybe_delegating_pk {
                Some(pk) => Some(pk@),
                None => None,
            },
            match maybe_receiving_pk {
                Some(pk) => Some(pk@),
                None => None,
            },
        ),
{
    let mut result: Vec<u8> = Vec::new();
    crate::encoding::append_bytes(&mut result, kfrag_id.as_slice());
    let commitment_bytes = commitment.to_bytes();
    crate::encoding::append_bytes(&mut result, commitment_bytes.as_slice());
    let precursor_bytes = precursor.to_bytes();
    crate::encoding::append_bytes(&mut result, precursor_bytes.as_slice());
    match maybe_delegating_pk {
        Some(delegating_pk) => {
            result.push(1u8);
            let pk_bytes = delegating_pk.to_bytes();
            crate::encoding::append_bytes(&mut result, pk_bytes.as_slice());
        },
        None => {
            result.push(0u8);
        },
    }
    match maybe_receiving_pk {
        Some(receiving_pk) => {
            result.push(1u8);
            let pk_bytes = receiving_pk.to_bytes();
            crate::encoding::append_bytes(&mut result, pk_bytes.as_slice());
        },
        None => {
            result.push(0u8);
        },
    }
    proof {
        assert(result@ =~= spec_kfrag_signature_message(
            kfrag_id@,
            commitment@,
            precursor@,
            match maybe_delegating_pk {
                Some(pk) => Some(pk@),
                None => None,
            },
            match maybe_receiving_pk {
                Some(pk) => Some(pk@),
                None => None,
            },
        ));
    }
    result
}

} // verus!
