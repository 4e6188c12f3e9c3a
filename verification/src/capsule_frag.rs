//! Capsule fragments: re-encryption outputs with their correctness proofs.
//!
//! A proxy transforms a capsule under its key fragment and attaches a
//! Chaum-Pedersen-style proof that the same share was used on the `E` side,
//! the `V` side and the commitment side, bound to optional per-reencryption
//! metadata.

use crate::arith::{addq, group_order, mulq};
use crate::capsule::{capsule_correct, Capsule};
use crate::curve::{point_decoding, CurvePoint, CurveScalar};
use crate::encoding::{
    append_bytes, be_value, bool_byte, take_bytes, u32_from_be_bytes, u32_to_be_bytes,
    DeserializationError,
};
use crate::hashing_ds::{
    hash_to_cfrag_verification, kfrag_signature_message, spec_hash_to_cfrag_verification,
    spec_kfrag_signature_message,
};
use crate::key_frag::{KeyFragID, VerifiedKeyFrag};
use crate::keys::{ecdsa_verifies, PublicKey, Signature};
use crate::params::Parameters;
use vstd::prelude::*;

verus! {

/// Re-encryption failed.
#[derive(Clone, Copy, Debug, PartialEq, Eq, Structural)]
pub enum ReencryptionError {
    /// The capsule does not satisfy its correctness equation.
    CapsuleVerificationFailed,
    /// A transformed point degenerated to the identity (statistically
    /// unreachable).
    DegeneratePoint,
}

/// Why a capsule fragment failed verification.
#[derive(Clone, Copy, Debug, PartialEq, Eq, Structural)]
pub enum CapsuleFragVerificationError {
    /// One of the three proof equations failed.
    IncorrectReencryption,
    /// The embedded key fragment signature does not check out.
    IncorrectKeyFragSignature,
}

/// The proof carried by a capsule fragment.
///
/// Interop decision: the wire form carries the 64-byte receiver-facing key
/// fragment signature between the response scalar and the metadata; offline
/// verification of the fragment is impossible without it.
pub struct CapsuleFragProof {
    pub(crate) point_e2: CurvePoint,
    pub(crate) point_v2: CurvePoint,
    pub(crate) kfrag_commitment: CurvePoint,
    pub(crate) kfrag_pok: CurvePoint,
    pub(crate) signature: CurveScalar,
    pub(crate) kfrag_signature: Signature,
    pub(crate) metadata: Option<Vec<u8>>,
}

impl CapsuleFragProof {
    #[verifier::type_invariant]
    pub(crate) open spec fn type_inv(&self) -> bool {
        &&& 0 < self.point_e2@ < group_order()
        &&& 0 < self.point_v2@ < group_order()
        &&& 0 < self.kfrag_commitment@ < group_order()
        &&& 0 < self.kfrag_pok@ < group_order()
        &&& self.signature@ < group_order()
        &&& (self.metadata matches Some(m) ==> m@.len() <= 0xFFFFFFFF)
    }

    /// The discrete logarithm of `e2`.
    pub closed spec fn spec_e2(&self) -> nat {
        self.point_e2@
    }

    /// The discrete logarithm of `v2`.
    pub closed spec fn spec_v2(&self) -> nat {
        self.point_v2@
    }

    /// The discrete logarithm of the key fragment commitment `u1`.
    pub closed spec fn spec_u1(&self) -> nat {
        self.kfrag_commitment@
    }

    /// The discrete logarithm of the proof commitment `u2`.
    pub closed spec fn spec_u2(&self) -> nat {
        self.kfrag_pok@
    }

    /// The response scalar `z`.
    pub closed spec fn spec_z(&self) -> nat {
        self.signature@
    }

    /// The embedded receiver-facing key fragment signature.
    pub closed spec fn spec_kfrag_sig(&self) -> Seq<u8> {
        self.kfrag_signature@
    }

    /// The metadata bound into the challenge at re-encryption time.
    pub closed spec fn spec_metadata(&self) -> Option<Seq<u8>> {
        match self.metadata {
            Some(m) => Some(m@),
            None => None,
        }
    }
}

/// A capsule fragment as it travels.
pub struct CapsuleFrag {
    pub(crate) point_e1: CurvePoint,
    pub(crate) point_v1: CurvePoint,
    pub(crate) kfrag_id: KeyFragID,
    pub(crate) precursor: CurvePoint,
    pub(crate) proof: CapsuleFragProof,
}

impl CapsuleFrag {
    #[verifier::type_invariant]
    pub(crate) open spec fn type_inv(&self) -> bool {
        &&& 0 < self.point_e1@ < group_order()
        &&& 0 < self.point_v1@ < group_order()
        &&& 0 < self.precursor@ < group_order()
    }

    /// The discrete logarithm of `e1`.
    pub closed spec fn spec_e1(&self) -> nat {
        self.point_e1@
    }

    /// The discrete logarithm of `v1`.
    pub closed spec fn spec_v1(&self) -> nat {
        self.point_v1@
    }

    /// The key fragment identifier.
    pub closed spec fn spec_id(&self) -> Seq<u8> {
        self.kfrag_id@
    }

    /// The discrete logarithm of the delegation precursor.
    pub closed spec fn spec_precursor(&self) -> nat {
        self.precursor@
    }

    /// The attached proof.
    pub closed spec fn spec_proof(&self) -> CapsuleFragProof {
        self.proof
    }

    pub(crate) fn e1_point(&self) -> (r: &CurvePoint)
        ensures
            r@ == self.spec_e1(),
            0 < self.spec_e1() < group_order(),
    {
        proof {
            use_type_invariant(&*self);
        }
        &self.point_e1
    }

    pub(crate) fn v1_point(&self) -> (r: &CurvePoint)
        ensures
            r@ == self.spec_v1(),
            0 < self.spec_v1() < group_order(),
    {
        proof {
            use_type_invariant(&*self);
        }
        &self.point_v1
    }

    pub(crate) fn id_ref(&self) -> (r: &KeyFragID)
        ensures
            r@ == self.spec_id(),
    {
        &self.kfrag_id
    }

    pub(crate) fn precursor_point(&self) -> (r: &CurvePoint)
        ensures
            r@ == self.spec_precursor(),
            0 < self.spec_precursor() < group_order(),
    {
        proof {
            use_type_invariant(&*self);
        }
        &self.precursor
    }
}

/// The re-encryption challenge scalar over the capsule points, the
/// transformed points, the proof commitments and the metadata.
pub open spec fn spec_cfrag_challenge(
    e: nat,
    v: nat,
    u: nat,
    cf: CapsuleFrag,
    metadata: Option<Seq<u8>>,
) -> nat {
    spec_hash_to_cfrag_verification(
        seq![
            e,
            cf.spec_e1(),
            cf.spec_proof().spec_e2(),
            v,
            cf.spec_v1(),
            cf.spec_proof().spec_v2(),
            u,
            cf.spec_proof().spec_u1(),
            cf.spec_proof().spec_u2(),
        ],
        metadata,
    )
}

/// The three Chaum-Pedersen equations, in the exponent, under the given
/// metadata: `E*z == e2 + e1*h`, `V*z == v2 + v1*h`, `U*z == u2 + u1*h`.
pub open spec fn spec_cfrag_proof_ok(
    e: nat,
    v: nat,
    u: nat,
    cf: CapsuleFrag,
    metadata: Option<Seq<u8>>,
) -> bool {
    let h = spec_cfrag_challenge(e, v, u, cf, metadata);
    let z = cf.spec_proof().spec_z();
    &&& mulq(e, z) == addq(cf.spec_proof().spec_e2(), mulq(cf.spec_e1(), h))
    &&& mulq(v, z) == addq(cf.spec_proof().spec_v2(), mulq(cf.spec_v1(), h))
    &&& mulq(u, z) == addq(cf.spec_proof().spec_u2(), mulq(cf.spec_proof().spec_u1(), h))
}

/// Whether the embedded key fragment signature verifies with both
/// identities bound.
pub open spec fn spec_cfrag_sig_ok(
    cf: CapsuleFrag,
    verifying_pk: nat,
    delegating_pk: nat,
    receiving_pk: nat,
) -> bool {
    ecdsa_verifies(
        verifying_pk,
        spec_kfrag_signature_message(
            cf.spec_id(),
            cf.spec_proof().spec_u1(),
            cf.spec_precursor(),
            Some(delegating_pk),
            Some(receiving_pk),
        ),
        cf.spec_proof().spec_kfrag_sig(),
    )
}

/// One common base `b`: `b*(t + h*rk) == b*t + (b*rk)*h` in the exponent.
proof fn lemma_cp_equation(b: nat, t: nat, h: nat, rk: nat)
    ensures
        mulq(b, addq(t, mulq(h, rk))) == addq(mulq(b, t), mulq(mulq(b, rk), h)),
{
    crate::arith::lemma_mulq_distrib(b, t, mulq(h, rk));
    crate::arith::lemma_mulq_assoc(b, h, rk);
    crate::arith::lemma_mulq_assoc(b, rk, h);
    crate::arith::lemma_mulq_comm(h, rk);
    crate::arith::lemma_mulq_mod_noop(b, mulq(h, rk));
}

/// Re-encrypts a capsule under a verified key fragment, attaching the
/// Chaum-Pedersen proof and binding the optional metadata.
///
/// Fails with `CapsuleVerificationFailed` exactly where the capsule breaks
/// its correctness equation, and with `DegeneratePoint` only on
/// statistically unreachable degeneracies.
pub fn reencrypt(
    params: &Parameters,
    capsule: &Capsule,
    verified_kfrag: &VerifiedKeyFrag,
    metadata: Option<&[u8]>,
) -> (r: Result<VerifiedCapsuleFrag, ReencryptionError>)
    requires
        (metadata matches Some(m) ==> m@.len() <= 0xFFFFFFFF),
    ensures
        (r matches Err(e) && e == ReencryptionError::CapsuleVerificationFailed) <==> !capsule_correct(
            capsule.spec_e(),
            capsule.spec_v(),
            capsule.spec_s(),
        ),
        r matches Ok(vc) ==> {
            let cf = vc.spec_cfrag();
            let kf = verified_kfrag.spec_kfrag();
            &&& cf.spec_e1() == mulq(capsule.spec_e(), kf.spec_key())
            &&& cf.spec_v1() == mulq(capsule.spec_v(), kf.spec_key())
            &&& cf.spec_id() == kf.spec_id()
            &&& cf.spec_precursor() == kf.spec_precursor()
            &&& cf.spec_proof().spec_u1() == mulq(params@, kf.spec_key())
            &&& cf.spec_proof().spec_kfrag_sig() == kf.spec_sig_bob()
            &&& cf.spec_proof().spec_metadata() == (match metadata {
                Some(m) => Some(m@),
                None => None,
            })
            &&& spec_cfrag_proof_ok(
                capsule.spec_e(),
                capsule.spec_v(),
                params@,
                cf,
                match metadata {
                    Some(m) => Some(m@),
                    None => None,
                },
            )
        },
{
    if !capsule.verify() {
        return Err(ReencryptionError::CapsuleVerificationFailed);
    }
    let kfrag = verified_kfrag.kfrag_ref();
    proof {
        use_type_invariant(kfrag);
    }
    let rk = &kfrag.key;
    let e1 = capsule.e_point().mul(rk);
    let v1 = capsule.v_point().mul(rk);
    let t = CurveScalar::random_nonzero();
    let e2 = capsule.e_point().mul(&t);
    let v2 = capsule.v_point().mul(&t);
    let u1 = params.u_point().mul(rk);
    let u2 = params.u_point().mul(&t);
    if e1.is_identity() || v1.is_identity() || e2.is_identity() || v2.is_identity()
        || u1.is_identity() || u2.is_identity() {
        return Err(ReencryptionError::DegeneratePoint);
    }
    let mut points: Vec<CurvePoint> = Vec::new();
    points.push(*capsule.e_point());
    points.push(e1);
    points.push(e2);
    points.push(*capsule.v_point());
    points.push(v1);
    points.push(v2);
    points.push(*params.u_point());
    points.push(u1);
    points.push(u2);
    let h = hash_to_cfrag_verification(points.as_slice(), metadata);
    proof {
        assert(points@.map_values(|p: CurvePoint| p@) =~= seq![
            capsule.spec_e(),
            e1@,
            e2@,
            capsule.spec_v(),
            v1@,
            v2@,
            params@,
            u1@,
            u2@,
        ]);
    }
    let z = t.add(&h.mul(rk));
    let metadata_vec: Option<Vec<u8>> = match metadata {
        Some(m) => Some(take_bytes(m, 0, m.len())),
        None => None,
    };
    let id_slice = kfrag.id.as_slice();
    let id_copy = take_bytes(id_slice, 0, 32);
    proof {
        crate::key_frag::lemma_kfrag_fields(kfrag);
        lemma_cp_equation(capsule.spec_e(), t@, h@, rk@);
        lemma_cp_equation(capsule.spec_v(), t@, h@, rk@);
        lemma_cp_equation(params@, t@, h@, rk@);
        crate::arith::lemma_addq_bound(t@, mulq(h@, rk@));
        assert(id_slice@.subrange(0, 32) =~= id_slice@);
        match metadata {
            Some(m) => {
                assert(m@.subrange(0, m@.len() as int) =~= m@);
            },
            None => {},
        }
    }
    let cfrag = CapsuleFrag {
        point_e1: e1,
        point_v1: v1,
        kfrag_id: KeyFragID::from_vec(id_copy),
        precursor: kfrag.precursor,
        proof: CapsuleFragProof {
            point_e2: e2,
            point_v2: v2,
            kfrag_commitment: u1,
            kfrag_pok: u2,
            signature: z,
            kfrag_signature: Signature::from_vec(kfrag.signature_for_bob.to_bytes()),
            metadata: metadata_vec,
        },
    };
    Ok(VerifiedCapsuleFrag { cfrag })
}

/// Law: a fragment produced by an honest proxy passes verification — all
/// three Chaum-Pedersen equations hold, and the carried receiver signature
/// checks out for a fragment whose commitment commits to its key and whose
/// receiver signature is valid under the verifying key.
///
/// The failure arm of the verification is proven unreachable; only
/// re-encryption itself can fail, on a bad capsule or a statistically
/// unreachable degeneracy.
pub fn reencryption_verifies(
    params: &Parameters,
    capsule: &Capsule,
    verified_kfrag: &VerifiedKeyFrag,
    metadata: Option<&[u8]>,
    verifying_pk: &PublicKey,
    delegating_pk: &PublicKey,
    receiving_pk: &PublicKey,
) -> (r: Option<VerifiedCapsuleFrag>)
    requires
        (metadata matches Some(m) ==> m@.len() <= 0xFFFFFFFF),
        verified_kfrag.spec_kfrag().spec_commitment() == mulq(
            params@,
            verified_kfrag.spec_kfrag().spec_key(),
        ),
        crate::key_frag::spec_kfrag_bob_valid(
            verified_kfrag.spec_kfrag(),
            verifying_pk@,
            delegating_pk@,
            receiving_pk@,
        ),
    ensures
        r matches Some(vc) ==> spec_cfrag_proof_ok(
            capsule.spec_e(),
            capsule.spec_v(),
            params@,
            vc.spec_cfrag(),
            match metadata {
                Some(m) => Some(m@),
                None => None,
            },
        ) && spec_cfrag_sig_ok(vc.spec_cfrag(), verifying_pk@, delegating_pk@, receiving_pk@),
{
    let vcfrag = match reencrypt(params, capsule, verified_kfrag, metadata) {
        Ok(vc) => vc,
        Err(_) => {
            return None;
        },
    };
    let cfrag = vcfrag.unverify();
    match cfrag.verify(capsule, params, verifying_pk, delegating_pk, receiving_pk, metadata) {
        Ok(vc) => Some(vc),
        Err(_) => {
            proof {
                assert(false);
            }
            None
        },
    }
}

/// Re-encrypts and immediately re-verifies, deciding the hypotheses of
/// `reencryption_verifies` at run time: the key fragment's commitment and
/// receiver-facing signature are checked first, and `None` is returned
/// where they do not hold or the metadata is oversized.
pub fn reencrypt_and_verify(
    params: &Parameters,
    capsule: &Capsule,
    verified_kfrag: &VerifiedKeyFrag,
    metadata: Option<&[u8]>,
    verifying_pk: &PublicKey,
    delegating_pk: &PublicKey,
    receiving_pk: &PublicKey,
) -> (r: Option<VerifiedCapsuleFrag>)
    ensures
        r matches Some(vc) ==> spec_cfrag_proof_ok(
            capsule.spec_e(),
            capsule.spec_v(),
            params@,
            vc.spec_cfrag(),
            match metadata {
                Some(m) => Some(m@),
                None => None,
            },
        ) && spec_cfrag_sig_ok(vc.spec_cfrag(), verifying_pk@, delegating_pk@, receiving_pk@),
{
    match metadata {
        Some(m) => {
            if m.len() > 0xFFFFFFFF {
                return None;
            }
        },
        None => {},
    }
    let kfrag = verified_kfrag.kfrag_ref();
    proof {
        use_type_invariant(kfrag);
        crate::key_frag::lemma_kfrag_fields(kfrag);
    }
    let expected = params.u_point().mul(&kfrag.key);
    if !kfrag.commitment.equals(&expected) {
        return None;
    }
    let message = kfrag_signature_message(
        &kfrag.id,
        &kfrag.commitment,
        &kfrag.precursor,
        Some(delegating_pk),
        Some(receiving_pk),
    );
    if !kfrag.signature_for_bob.verify(verifying_pk, message.as_slice()) {
        return None;
    }
    reencryption_verifies(
        params,
        capsule,
        verified_kfrag,
        metadata,
        verifying_pk,
        delegating_pk,
        receiving_pk,
    )
}

/// A capsule fragment that passed verification; only these enter
/// decryption.
pub struct VerifiedCapsuleFrag {
    pub(crate) cfrag: CapsuleFrag,
}

impl VerifiedCapsuleFrag {
    /// The underlying fragment.
    pub closed spec fn spec_cfrag(&self) -> CapsuleFrag {
        self.cfrag
    }

    pub(crate) fn cfrag_ref(&self) -> (r: &CapsuleFrag)
        ensures
            r == self.spec_cfrag(),
    {
        &self.cfrag
    }

    /// Downgrades to the unverified fragment.
    pub fn unverify(self) -> (r: CapsuleFrag)
        ensures
            r == self.spec_cfrag(),
    {
        self.cfrag
    }

    /// Serialization downgrades to the unverified wire form.
    pub fn to_bytes(&self) -> (r: Vec<u8>)
        ensures
            cfrag_bytes_match(self.spec_cfrag(), r@),
    {
        self.cfrag.to_bytes()
    }
}

/// How a serialized capsule fragment lays out its fields.
pub open spec fn cfrag_bytes_match(cf: CapsuleFrag, b: Seq<u8>) -> bool {
    &&& b.len() >= 360
    &&& (b[0] == 2 || b[0] == 3)
    &&& point_decoding(b.subrange(0, 33)) == Some(cf.spec_e1())
    &&& (b[33] == 2 || b[33] == 3)
    &&& point_decoding(b.subrange(33, 66)) == Some(cf.spec_v1())
    &&& b.subrange(66, 98) == cf.spec_id()
    &&& (b[98] == 2 || b[98] == 3)
    &&& point_decoding(b.subrange(98, 131)) == Some(cf.spec_precursor())
    &&& (b[131] == 2 || b[131] == 3)
    &&& point_decoding(b.subrange(131, 164)) == Some(cf.spec_proof().spec_e2())
    &&& (b[164] == 2 || b[164] == 3)
    &&& point_decoding(b.subrange(164, 197)) == Some(cf.spec_proof().spec_v2())
    &&& (b[197] == 2 || b[197] == 3)
    &&& point_decoding(b.subrange(197, 230)) == Some(cf.spec_proof().spec_u1())
    &&& (b[230] == 2 || b[230] == 3)
    &&& point_decoding(b.subrange(230, 263)) == Some(cf.spec_proof().spec_u2())
    &&& be_value(b.subrange(263, 295)) == cf.spec_proof().spec_z()
    &&& b.subrange(295, 359) == cf.spec_proof().spec_kfrag_sig()
    &&& b[359] == bool_byte(cf.spec_proof().spec_metadata() is Some)
    &&& (cf.spec_proof().spec_metadata() matches Some(m) ==> b.len() == 364 + m.len()
        && be_value(b.subrange(360, 364)) == m.len() && b.subrange(364, b.len() as int) == m)
    &&& (cf.spec_proof().spec_metadata() is None ==> b.len() == 360)
}

impl CapsuleFrag {
    /// The wire form: `e1 || v1 || id || precursor || e2 || v2 || u1 || u2
    /// || z || kfrag_signature || metadata_present || [metadata_len ||
    /// metadata]`.
    pub fn to_bytes(&self) -> (r: Vec<u8>)
        ensures
            cfrag_bytes_match(*self, r@),
    {
        proof {
            use_type_invariant(&*self);
            use_type_invariant(&self.proof);
        }
        let mut out: Vec<u8> = Vec::new();
        let e1_bytes = self.point_e1.to_bytes();
        append_bytes(&mut out, e1_bytes.as_slice());
        let v1_bytes = self.point_v1.to_bytes();
        append_bytes(&mut out, v1_bytes.as_slice());
        append_bytes(&mut out, self.kfrag_id.as_slice());
        let precursor_bytes = self.precursor.to_bytes();
        append_bytes(&mut out, precursor_bytes.as_slice());
        let e2_bytes = self.proof.point_e2.to_bytes();
        append_bytes(&mut out, e2_bytes.as_slice());
        let v2_bytes = self.proof.point_v2.to_bytes();
        append_bytes(&mut out, v2_bytes.as_slice());
        let u1_bytes = self.proof.kfrag_commitment.to_bytes();
        append_bytes(&mut out, u1_bytes.as_slice());
        let u2_bytes = self.proof.kfrag_pok.to_bytes();
        append_bytes(&mut out, u2_bytes.as_slice());
        let z_bytes = self.proof.signature.to_bytes();
        append_bytes(&mut out, z_bytes.as_slice());
        let sig_bytes = self.proof.kfrag_signature.to_bytes();
        append_bytes(&mut out, sig_bytes.as_slice());
        match &self.proof.metadata {
            Some(m) => {
                out.push(1u8);
                let len_bytes = u32_to_be_bytes(m.len() as u32);
                append_bytes(&mut out, len_bytes.as_slice());
                append_bytes(&mut out, m.as_slice());
                proof {
                    assert(out@.subrange(0, 33) =~= e1_bytes@);
                    assert(out@.subrange(33, 66) =~= v1_bytes@);
                    assert(out@.subrange(66, 98) =~= self.spec_id());
                    assert(out@.subrange(98, 131) =~= precursor_bytes@);
                    assert(out@.subrange(131, 164) =~= e2_bytes@);
                    assert(out@.subrange(164, 197) =~= v2_bytes@);
                    assert(out@.subrange(197, 230) =~= u1_bytes@);
                    assert(out@.subrange(230, 263) =~= u2_bytes@);
                    assert(out@.subrange(263, 295) =~= z_bytes@);
                    assert(out@.subrange(295, 359) =~= sig_bytes@);
                    assert(out@.subrange(360, 364) =~= len_bytes@);
                    assert(out@.subrange(364, out@.len() as int) =~= m@);
                }
            },
            None => {
                out.push(0u8);
                proof {
                    assert(out@.subrange(0, 33) =~= e1_bytes@);
                    assert(out@.subrange(33, 66) =~= v1_bytes@);
                    assert(out@.subrange(66, 98) =~= self.spec_id());
                    assert(out@.subrange(98, 131) =~= precursor_bytes@);
                    assert(out@.subrange(131, 164) =~= e2_bytes@);
                    assert(out@.subrange(164, 197) =~= v2_bytes@);
                    assert(out@.subrange(197, 230) =~= u1_bytes@);
                    assert(out@.subrange(230, 263) =~= u2_bytes@);
                    assert(out@.subrange(263, 295) =~= z_bytes@);
                    assert(out@.subrange(295, 359) =~= sig_bytes@);
                }
            },
        }
        out
    }

    /// Accepts byte strings laid out as `to_bytes` writes them, with a
    /// strict presence byte and an exact length.
    pub fn from_bytes(bytes: &[u8]) -> (r: Result<Self, DeserializationError>)
        ensures
            r is Ok <==> {
                &&& bytes@.len() >= 360
                &&& (bytes@[0] == 2 || bytes@[0] == 3)
                &&& point_decoding(bytes@.subrange(0, 33)) is Some
                &&& (bytes@[33] == 2 || bytes@[33] == 3)
                &&& point_decoding(bytes@.subrange(33, 66)) is Some
                &&& (bytes@[98] == 2 || bytes@[98] == 3)
                &&& point_decoding(bytes@.subrange(98, 131)) is Some
                &&& (bytes@[131] == 2 || bytes@[131] == 3)
                &&& point_decoding(bytes@.subrange(131, 164)) is Some
                &&& (bytes@[164] == 2 || bytes@[164] == 3)
                &&& point_decoding(bytes@.subrange(164, 197)) is Some
                &&& (bytes@[197] == 2 || bytes@[197] == 3)
                &&& point_decoding(bytes@.subrange(197, 230)) is Some
                &&& (bytes@[230] == 2 || bytes@[230] == 3)
                &&& point_decoding(bytes@.subrange(230, 263)) is Some
                &&& be_value(bytes@.subrange(263, 295)) < group_order()
                &&& (bytes@[359] == 0 || bytes@[359] == 1)
                &&& (bytes@[359] == 0 ==> bytes@.len() == 360)
                &&& (bytes@[359] == 1 ==> bytes@.len() >= 364 && bytes@.len() == 364 + be_value(
                    bytes@.subrange(360, 364),
                ))
            },
            r matches Ok(cf) ==> cfrag_bytes_match(cf, bytes@),
    {
        if bytes.len() < 360 {
            return Err(DeserializationError::ConstructionFailure);
        }
        let e1_bytes = take_bytes(bytes, 0, 33);
        let point_e1 = match CurvePoint::from_bytes(e1_bytes.as_slice()) {
            Some(p) => p,
            None => {
                return Err(DeserializationError::ConstructionFailure);
            },
        };
        let v1_bytes = take_bytes(bytes, 33, 66);
        let point_v1 = match CurvePoint::from_bytes(v1_bytes.as_slice()) {
            Some(p) => p,
            None => {
                return Err(DeserializationError::ConstructionFailure);
            },
        };
        let kfrag_id = KeyFragID::from_vec(take_bytes(bytes, 66, 98));
        let precursor_bytes = take_bytes(bytes, 98, 131);
        let precursor = match CurvePoint::from_bytes(precursor_bytes.as_slice()) {
            Some(p) => p,
            None => {
                return Err(DeserializationError::ConstructionFailure);
            },
        };
        let e2_bytes = take_bytes(bytes, 131, 164);
        let point_e2 = match CurvePoint::from_bytes(e2_bytes.as_slice()) {
            Some(p) => p,
            None => {
                return Err(DeserializationError::ConstructionFailure);
            },
        };
        let v2_bytes = take_bytes(bytes, 164, 197);
        let point_v2 = match CurvePoint::from_bytes(v2_bytes.as_slice()) {
            Some(p) => p,
            None => {
                return Err(DeserializationError::ConstructionFailure);
            },
        };
        let u1_bytes = take_bytes(bytes, 197, 230);
        let kfrag_commitment = match CurvePoint::from_bytes(u1_bytes.as_slice()) {
            Some(p) => p,
            None => {
                return Err(DeserializationError::ConstructionFailure);
            },
        };
        let u2_bytes = take_bytes(bytes, 230, 263);
        let kfrag_pok = match CurvePoint::from_bytes(u2_bytes.as_slice()) {
            Some(p) => p,
            None => {
                return Err(DeserializationError::ConstructionFailure);
            },
        };
        let z_bytes = take_bytes(bytes, 263, 295);
        let signature = match CurveScalar::from_bytes(z_bytes.as_slice()) {
            Some(s) => s,
            None => {
                return Err(DeserializationError::ConstructionFailure);
            },
        };
        let kfrag_signature = Signature::from_vec(take_bytes(bytes, 295, 359));
        let present = *vstd::slice::slice_index_get(bytes, 359);
        let metadata: Option<Vec<u8>> = if present == 0 {
            if bytes.len() != 360 {
                return Err(DeserializationError::ConstructionFailure);
            }
            None
        } else if present == 1 {
            if bytes.len() < 364 {
                return Err(DeserializationError::ConstructionFailure);
            }
            let len_bytes = take_bytes(bytes, 360, 364);
            let meta_len = u32_from_be_bytes(len_bytes.as_slice());
            if bytes.len() - 364 != meta_len as usize {
                return Err(DeserializationError::ConstructionFailure);
            }
            Some(take_bytes(bytes, 364, bytes.len()))
        } else {
            return Err(DeserializationError::ConstructionFailure);
        };
        Ok(
            CapsuleFrag {
                point_e1,
                point_v1,
                kfrag_id,
                precursor,
                proof: CapsuleFragProof {
                    point_e2,
                    point_v2,
                    kfrag_commitment,
                    kfrag_pok,
                    signature,
                    kfrag_signature,
                    metadata,
                },
            },
        )
    }

    /// Law: deserializing a serialized capsule fragment succeeds and
    /// returns an equal fragment.
    pub fn serialization_roundtrip(&self) -> (r: Result<CapsuleFrag, DeserializationError>)
        ensures
            r is Ok,
            r matches Ok(cf) ==> {
                &&& cf.spec_e1() == self.spec_e1()
                &&& cf.spec_v1() == self.spec_v1()
                &&& cf.spec_id() == self.spec_id()
                &&& cf.spec_precursor() == self.spec_precursor()
                &&& cf.spec_proof().spec_e2() == self.spec_proof().spec_e2()
                &&& cf.spec_proof().spec_v2() == self.spec_proof().spec_v2()
                &&& cf.spec_proof().spec_u1() == self.spec_proof().spec_u1()
                &&& cf.spec_proof().spec_u2() == self.spec_proof().spec_u2()
                &&& cf.spec_proof().spec_z() == self.spec_proof().spec_z()
                &&& cf.spec_proof().spec_kfrag_sig() == self.spec_proof().spec_kfrag_sig()
                &&& cf.spec_proof().spec_metadata() == self.spec_proof().spec_metadata()
            },
    {
        proof {
            use_type_invariant(&*self);
            use_type_invariant(&self.proof);
        }
        let bytes = self.to_bytes();
        CapsuleFrag::from_bytes(bytes.as_slice())
    }

    /// Recomputes the challenge under the supplied metadata, checks that
    /// the supplied metadata matches the one bound at re-encryption, checks
    /// the three proof equations and the embedded key fragment signature,
    /// and upgrades the fragment on success.
    pub fn verify(
        self,
        capsule: &Capsule,
        params: &Parameters,
        verifying_pk: &PublicKey,
        delegating_pk: &PublicKey,
        receiving_pk: &PublicKey,
        metadata: Option<&[u8]>,
    ) -> (r: Result<VerifiedCapsuleFrag, CapsuleFragVerificationError>)
        ensures
            r is Ok <==> spec_cfrag_proof_ok(
                capsule.spec_e(),
                capsule.spec_v(),
                params@,
                self,
                match metadata {
                    Some(m) => Some(m@),
                    None => None,
                },
            ) && self.spec_proof().spec_metadata() == (match metadata {
                Some(m) => Some(m@),
                None => None,
            }) && spec_cfrag_sig_ok(self, verifying_pk@, delegating_pk@, receiving_pk@),
            r matches Ok(vc) ==> vc.spec_cfrag() == self,
            r matches Err(e) ==> e == (if !spec_cfrag_proof_ok(
                capsule.spec_e(),
                capsule.spec_v(),
                params@,
                self,
                match metadata {
                    Some(m) => Some(m@),
                    None => None,
                },
            ) || self.spec_proof().spec_metadata() != (match metadata {
                Some(m) => Some(m@),
                None => None,
            }) {
                CapsuleFragVerificationError::IncorrectReencryption
            } else {
                CapsuleFragVerificationError::IncorrectKeyFragSignature
            }),
    {
        proof {
            use_type_invariant(&self);
            use_type_invariant(&self.proof);
        }
        let mut points: Vec<CurvePoint> = Vec::new();
        points.push(*capsule.e_point());
        points.push(self.point_e1);
        points.push(self.proof.point_e2);
        points.push(*capsule.v_point());
        points.push(self.point_v1);
        points.push(self.proof.point_v2);
        points.push(*params.u_point());
        points.push(self.proof.kfrag_commitment);
        points.push(self.proof.kfrag_pok);
        let h = hash_to_cfrag_verification(points.as_slice(), metadata);
        proof {
            assert(points@.map_values(|p: CurvePoint| p@) =~= seq![
                capsule.spec_e(),
                self.spec_e1(),
                self.spec_proof().spec_e2(),
                capsule.spec_v(),
                self.spec_v1(),
                self.spec_proof().spec_v2(),
                params@,
                self.spec_proof().spec_u1(),
                self.spec_proof().spec_u2(),
            ]);
        }
        let z = &self.proof.signature;
        let e_ok = capsule.e_point().mul(z).equals(
            &self.proof.point_e2.add(&self.point_e1.mul(&h)),
        );
        let v_ok = capsule.v_point().mul(z).equals(
            &self.proof.point_v2.add(&self.point_v1.mul(&h)),
        );
        let u_ok = params.u_point().mul(z).equals(
            &self.proof.kfrag_pok.add(&self.proof.kfrag_commitment.mul(&h)),
        );
        let meta_ok = match (&self.proof.metadata, metadata) {
            (Some(stored), Some(given)) => crate::encoding::bytes_equal(
                stored.as_slice(),
                given,
            ),
            (None, None) => true,
            _ => false,
        };
        if !(e_ok && v_ok && u_ok && meta_ok) {
            return Err(CapsuleFragVerificationError::IncorrectReencryption);
        }
        let message = kfrag_signature_message(
            &self.kfrag_id,
            &self.proof.kfrag_commitment,
            &self.precursor,
            Some(delegating_pk),
            Some(receiving_pk),
        );
        if !self.proof.kfrag_signature.verify(verifying_pk, message.as_slice()) {
            return Err(CapsuleFragVerificationError::IncorrectKeyFragSignature);
        }
        Ok(VerifiedCapsuleFrag { cfrag: self })
    }
}

} // verus!
