//! Key fragments: the delegation artifacts.
//!
//! A delegation Shamir-splits the derived delegation scalar over a random
//! polynomial; each fragment carries one share, a commitment to it under the
//! second generator, and two delegator signatures: one for the proxy (with
//! whichever identities the delegator chose to bind) and one for the
//! receiver (always with both identities bound).

use crate::arith::{addq, group_order, invq, mulq};
use crate::curve::{point_decoding, point_encoding, CurvePoint, CurveScalar};
use crate::dem::random_bytes;
use crate::encoding::{
    append_bytes, be_value, bool_byte, take_bytes, DeserializationError,
};
use crate::hashing_ds::{
    hash_to_polynomial_arg, hash_to_shared_secret, kfrag_signature_message,
    spec_hash_to_polynomial_arg, spec_hash_to_shared_secret, spec_kfrag_signature_message,
};
use crate::keys::{ecdsa_verifies, PublicKey, SecretKey, Signature, Signer};
use crate::params::Parameters;
use vstd::prelude::*;

verus! {

/// A fragment identifier: 32 random bytes, unique per fragment within a
/// delegation.
pub struct KeyFragID {
    bytes: Vec<u8>,
}

impl View for KeyFragID {
    type V = Seq<u8>;

    closed spec fn view(&self) -> Seq<u8> {
        self.bytes@
    }
}

impl KeyFragID {
    #[verifier::type_invariant]
    spec fn type_inv(&self) -> bool {
        self.bytes@.len() == 32
    }

    /// Samples a fresh random identifier.
    pub(crate) fn random() -> (r: Self)
        ensures
            r@.len() == 32,
    {
        KeyFragID { bytes: random_bytes(32) }
    }

    pub(crate) fn from_vec(bytes: Vec<u8>) -> (r: Self)
        requires
            bytes@.len() == 32,
        ensures
            r@ == bytes@,
    {
        KeyFragID { bytes }
    }

    /// The identifier bytes.
    pub(crate) fn as_slice(&self) -> (r: &[u8])
        ensures
            r@ == self@,
            self@.len() == 32,
    {
        proof {
            use_type_invariant(&*self);
        }
        self.bytes.as_slice()
    }
}

/// Why a key fragment failed verification.
#[derive(Clone, Copy, Debug, PartialEq, Eq, Structural)]
pub enum KeyFragVerificationError {
    /// The commitment is not the second generator times the fragment key.
    IncorrectCommitment,
    /// The fragment binds the delegating key, but none was supplied.
    DelegatingKeyNotProvided,
    /// The fragment binds the receiving key, but none was supplied.
    ReceivingKeyNotProvided,
    /// The delegator signature does not check out.
    IncorrectSignature,
}

/// A key fragment as it travels: one Shamir share of the delegation scalar
/// with its commitment and the delegator's signatures.
///
/// Interop decision: the wire form is 260 bytes, with the two one-byte
/// presence flags at offsets 130 and 131, before the signatures. A layout
/// without the flags could not let a verifier reproduce the signed message.
pub struct KeyFrag {
    pub(crate) id: KeyFragID,
    pub(crate) key: CurveScalar,
    pub(crate) precursor: CurvePoint,
    pub(crate) commitment: CurvePoint,
    pub(crate) signature_for_proxy: Signature,
    pub(crate) signature_for_bob: Signature,
    pub(crate) delegating_key_signed: bool,
    pub(crate) receiving_key_signed: bool,
}

impl KeyFrag {
    #[verifier::type_invariant]
    pub(crate) open spec fn type_inv(&self) -> bool {
        &&& self.key@ < group_order()
        &&& 0 < self.precursor@ < group_order()
        &&& 0 < self.commitment@ < group_order()
    }

    /// The fragment identifier bytes.
    pub closed spec fn spec_id(&self) -> Seq<u8> {
        self.id@
    }

    /// The fragment's share of the delegation scalar.
    pub closed spec fn spec_key(&self) -> nat {
        self.key@
    }

    /// The delegation precursor's discrete logarithm.
    pub closed spec fn spec_precursor(&self) -> nat {
        self.precursor@
    }

    /// The commitment's discrete logarithm.
    pub closed spec fn spec_commitment(&self) -> nat {
        self.commitment@
    }

    /// The proxy-facing signature bytes.
    pub closed spec fn spec_sig_proxy(&self) -> Seq<u8> {
        self.signature_for_proxy@
    }

    /// The receiver-facing signature bytes.
    pub closed spec fn spec_sig_bob(&self) -> Seq<u8> {
        self.signature_for_bob@
    }

    /// Whether the delegating key is bound into the proxy signature.
    pub closed spec fn spec_flag_d(&self) -> bool {
        self.delegating_key_signed
    }

    /// Whether the receiving key is bound into the proxy signature.
    pub closed spec fn spec_flag_r(&self) -> bool {
        self.receiving_key_signed
    }
}

/// Relates the fragment's spec accessors to its fields, for the modules
/// that hold a fragment by its fields.
pub(crate) proof fn lemma_kfrag_fields(kf: &KeyFrag)
    ensures
        kf.spec_id() == kf.id@,
        kf.spec_key() == kf.key@,
        kf.spec_precursor() == kf.precursor@,
        kf.spec_commitment() == kf.commitment@,
        kf.spec_sig_proxy() == kf.signature_for_proxy@,
        kf.spec_sig_bob() == kf.signature_for_bob@,
        kf.spec_flag_d() == kf.delegating_key_signed,
        kf.spec_flag_r() == kf.receiving_key_signed,
{
}

/// The message the proxy-facing signature covers, given the identities the
/// verifier supplies for the flags the fragment carries.
pub open spec fn kfrag_signed_message(
    kf: KeyFrag,
    d: Option<nat>,
    rr: Option<nat>,
) -> Seq<u8> {
    spec_kfrag_signature_message(
        kf.spec_id(),
        kf.spec_commitment(),
        kf.spec_precursor(),
        if kf.spec_flag_d() {
            d
        } else {
            None
        },
        if kf.spec_flag_r() {
            rr
        } else {
            None
        },
    )
}

/// What key fragment verification checks, for the second generator `u`, the
/// verifying key and the optionally supplied identities.
pub open spec fn spec_kfrag_valid(
    kf: KeyFrag,
    u: nat,
    verifying_pk: nat,
    d: Option<nat>,
    rr: Option<nat>,
) -> bool {
    &&& kf.spec_commitment() == mulq(u, kf.spec_key())
    &&& (kf.spec_flag_d() ==> d is Some)
    &&& (kf.spec_flag_r() ==> rr is Some)
    &&& ecdsa_verifies(verifying_pk, kfrag_signed_message(kf, d, rr), kf.spec_sig_proxy())
}

/// Whether the receiver-facing signature covers the fragment with both
/// identities bound.
pub open spec fn spec_kfrag_bob_valid(
    kf: KeyFrag,
    verifying_pk: nat,
    delegating_pk: nat,
    receiving_pk: nat,
) -> bool {
    ecdsa_verifies(
        verifying_pk,
        spec_kfrag_signature_message(
            kf.spec_id(),
            kf.spec_commitment(),
            kf.spec_precursor(),
            Some(delegating_pk),
            Some(receiving_pk),
        ),
        kf.spec_sig_bob(),
    )
}

/// Which error verification reports, in check order.
pub open spec fn spec_kfrag_verify_error(
    kf: KeyFrag,
    u: nat,
    d: Option<nat>,
    rr: Option<nat>,
) -> KeyFragVerificationError {
    if kf.spec_commitment() != mulq(u, kf.spec_key()) {
        KeyFragVerificationError::IncorrectCommitment
    } else if kf.spec_flag_d() && d is None {
        KeyFragVerificationError::DelegatingKeyNotProvided
    } else if kf.spec_flag_r() && rr is None {
        KeyFragVerificationError::ReceivingKeyNotProvided
    } else {
        KeyFragVerificationError::IncorrectSignature
    }
}

impl KeyFrag {
    /// Checks the commitment and the proxy-facing signature under whichever
    /// identities were supplied, and upgrades the fragment on success.
    pub fn verify(
        self,
        params: &Parameters,
        verifying_pk: &PublicKey,
        maybe_delegating_pk: Option<&PublicKey>,
        maybe_receiving_pk: Option<&PublicKey>,
    ) -> (r: Result<VerifiedKeyFrag, KeyFragVerificationError>)
        ensures
            r is Ok <==> spec_kfrag_valid(
                self,
                params@,
                verifying_pk@,
                match maybe_delegating_pk {
                    Some(pk) => Some(pk@),
                    None => None,
                },
                match maybe_receiving_pk {
                    Some(pk) => Some(pk@),
                    None => None,
                },
            ),
            r matches Ok(vk) ==> vk.spec_kfrag() == self,
            r matches Err(e) ==> e == spec_kfrag_verify_error(
                self,
                params@,
                match maybe_delegating_pk {
                    Some(pk) => Some(pk@),
                    None => None,
                },
                match maybe_receiving_pk {
                    Some(pk) => Some(pk@),
                    None => None,
                },
            ),
    {
        proof {
            use_type_invariant(&self);
        }
        let expected = params.u_point().mul(&self.key);
        if !self.commitment.equals(&expected) {
            return Err(KeyFragVerificationError::IncorrectCommitment);
        }
        let d_opt: Option<&PublicKey> = if self.delegating_key_signed {
            match maybe_delegating_pk {
                Some(pk) => Some(pk),
                None => {
                    return Err(KeyFragVerificationError::DelegatingKeyNotProvided);
                },
            }
        } else {
            None
        };
        let r_opt: Option<&PublicKey> = if self.receiving_key_signed {
            match maybe_receiving_pk {
                Some(pk) => Some(pk),
                None => {
                    return Err(KeyFragVerificationError::ReceivingKeyNotProvided);
                },
            }
        } else {
            None
        };
        let message = kfrag_signature_message(
            &self.id,
            &self.commitment,
            &self.precursor,
            d_opt,
            r_opt,
        );
        if !self.signature_for_proxy.verify(verifying_pk, message.as_slice()) {
            return Err(KeyFragVerificationError::IncorrectSignature);
        }
        Ok(VerifiedKeyFrag { kfrag: self })
    }

    /// The 260-byte wire form: id, key, precursor, commitment, the two
    /// presence flags, then the two signatures.
    pub fn to_bytes(&self) -> (r: Vec<u8>)
        ensures
            r@.len() == 260,
            r@.subrange(0, 32) == self.spec_id(),
            be_value(r@.subrange(32, 64)) == self.spec_key(),
            r@[64] == 2 || r@[64] == 3,
            r@.subrange(64, 97) == point_encoding(self.spec_precursor()),
            point_decoding(r@.subrange(64, 97)) == Some(self.spec_precursor()),
            r@[97] == 2 || r@[97] == 3,
            r@.subrange(97, 130) == point_encoding(self.spec_commitment()),
            point_decoding(r@.subrange(97, 130)) == Some(self.spec_commitment()),
            r@[130] == bool_byte(self.spec_flag_d()),
            r@[131] == bool_byte(self.spec_flag_r()),
            r@.subrange(132, 196) == self.spec_sig_proxy(),
            r@.subrange(196, 260) == self.spec_sig_bob(),
    {
        proof {
            use_type_invariant(&*self);
        }
        let mut out: Vec<u8> = Vec::new();
        append_bytes(&mut out, self.id.as_slice());
        let key_bytes = self.key.to_bytes();
        append_bytes(&mut out, key_bytes.as_slice());
        let precursor_bytes = self.precursor.to_bytes();
        append_bytes(&mut out, precursor_bytes.as_slice());
        let commitment_bytes = self.commitment.to_bytes();
        append_bytes(&mut out, commitment_bytes.as_slice());
        out.push(if self.delegating_key_signed {
            1u8
        } else {
            0u8
        });
        out.push(if self.receiving_key_signed {
            1u8
        } else {
            0u8
        });
        let sig_proxy_bytes = self.signature_for_proxy.to_bytes();
        append_bytes(&mut out, sig_proxy_bytes.as_slice());
        let sig_bob_bytes = self.signature_for_bob.to_bytes();
        append_bytes(&mut out, sig_bob_bytes.as_slice());
        proof {
            assert(out@.subrange(0, 32) =~= self.spec_id());
            assert(out@.subrange(32, 64) =~= key_bytes@);
            assert(out@.subrange(64, 97) =~= precursor_bytes@);
            assert(out@.subrange(97, 130) =~= commitment_bytes@);
            assert(out@.subrange(132, 196) =~= sig_proxy_bytes@);
            assert(out@.subrange(196, 260) =~= sig_bob_bytes@);
        }
        out
    }

    /// Accepts exactly 260 bytes whose pieces all decode, with strict
    /// boolean bytes.
    pub fn from_bytes(bytes: &[u8]) -> (r: Result<Self, DeserializationError>)
        ensures
            r is Ok <==> {
                &&& bytes@.len() == 260
                &&& be_value(bytes@.subrange(32, 64)) < group_order()
                &&& (bytes@[64] == 2 || bytes@[64] == 3)
                &&& point_decoding(bytes@.subrange(64, 97)) is Some
                &&& (bytes@[97] == 2 || bytes@[97] == 3)
                &&& point_decoding(bytes@.subrange(97, 130)) is Some
                &&& (bytes@[130] == 0 || bytes@[130] == 1)
                &&& (bytes@[131] == 0 || bytes@[131] == 1)
            },
            r matches Ok(kf) ==> {
                &&& kf.spec_id() == bytes@.subrange(0, 32)
                &&& kf.spec_key() == be_value(bytes@.subrange(32, 64))
                &&& point_decoding(bytes@.subrange(64, 97)) == Some(kf.spec_precursor())
                &&& point_decoding(bytes@.subrange(97, 130)) == Some(kf.spec_commitment())
                &&& kf.spec_flag_d() == (bytes@[130] == 1)
                &&& kf.spec_flag_r() == (bytes@[131] == 1)
                &&& kf.spec_sig_proxy() == bytes@.subrange(132, 196)
                &&& kf.spec_sig_bob() == bytes@.subrange(196, 260)
            },
    {
        if bytes.len() != 260 {
            return Err(DeserializationError::ConstructionFailure);
        }
        let id = KeyFragID::from_vec(take_bytes(bytes, 0, 32));
        let key_bytes = take_bytes(bytes, 32, 64);
        let key = match CurveScalar::from_bytes(key_bytes.as_slice()) {
            Some(s) => s,
            None => {
                return Err(DeserializationError::ConstructionFailure);
            },
        };
        let precursor_bytes = take_bytes(bytes, 64, 97);
        let precursor = match CurvePoint::from_bytes(precursor_bytes.as_slice()) {
            Some(p) => p,
            None => {
                return Err(DeserializationError::ConstructionFailure);
            },
        };
        let commitment_bytes = take_bytes(bytes, 97, 130);
        let commitment = match CurvePoint::from_bytes(commitment_bytes.as_slice()) {
            Some(p) => p,
            None => {
                return Err(DeserializationError::ConstructionFailure);
            },
        };
        let flag_d_byte = *vstd::slice::slice_index_get(bytes, 130);
        if flag_d_byte > 1 {
            return Err(DeserializationError::ConstructionFailure);
        }
        let flag_r_byte = *vstd::slice::slice_index_get(bytes, 131);
        if flag_r_byte > 1 {
            return Err(DeserializationError::ConstructionFailure);
        }
        let signature_for_proxy = Signature::from_vec(take_bytes(bytes, 132, 196));
        let signature_for_bob = Signature::from_vec(take_bytes(bytes, 196, 260));
        Ok(
            KeyFrag {
                id,
                key,
                precursor,
                commitment,
                signature_for_proxy,
                signature_for_bob,
                delegating_key_signed: flag_d_byte == 1,
                receiving_key_signed: flag_r_byte == 1,
            },
        )
    }
}

impl KeyFrag {
    /// Law: deserializing a serialized key fragment succeeds and returns an
    /// equal fragment.
    pub fn serialization_roundtrip(&self) -> (r: Result<KeyFrag, DeserializationError>)
        ensures
            r is Ok,
            r matches Ok(kf) ==> {
                &&& kf.spec_id() == self.spec_id()
                &&& kf.spec_key() == self.spec_key()
                &&& kf.spec_precursor() == self.spec_precursor()
                &&& kf.spec_commitment() == self.spec_commitment()
                &&& kf.spec_sig_proxy() == self.spec_sig_proxy()
                &&& kf.spec_sig_bob() == self.spec_sig_bob()
                &&& kf.spec_flag_d() == self.spec_flag_d()
                &&& kf.spec_flag_r() == self.spec_flag_r()
            },
    {
        proof {
            use_type_invariant(&*self);
        }
        let bytes = self.to_bytes();
        KeyFrag::from_bytes(bytes.as_slice())
    }
}

/// Law: verification is idempotent. Where a fragment verifies once, the
/// downgraded result verifies again under the same arguments, and both
/// verified fragments carry the identical underlying fragment.
pub fn verification_idempotent(
    kfrag: KeyFrag,
    params: &Parameters,
    verifying_pk: &PublicKey,
    maybe_delegating_pk: Option<&PublicKey>,
    maybe_receiving_pk: Option<&PublicKey>,
) -> (r: Option<VerifiedKeyFrag>)
    ensures
        r is Some <==> spec_kfrag_valid(
            kfrag,
            params@,
            verifying_pk@,
            match maybe_delegating_pk {
                Some(pk) => Some(pk@),
                None => None,
            },
            match maybe_receiving_pk {
                Some(pk) => Some(pk@),
                None => None,
            },
        ),
        r matches Some(v) ==> v.spec_kfrag() == kfrag,
{
    let first = match kfrag.verify(params, verifying_pk, maybe_delegating_pk, maybe_receiving_pk) {
        Ok(v) => v,
        Err(_) => {
            return None;
        },
    };
    let again = first.unverify();
    match again.verify(params, verifying_pk, maybe_delegating_pk, maybe_receiving_pk) {
        Ok(second) => Some(second),
        Err(_) => {
            proof {
                assert(false);
            }
            None
        },
    }
}

/// A key fragment that passed verification; only these enter re-encryption.
pub struct VerifiedKeyFrag {
    pub(crate) kfrag: KeyFrag,
}

impl VerifiedKeyFrag {
    /// The underlying fragment.
    pub closed spec fn spec_kfrag(&self) -> KeyFrag {
        self.kfrag
    }

    /// Serialization downgrades to the unverified wire form.
    pub fn to_bytes(&self) -> (r: Vec<u8>)
        ensures
            r@.len() == 260,
            r@.subrange(0, 32) == self.spec_kfrag().spec_id(),
            be_value(r@.subrange(32, 64)) == self.spec_kfrag().spec_key(),
            point_decoding(r@.subrange(64, 97)) == Some(self.spec_kfrag().spec_precursor()),
            point_decoding(r@.subrange(97, 130)) == Some(self.spec_kfrag().spec_commitment()),
            r@[130] == bool_byte(self.spec_kfrag().spec_flag_d()),
            r@[131] == bool_byte(self.spec_kfrag().spec_flag_r()),
            r@.subrange(132, 196) == self.spec_kfrag().spec_sig_proxy(),
            r@.subrange(196, 260) == self.spec_kfrag().spec_sig_bob(),
    {
        self.kfrag.to_bytes()
    }

    /// Downgrades to the unverified fragment.
    pub fn unverify(self) -> (r: KeyFrag)
        ensures
            r == self.spec_kfrag(),
    {
        self.kfrag
    }

    pub(crate) fn kfrag_ref(&self) -> (r: &KeyFrag)
        ensures
            r == self.spec_kfrag(),
    {
        &self.kfrag
    }
}

/// Evaluates the polynomial with the given coefficients (constant term
/// first) at `x`, modulo the group order.
pub open spec fn spec_poly_eval(coeffs: Seq<nat>, x: nat) -> nat
    decreases coeffs.len(),
{
    if coeffs.len() == 0 {
        0
    } else {
        addq(coeffs.first(), mulq(x, spec_poly_eval(coeffs.drop_first(), x)))
    }
}

/// A one-coefficient polynomial is its constant.
pub proof fn lemma_poly_eval_one(cs: Seq<nat>, x: nat)
    requires
        cs.len() == 1,
        cs[0] < group_order(),
    ensures
        spec_poly_eval(cs, x) == cs[0],
{
    assert(spec_poly_eval(cs.drop_first(), x) == 0);
    assert(mulq(x, 0) == 0) by {
        crate::arith::lemma_mod_small(0);
    }
    assert(addq(cs[0], 0) == cs[0]) by {
        crate::arith::lemma_mod_small(cs[0]);
    }
}

/// A two-coefficient polynomial written out: `c0 + x * c1`.
pub proof fn lemma_poly_eval_two(cs: Seq<nat>, x: nat)
    requires
        cs.len() == 2,
        cs[1] < group_order(),
    ensures
        spec_poly_eval(cs, x) == addq(cs[0], mulq(x, cs[1])),
{
    let tail = cs.drop_first();
    assert(spec_poly_eval(tail.drop_first(), x) == 0);
    assert(spec_poly_eval(tail, x) == addq(cs[1], mulq(x, 0)));
    assert(mulq(x, 0) == 0) by {
        crate::arith::lemma_mod_small(0);
    }
    assert(addq(cs[1], 0) == cs[1]) by {
        crate::arith::lemma_mod_small(cs[1]);
    }
}

/// Horner evaluation of the share polynomial.
fn poly_eval(coeffs: &Vec<CurveScalar>, x: &CurveScalar) -> (r: CurveScalar)
    ensures
        r@ == spec_poly_eval(coeffs@.map_values(|c: CurveScalar| c@), x@),
{
    let ghost cs = coeffs@.map_values(|c: CurveScalar| c@);
    let mut acc = CurveScalar::zero();
    let mut i: usize = coeffs.len();
    proof {
        assert(cs.subrange(i as int, cs.len() as int) =~= Seq::<nat>::empty());
    }
    while i > 0
        invariant
            i <= coeffs@.len(),
            cs == coeffs@.map_values(|c: CurveScalar| c@),
            acc@ == spec_poly_eval(cs.subrange(i as int, cs.len() as int), x@),
        decreases i,
    {
        i = i - 1;
        acc = coeffs[i].add(&x.mul(&acc));
        proof {
            let tail = cs.subrange(i as int, cs.len() as int);
            assert(tail.first() == cs[i as int]);
            assert(tail.drop_first() =~= cs.subrange(i + 1, cs.len() as int));
        }
    }
    proof {
        assert(cs.subrange(0, cs.len() as int) =~= cs);
    }
    acc
}

/// Splits the delegation scalar into `shares` verified key fragments, any
/// `threshold` of which reconstruct it.
///
/// Returns `None` only on statistically unreachable degeneracies: the shared
/// point or a commitment landing on the identity, or the delegation hash
/// reducing to zero.
pub fn generate_kfrags(
    params: &Parameters,
    delegating_sk: &SecretKey,
    receiving_pk: &PublicKey,
    signer: &Signer,
    threshold: usize,
    shares: usize,
    sign_delegating_key: bool,
    sign_receiving_key: bool,
) -> (r: Option<Vec<VerifiedKeyFrag>>)
    requires
        1 <= threshold <= shares,
    ensures
        r matches Some(frags) ==> {
            &&& frags@.len() == shares
            &&& exists|cs: Seq<nat>|
                {
                    &&& cs.len() == threshold
                    &&& #[trigger] generated_kfrags_match(
                        frags@,
                        cs,
                        params@,
                        delegating_sk@,
                        receiving_pk@,
                        signer@,
                        sign_delegating_key,
                        sign_receiving_key,
                    )
                }
        },
{
    let xs = CurveScalar::random_nonzero();
    let precursor = CurvePoint::generator().mul(&xs);
    proof {
        crate::arith::lemma_mulq_one(xs@);
        crate::arith::lemma_mod_small(xs@);
    }
    let dh = receiving_pk.point().mul(&xs);
    if dh.is_identity() {
        return None;
    }
    let dd = hash_to_shared_secret(&precursor, receiving_pk.point(), &dh);
    let d_inv = match dd.invert() {
        Some(s) => s,
        None => {
            return None;
        },
    };
    proof {
        crate::arith::lemma_invq_is(dd@, d_inv@);
    }
    let f0 = delegating_sk.scalar().mul(&d_inv);
    let delegating_pk = PublicKey::from_secret_key(delegating_sk);
    proof {
        crate::arith::lemma_mulq_bound(delegating_sk@, d_inv@);
    }
    let mut coefficients: Vec<CurveScalar> = Vec::new();
    coefficients.push(f0);
    let mut j: usize = 1;
    while j < threshold
        invariant
            1 <= j <= threshold,
            coefficients@.len() == j,
            coefficients@[0]@ == mulq(delegating_sk@, invq(dd@)),
            forall|k: int| 0 <= k < j ==> (#[trigger] coefficients@[k]@) < group_order(),
        decreases threshold - j,
    {
        coefficients.push(CurveScalar::random_nonzero());
        j = j + 1;
    }
    let ghost cs = coefficients@.map_values(|c: CurveScalar| c@);
    let mut frags: Vec<VerifiedKeyFrag> = Vec::new();
    let mut i: usize = 0;
    while i < shares
        invariant
            i <= shares,
            1 <= threshold <= shares,
            cs == coefficients@.map_values(|c: CurveScalar| c@),
            cs.len() == threshold,
            forall|k: int| 0 <= k < cs.len() ==> (#[trigger] cs[k]) < group_order(),
            coefficients@.len() == threshold,
            frags@.len() == i,
            0 < xs@ < group_order(),
            precursor@ == xs@,
            0 < dh@ < group_order(),
            dh@ == mulq(receiving_pk@, xs@),
            dd@ == spec_hash_to_shared_secret(xs@, receiving_pk@, mulq(receiving_pk@, xs@)),
            dd@ != 0,
            cs[0] == mulq(delegating_sk@, invq(dd@)),
            delegating_pk@ == delegating_sk@,
            forall|k: int|
                0 <= k < i ==> #[trigger] kfrag_matches(
                    frags@[k].spec_kfrag(),
                    cs,
                    params@,
                    delegating_sk@,
                    receiving_pk@,
                    signer@,
                    sign_delegating_key,
                    sign_receiving_key,
                ),
            forall|k: int|
                0 <= k < i ==> (#[trigger] frags@[k].spec_kfrag().spec_precursor()) == xs@,
        decreases shares - i,
    {
        let id = KeyFragID::random();
        let share_index = hash_to_polynomial_arg(&precursor, receiving_pk.point(), &dh, &id);
        let rk = poly_eval(&coefficients, &share_index);
        let commitment = params.u_point().mul(&rk);
        if commitment.is_identity() {
            return None;
        }
        let message_for_proxy = kfrag_signature_message(
            &id,
            &commitment,
            &precursor,
            if sign_delegating_key {
                Some(&delegating_pk)
            } else {
                None
            },
            if sign_receiving_key {
                Some(&receiving_pk)
            } else {
                None
            },
        );
        let message_for_bob = kfrag_signature_message(
            &id,
            &commitment,
            &precursor,
            Some(&delegating_pk),
            Some(&receiving_pk),
        );
        let signature_for_proxy = signer.sign(message_for_proxy.as_slice());
        let signature_for_bob = signer.sign(message_for_bob.as_slice());
        proof {
            crate::arith::lemma_mulq_bound(params@, rk@);
        }
        let kfrag = KeyFrag {
            id,
            key: rk,
            precursor,
            commitment,
            signature_for_proxy,
            signature_for_bob,
            delegating_key_signed: sign_delegating_key,
            receiving_key_signed: sign_receiving_key,
        };
        proof {
            assert(kfrag_matches(
                kfrag,
                cs,
                params@,
                delegating_sk@,
                receiving_pk@,
                signer@,
                sign_delegating_key,
                sign_receiving_key,
            ));
        }
        frags.push(VerifiedKeyFrag { kfrag });
        i = i + 1;
    }
    proof {
        assert(generated_kfrags_match(
            frags@,
            cs,
            params@,
            delegating_sk@,
            receiving_pk@,
            signer@,
            sign_delegating_key,
            sign_receiving_key,
        ));
    }
    Some(frags)
}

/// Whether a batch of verified fragments is one delegation's output: some
/// polynomial of `threshold` coefficients matches every fragment.
pub open spec fn spec_delegation_batch(
    frags: Seq<VerifiedKeyFrag>,
    threshold: nat,
    u: nat,
    delegating_sk: nat,
    receiving_pk: nat,
    verifying_pk: nat,
) -> bool {
    exists|cs: Seq<nat>|
        cs.len() == threshold && #[trigger] generated_kfrags_match(
            frags,
            cs,
            u,
            delegating_sk,
            receiving_pk,
            verifying_pk,
            true,
            true,
        )
}

/// Law: every fragment that `generate_kfrags` produces verifies under the
/// delegator's verifying key with the true identities supplied.
///
/// The failing arm of the re-verification is proven unreachable; the whole
/// generation fails only on statistically unreachable degeneracies.
pub fn generated_kfrags_verify(
    params: &Parameters,
    delegating_sk: &SecretKey,
    receiving_pk: &PublicKey,
    signer: &Signer,
    threshold: usize,
    shares: usize,
) -> (r: Option<Vec<VerifiedKeyFrag>>)
    requires
        1 <= threshold <= shares,
    ensures
        r matches Some(reverified) ==> reverified@.len() == shares && spec_delegation_batch(
            reverified@,
            threshold as nat,
            params@,
            delegating_sk@,
            receiving_pk@,
            signer@,
        ),
{
    let frags = match generate_kfrags(
        params,
        delegating_sk,
        receiving_pk,
        signer,
        threshold,
        shares,
        true,
        true,
    ) {
        Some(frags) => frags,
        None => {
            return None;
        },
    };
    let ghost cs = choose|cs: Seq<nat>|
        cs.len() == threshold && #[trigger] generated_kfrags_match(
            frags@,
            cs,
            params@,
            delegating_sk@,
            receiving_pk@,
            signer@,
            true,
            true,
        );
    let verifying_pk = signer.verifying_key();
    let delegating_pk = PublicKey::from_secret_key(delegating_sk);
    let mut reverified: Vec<VerifiedKeyFrag> = Vec::new();
    let n = frags.len();
    let mut i: usize = 0;
    while i < n
        invariant
            n == frags@.len(),
            n == shares,
            i <= n,
            reverified@.len() == i,
            verifying_pk@ == signer@,
            delegating_pk@ == delegating_sk@,
            cs.len() == threshold,
            generated_kfrags_match(
                frags@,
                cs,
                params@,
                delegating_sk@,
                receiving_pk@,
                signer@,
                true,
                true,
            ),
            forall|k: int|
                0 <= k < i ==> #[trigger] kfrag_matches(
                    reverified@[k].spec_kfrag(),
                    cs,
                    params@,
                    delegating_sk@,
                    receiving_pk@,
                    signer@,
                    true,
                    true,
                ),
            forall|k: int|
                0 <= k < i ==> (#[trigger] reverified@[k].spec_kfrag().spec_precursor())
                    == frags@[0].spec_kfrag().spec_precursor(),
        decreases n - i,
    {
        let kfrag = frags[i].kfrag_ref();
        let copy = match kfrag.serialization_roundtrip() {
            Ok(copy) => copy,
            Err(_) => {
                proof {
                    assert(false);
                }
                return None;
            },
        };
        proof {
            assert(kfrag_matches(
                frags@[i as int].spec_kfrag(),
                cs,
                params@,
                delegating_sk@,
                receiving_pk@,
                signer@,
                true,
                true,
            ));
        }
        match copy.verify(params, &verifying_pk, Some(&delegating_pk), Some(&receiving_pk)) {
            Ok(v) => {
                proof {
                    assert(kfrag_matches(
                        v.spec_kfrag(),
                        cs,
                        params@,
                        delegating_sk@,
                        receiving_pk@,
                        signer@,
                        true,
                        true,
                    ));
                }
                reverified.push(v);
            },
            Err(_) => {
                proof {
                    assert(false);
                }
                return None;
            },
        }
        i = i + 1;
    }
    proof {
        assert(generated_kfrags_match(
            reverified@,
            cs,
            params@,
            delegating_sk@,
            receiving_pk@,
            signer@,
            true,
            true,
        ));
        assert(spec_delegation_batch(
            reverified@,
            threshold as nat,
            params@,
            delegating_sk@,
            receiving_pk@,
            signer@,
        ));
    }
    Some(reverified)
}

/// How one generated fragment relates to the delegation: its share is the
/// polynomial at its hashed index, its commitment commits to the share, and
/// both signatures verify under the delegator's key.
pub open spec fn kfrag_matches(
    kf: KeyFrag,
    cs: Seq<nat>,
    u: nat,
    delegating_sk: nat,
    receiving_pk: nat,
    verifying_pk: nat,
    sign_delegating_key: bool,
    sign_receiving_key: bool,
) -> bool {
    let xs = kf.spec_precursor();
    let dh = mulq(receiving_pk, xs);
    &&& 0 < xs < group_order()
    &&& 0 < dh < group_order()
    &&& cs.len() >= 1
    &&& cs[0] == mulq(delegating_sk, invq(spec_hash_to_shared_secret(xs, receiving_pk, dh)))
    &&& spec_hash_to_shared_secret(xs, receiving_pk, dh) != 0
    &&& kf.spec_key() == spec_poly_eval(
        cs,
        spec_hash_to_polynomial_arg(xs, receiving_pk, dh, kf.spec_id()),
    )
    &&& kf.spec_commitment() == mulq(u, kf.spec_key())
    &&& kf.spec_commitment() != 0
    &&& kf.spec_flag_d() == sign_delegating_key
    &&& kf.spec_flag_r() == sign_receiving_key
    &&& kf.spec_id().len() == 32
    &&& spec_kfrag_valid(
        kf,
        u,
        verifying_pk,
        Some(delegating_sk),
        Some(receiving_pk),
    )
    &&& spec_kfrag_bob_valid(kf, verifying_pk, delegating_sk, receiving_pk)
}

/// How a whole generated batch relates to the delegation: all fragments
/// share one precursor and one polynomial.
pub open spec fn generated_kfrags_match(
    frags: Seq<VerifiedKeyFrag>,
    cs: Seq<nat>,
    u: nat,
    delegating_sk: nat,
    receiving_pk: nat,
    verifying_pk: nat,
    sign_delegating_key: bool,
    sign_receiving_key: bool,
) -> bool {
    &&& forall|j: int| 0 <= j < cs.len() ==> (#[trigger] cs[j]) < group_order()
    &&& forall|k: int|
        0 <= k < frags.len() ==> #[trigger] kfrag_matches(
            frags[k].spec_kfrag(),
            cs,
            u,
            delegating_sk,
            receiving_pk,
            verifying_pk,
            sign_delegating_key,
            sign_receiving_key,
        )
    &&& forall|k: int|
        0 <= k < frags.len() ==> (#[trigger] frags[k].spec_kfrag().spec_precursor())
            == frags[0].spec_kfrag().spec_precursor()
}

} // verus!
