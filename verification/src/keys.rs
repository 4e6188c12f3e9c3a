//! Secret and public keys, ECDSA signing, and the deterministic secret key
//! factory.

use crate::arith::group_order;
use crate::curve::{CurvePoint, CurveScalar};
use crate::dem::{hkdf_sha256, kdf, random_bytes};
use crate::encoding::{be_value, DeserializationError};
use vstd::prelude::*;

verus! {

/// What deterministic ECDSA signing (RFC 6979 over SHA-256) produces for a
/// secret scalar and a message, 64 bytes `r || s`.
pub uninterp spec fn ecdsa_signature(sk: nat, msg: Seq<u8>) -> Seq<u8>;

/// Whether ECDSA verification accepts the signature bytes for the public key
/// with the given discrete logarithm and the message.
pub uninterp spec fn ecdsa_verifies(pk: nat, msg: Seq<u8>, sig: Seq<u8>) -> bool;

/// Relies on `k256::ecdsa::SigningKey::sign` (RFC 6979, SHA-256): the
/// signature depends on the secret scalar and the message alone, and
/// verifies under the corresponding public key. Panics only where the
/// deterministic nonce degenerates to zero, for which no input is known.
#[verifier::external_body]
pub(crate) fn ecdsa_sign(sk: &CurveScalar, message: &[u8]) -> (r: Vec<u8>)
    requires
        sk@ != 0,
    ensures
        r@ == ecdsa_signature(sk@, message@),
        r@.len() == 64,
        ecdsa_verifies(sk@, message@, r@),
{
    let key = k256::ecdsa::SigningKey::from_slice(&sk.backend.to_bytes()).unwrap();
    let sig: k256::ecdsa::Signature = k256::ecdsa::signature::Signer::sign(&key, message);
    sig.to_bytes().to_vec()
}

/// Relies on `k256::ecdsa::VerifyingKey::verify`: deterministic in the
/// public key, the message and the signature bytes; malformed signature
/// bytes are rejected.
#[verifier::external_body]
pub(crate) fn ecdsa_verify(pk: &CurvePoint, message: &[u8], sig: &[u8]) -> (r: bool)
    requires
        pk@ != 0,
    ensures
        r == ecdsa_verifies(pk@, message@, sig@),
{
    let vk = match k256::ecdsa::VerifyingKey::from_affine(pk.backend.to_affine()) {
        Ok(vk) => vk,
        Err(_) => return false,
    };
    let sig = match k256::ecdsa::Signature::from_slice(sig) {
        Ok(sig) => sig,
        Err(_) => return false,
    };
    k256::ecdsa::signature::Verifier::verify(&vk, message, &sig).is_ok()
}

/// A secret key: a nonzero scalar.
#[derive(Clone, Copy)]
pub struct SecretKey {
    scalar: CurveScalar,
}

impl View for SecretKey {
    type V = nat;

    closed spec fn view(&self) -> nat {
        self.scalar@
    }
}

impl SecretKey {
    #[verifier::type_invariant]
    spec fn type_inv(&self) -> bool {
        0 < self.scalar@ < group_order()
    }

    /// Samples a fresh nonzero secret scalar.
    pub fn random() -> (r: Self)
        ensures
            0 < r@ < group_order(),
    {
        SecretKey { scalar: CurveScalar::random_nonzero() }
    }

    /// The secret scalar.
    pub(crate) fn scalar(&self) -> (r: &CurveScalar)
        ensures
            r@ == self@,
            0 < self@ < group_order(),
    {
        proof {
            use_type_invariant(&*self);
        }
        &self.scalar
    }

    /// The 32-byte big-endian encoding of the secret scalar.
    pub fn to_bytes(&self) -> (r: Vec<u8>)
        ensures
            r@.len() == 32,
            be_value(r@) == self@,
    {
        self.scalar.to_bytes()
    }

    /// Accepts exactly 32 bytes encoding a nonzero scalar below the order.
    pub fn from_bytes(bytes: &[u8]) -> (r: Result<Self, DeserializationError>)
        ensures
            r is Ok <==> bytes@.len() == 32 && 0 < be_value(bytes@) < group_order(),
            r matches Ok(k) ==> k@ == be_value(bytes@),
    {
        if bytes.len() != 32 {
            return Err(DeserializationError::ConstructionFailure);
        }
        match CurveScalar::from_bytes(bytes) {
            Some(scalar) => {
                if scalar.is_zero() {
                    Err(DeserializationError::ConstructionFailure)
                } else {
                    Ok(SecretKey { scalar })
                }
            },
            None => Err(DeserializationError::ConstructionFailure),
        }
    }
}

/// A public key: the generator times the secret scalar.
#[derive(Clone, Copy)]
pub struct PublicKey {
    point: CurvePoint,
}

impl View for PublicKey {
    type V = nat;

    closed spec fn view(&self) -> nat {
        self.point@
    }
}

impl PublicKey {
    #[verifier::type_invariant]
    spec fn type_inv(&self) -> bool {
        0 < self.point@ < group_order()
    }

    /// The generator times the secret scalar, so the discrete logarithm of
    /// the result is the secret value itself.
    pub fn from_secret_key(sk: &SecretKey) -> (r: Self)
        ensures
            r@ == sk@,
    {
        let point = CurvePoint::generator().mul(sk.scalar());
        proof {
            crate::arith::lemma_mod_small(sk@);
            assert(crate::arith::mulq(1, sk@) == sk@ % group_order()) by {
                assert(1 * sk@ == sk@) by (nonlinear_arith);
            }
        }
        PublicKey { point }
    }

    /// The underlying group element.
    pub(crate) fn point(&self) -> (r: &CurvePoint)
        ensures
            r@ == self@,
            0 < self@ < group_order(),
    {
        proof {
            use_type_invariant(&*self);
        }
        &self.point
    }

    /// The 33-byte compressed encoding of the public point.
    pub fn to_bytes(&self) -> (r: Vec<u8>)
        ensures
            r@.len() == 33,
            r@[0] == 2 || r@[0] == 3,
            r@ == crate::curve::point_encoding(self@),
            crate::curve::point_decoding(r@) == Some(self@),
    {
        proof {
            use_type_invariant(&*self);
        }
        self.point.to_bytes()
    }

    /// Accepts exactly 33 bytes encoding a valid non-identity point under a
    /// compressed `0x02`/`0x03` tag.
    pub fn from_bytes(bytes: &[u8]) -> (r: Result<Self, DeserializationError>)
        ensures
            r is Ok <==> bytes@.len() == 33 && (bytes@[0] == 2 || bytes@[0] == 3)
                && crate::curve::point_decoding(bytes@) is Some,
            r matches Ok(k) ==> crate::curve::point_decoding(bytes@) == Some(k@),
    {
        if bytes.len() != 33 {
            return Err(DeserializationError::ConstructionFailure);
        }
        match CurvePoint::from_bytes(bytes) {
            Some(point) => Ok(PublicKey { point }),
            None => Err(DeserializationError::ConstructionFailure),
        }
    }
}

/// An ECDSA signature, 64 bytes `r || s`.
pub struct Signature {
    bytes: Vec<u8>,
}

impl View for Signature {
    type V = Seq<u8>;

    closed spec fn view(&self) -> Seq<u8> {
        self.bytes@
    }
}

impl Signature {
    #[verifier::type_invariant]
    spec fn type_inv(&self) -> bool {
        self.bytes@.len() == 64
    }

    pub(crate) fn from_vec(bytes: Vec<u8>) -> (r: Self)
        requires
            bytes@.len() == 64,
        ensures
            r@ == bytes@,
    {
        Signature { bytes }
    }

    /// The 64 signature bytes.
    pub fn to_bytes(&self) -> (r: Vec<u8>)
        ensures
            r@ == self@,
            self@.len() == 64,
    {
        proof {
            use_type_invariant(&*self);
        }
        let mut out: Vec<u8> = Vec::new();
        crate::encoding::append_bytes(&mut out, self.bytes.as_slice());
        proof {
            assert(out@ =~= self@);
        }
        out
    }

    /// Accepts exactly 64 bytes; validity is decided at verification time.
    pub fn from_bytes(bytes: &[u8]) -> (r: Result<Self, DeserializationError>)
        ensures
            r is Ok <==> bytes@.len() == 64,
            r matches Ok(s) ==> s@ == bytes@,
    {
        if bytes.len() != 64 {
            return Err(DeserializationError::ConstructionFailure);
        }
        Ok(Signature { bytes: crate::encoding::take_bytes(bytes, 0, bytes.len()) })
    }

    /// Whether this signature verifies for the message under the key.
    pub fn verify(&self, pk: &PublicKey, message: &[u8]) -> (r: bool)
        ensures
            r == ecdsa_verifies(pk@, message@, self@),
    {
        ecdsa_verify(pk.point(), message, self.bytes.as_slice())
    }
}

/// Law: deserializing a serialized public key succeeds and returns an
/// equal key.
pub fn public_key_roundtrip(pk: &PublicKey) -> (r: Result<PublicKey, DeserializationError>)
    ensures
        r is Ok,
        r matches Ok(k) ==> k@ == pk@,
{
    let bytes = pk.to_bytes();
    PublicKey::from_bytes(bytes.as_slice())
}

/// Law: deserializing a serialized secret key succeeds and returns an
/// equal key.
pub fn secret_key_roundtrip(sk: &SecretKey) -> (r: Result<SecretKey, DeserializationError>)
    ensures
        r is Ok,
        r matches Ok(k) ==> k@ == sk@,
{
    proof {
        use_type_invariant(&*sk);
    }
    let bytes = sk.to_bytes();
    SecretKey::from_bytes(bytes.as_slice())
}

/// A signer owning a secret key and producing deterministic ECDSA
/// signatures.
pub struct Signer {
    secret: SecretKey,
}

impl View for Signer {
    type V = nat;

    closed spec fn view(&self) -> nat {
        self.secret@
    }
}

impl Signer {
    /// Wraps a secret key for signing.
    pub fn new(secret: &SecretKey) -> (r: Self)
        ensures
            r@ == secret@,
    {
        Signer { secret: *secret }
    }

    /// Signs the message; the result verifies under this signer's verifying
    /// key.
    pub fn sign(&self, message: &[u8]) -> (r: Signature)
        ensures
            r@ == ecdsa_signature(self@, message@),
            ecdsa_verifies(self@, message@, r@),
    {
        let sig = ecdsa_sign(self.secret.scalar(), message);
        Signature::from_vec(sig)
    }

    /// The public key signatures of this signer verify under.
    pub fn verifying_key(&self) -> (r: PublicKey)
        ensures
            r@ == self@,
    {
        PublicKey::from_secret_key(&self.secret)
    }
}

/// Key derivation failed.
#[derive(Clone, Copy, Debug, PartialEq, Eq, Structural)]
pub enum SecretKeyFactoryError {
    /// The expanded key material reduced to zero (statistically
    /// unreachable).
    InvalidDerivation,
}

/// Derives secret keys deterministically from a master seed and a label.
pub struct SecretKeyFactory {
    seed: Vec<u8>,
}

impl View for SecretKeyFactory {
    type V = Seq<u8>;

    closed spec fn view(&self) -> Seq<u8> {
        self.seed@
    }
}

impl SecretKeyFactory {
    #[verifier::type_invariant]
    spec fn type_inv(&self) -> bool {
        self.seed@.len() == 32
    }

    /// Samples a fresh 32-byte master seed.
    pub fn random() -> (r: Self)
        ensures
            r@.len() == 32,
    {
        SecretKeyFactory { seed: random_bytes(32) }
    }

    /// Derives the secret key for a label: HKDF-SHA256 over the seed and the
    /// label, reduced modulo the order; fails only on the statistically
    /// unreachable zero.
    pub fn make_key(&self, label: &[u8]) -> (r: Result<SecretKey, SecretKeyFactoryError>)
        ensures
            r is Ok <==> be_value(hkdf_sha256(self@, label@)) % group_order() != 0,
            r matches Ok(k) ==> k@ == be_value(hkdf_sha256(self@, label@)) % group_order(),
    {
        let okm = kdf(self.seed.as_slice(), label);
        let scalar = CurveScalar::from_digest(okm.as_slice());
        if scalar.is_zero() {
            Err(SecretKeyFactoryError::InvalidDerivation)
        } else {
            proof {
                vstd::arithmetic::div_mod::lemma_mod_bound(
                    be_value(hkdf_sha256(self@, label@)) as int,
                    group_order() as int,
                );
            }
            Ok(SecretKey { scalar })
        }
    }
}

} // verus!
