//! The data encapsulation mechanism: XChaCha20-Poly1305 under a key derived
//! by HKDF-SHA256 from a capsule's shared secret.
//!
//! A ciphertext is laid out `nonce(24) || body || tag(16)`, with the nonce
//! drawn fresh for every encryption.

use chacha20poly1305::aead::{Aead, KeyInit, Payload};
use chacha20poly1305::{XChaCha20Poly1305, XNonce};
use hkdf::Hkdf;
use rand_core::{OsRng, RngCore};
use sha2::Sha256;
use vstd::prelude::*;

verus! {

/// Encryption failed.
#[derive(Clone, Copy, Debug, PartialEq, Eq, Structural)]
pub enum EncryptionError {
    /// The plaintext is longer than the supported maximum.
    PlaintextTooLarge,
    /// An ephemeral secret degenerated (statistically unreachable).
    KeyDerivationFailed,
}

/// Decryption failed.
#[derive(Clone, Copy, Debug, PartialEq, Eq, Structural)]
pub enum DecryptionError {
    /// The ciphertext is too short to carry a nonce.
    CiphertextTooShort,
    /// The authentication tag did not check out.
    AuthenticationFailed,
    /// The shared point degenerated to the identity (statistically
    /// unreachable for honestly produced capsules).
    KeyDerivationFailed,
}

/// The largest plaintext the DEM accepts, well under the cipher's limit.
pub const PLAINTEXT_MAX: usize = 0x10000000;

/// What HKDF-SHA256 expands `(ikm, info)` to, 32 bytes.
pub uninterp spec fn hkdf_sha256(ikm: Seq<u8>, info: Seq<u8>) -> Seq<u8>;

/// What XChaCha20-Poly1305 sealing produces on the given key, nonce,
/// plaintext and associated data.
pub uninterp spec fn xchacha_seal(key: Seq<u8>, nonce: Seq<u8>, msg: Seq<u8>, aad: Seq<u8>) -> Seq<
    u8,
>;

/// What XChaCha20-Poly1305 opening yields on the given key, nonce,
/// ciphertext and associated data; `None` where authentication fails.
pub uninterp spec fn xchacha_open(key: Seq<u8>, nonce: Seq<u8>, ct: Seq<u8>, aad: Seq<u8>) -> Option<
    Seq<u8>,
>;

/// Relies on `hkdf::Hkdf::<Sha256>::new` and `expand` (no salt): the output
/// depends on the input key material and the info bytes alone, and expansion
/// to 32 bytes never fails.
#[verifier::external_body]
pub(crate) fn kdf(ikm: &[u8], info: &[u8]) -> (r: Vec<u8>)
    ensures
        r@ == hkdf_sha256(ikm@, info@),
        r@.len() == 32,
{
    let hk = Hkdf::<Sha256>::new(None, ikm);
    let mut okm = [0u8; 32];
    hk.expand(info, &mut okm).unwrap();
    okm.to_vec()
}

/// Relies on `rand_core::OsRng::fill_bytes`: nothing is promised of the
/// bytes beyond their count. Aborts the process if the operating system's
/// randomness source fails.
#[verifier::external_body]
pub(crate) fn random_bytes(n: usize) -> (r: Vec<u8>)
    ensures
        r@.len() == n,
{
    let mut buf = vec![0u8; n];
    OsRng.fill_bytes(&mut buf);
    buf
}

/// Relies on `chacha20poly1305::XChaCha20Poly1305::encrypt`: deterministic
/// in its arguments, appends a 16-byte tag, never fails below the cipher's
/// plaintext bound, and is inverted by `decrypt` under the same key, nonce
/// and associated data.
#[verifier::external_body]
fn aead_seal(key: &[u8], nonce: &[u8], msg: &[u8], aad: &[u8]) -> (r: Vec<u8>)
    requires
        key@.len() == 32,
        nonce@.len() == 24,
        msg@.len() <= PLAINTEXT_MAX,
    ensures
        r@ == xchacha_seal(key@, nonce@, msg@, aad@),
        r@.len() == msg@.len() + 16,
        xchacha_open(key@, nonce@, r@, aad@) == Some(msg@),
{
    let cipher = XChaCha20Poly1305::new(key.into());
    cipher.encrypt(XNonce::from_slice(nonce), Payload { msg, aad }).unwrap()
}

/// Relies on `chacha20poly1305::XChaCha20Poly1305::decrypt`: deterministic
/// in its arguments; fails exactly where authentication fails.
#[verifier::external_body]
fn aead_open(key: &[u8], nonce: &[u8], ct: &[u8], aad: &[u8]) -> (r: Option<Vec<u8>>)
    requires
        key@.len() == 32,
        nonce@.len() == 24,
    ensures
        r is Some <==> xchacha_open(key@, nonce@, ct@, aad@) is Some,
        r matches Some(v) ==> xchacha_open(key@, nonce@, ct@, aad@) == Some(v@),
{
    let cipher = XChaCha20Poly1305::new(key.into());
    cipher.decrypt(XNonce::from_slice(nonce), Payload { msg: ct, aad }).ok()
}

/// The info bytes for DEM key derivation: the ASCII tag `KEY_DERIVATION`.
pub open spec fn dem_kdf_info() -> Seq<u8> {
    seq![75u8, 69u8, 89u8, 95u8, 68u8, 69u8, 82u8, 73u8, 86u8, 65u8, 84u8, 73u8, 79u8, 78u8]
}

fn dem_kdf_info_bytes() -> (r: Vec<u8>)
    ensures
        r@ == dem_kdf_info(),
{
    let mut v: Vec<u8> = Vec::new();
    v.push(75u8);
    v.push(69u8);
    v.push(89u8);
    v.push(95u8);
    v.push(68u8);
    v.push(69u8);
    v.push(82u8);
    v.push(73u8);
    v.push(86u8);
    v.push(65u8);
    v.push(84u8);
    v.push(73u8);
    v.push(79u8);
    v.push(78u8);
    proof {
        assert(v@ =~= dem_kdf_info());
    }
    v
}

/// The DEM key derived from a shared-secret encoding.
pub open spec fn dem_key(key_seed: Seq<u8>) -> Seq<u8> {
    hkdf_sha256(key_seed, dem_kdf_info())
}

/// The symmetric cipher keyed for one capsule.
pub struct DEM {
    key: Vec<u8>,
}

impl DEM {
    #[verifier::type_invariant]
    spec fn type_inv(&self) -> bool {
        self.key@.len() == 32
    }

    /// The key this cipher was built with.
    pub closed spec fn key_spec(&self) -> Seq<u8> {
        self.key@
    }

    /// Derives the cipher key from a shared-secret encoding by HKDF-SHA256.
    pub fn new(key_seed: &[u8]) -> (r: Self)
        ensures
            r.key_spec() == dem_key(key_seed@),
    {
        let info = dem_kdf_info_bytes();
        let key = kdf(key_seed, info.as_slice());
        DEM { key }
    }

    /// Encrypts with a fresh random nonce; the result is
    /// `nonce || body || tag` and opens back to the plaintext under the same
    /// key and associated data.
    pub fn encrypt(&self, data: &[u8], aad: &[u8]) -> (r: Result<Vec<u8>, EncryptionError>)
        ensures
            r is Ok <==> data@.len() <= PLAINTEXT_MAX,
            r matches Ok(ct) ==> {
                &&& ct@.len() == data@.len() + 40
                &&& ct@.subrange(24, ct@.len() as int) == xchacha_seal(
                    self.key_spec(),
                    ct@.subrange(0, 24),
                    data@,
                    aad@,
                )
                &&& xchacha_open(
                    self.key_spec(),
                    ct@.subrange(0, 24),
                    ct@.subrange(24, ct@.len() as int),
                    aad@,
                ) == Some(data@)
            },
    {
        proof {
            use_type_invariant(&*self);
        }
        if data.len() > PLAINTEXT_MAX {
            return Err(EncryptionError::PlaintextTooLarge);
        }
        let nonce = random_bytes(24);
        let sealed = aead_seal(self.key.as_slice(), nonce.as_slice(), data, aad);
        let mut out = nonce;
        append_bytes_vec(&mut out, &sealed);
        proof {
            assert(out@.subrange(0, 24) =~= nonce@);
            assert(out@.subrange(24, out@.len() as int) =~= sealed@);
        }
        Ok(out)
    }

    /// Splits off the nonce and opens the body; fails on a short ciphertext
    /// or a bad tag.
    pub fn decrypt(&self, ciphertext: &[u8], aad: &[u8]) -> (r: Result<Vec<u8>, DecryptionError>)
        ensures
            r is Ok <==> ciphertext@.len() >= 24 && xchacha_open(
                self.key_spec(),
                ciphertext@.subrange(0, 24),
                ciphertext@.subrange(24, ciphertext@.len() as int),
                aad@,
            ) is Some,
            r matches Ok(p) ==> Some(p@) == xchacha_open(
                self.key_spec(),
                ciphertext@.subrange(0, 24),
                ciphertext@.subrange(24, ciphertext@.len() as int),
                aad@,
            ),
    {
        proof {
            use_type_invariant(&*self);
        }
        if ciphertext.len() < 24 {
            return Err(DecryptionError::CiphertextTooShort);
        }
        let nonce = crate::encoding::take_bytes(ciphertext, 0, 24);
        let body = crate::encoding::take_bytes(ciphertext, 24, ciphertext.len());
        match aead_open(self.key.as_slice(), nonce.as_slice(), body.as_slice(), aad) {
            Some(p) => Ok(p),
            None => Err(DecryptionError::AuthenticationFailed),
        }
    }
}

fn append_bytes_vec(out: &mut Vec<u8>, data: &Vec<u8>)
    ensures
        final(out)@ == old(out)@ + data@,
{
    crate::encoding::append_bytes(out, data.as_slice());
}

} // verus!
