//! Threshold proxy re-encryption after the Umbral scheme.
//!
//! Alice, the data owner, encrypts to her own public key and later delegates
//! decryption to Bob without sharing her secret key: delegation is split into
//! `n` key fragments (kfrags) handed to semi-trusted proxies, and any
//! `m <= n` of those proxies transform the capsule header into capsule
//! fragments (cfrags) that Bob combines with his secret key to recover the
//! payload key.
//!
//! The group arithmetic is carried by the secp256k1 backend; the contracts
//! model every scalar as its field value and every group element as its
//! discrete logarithm with respect to the generator, both naturals below the
//! prime group order.

pub mod arith;
pub mod capsule;
pub mod capsule_frag;
pub mod curve;
pub mod dem;
pub mod encoding;
pub mod hashing;
pub mod hashing_ds;
pub mod key_frag;
pub mod keys;
pub mod params;
pub mod pre;

pub use capsule::{Capsule, OpenReencryptedError};
pub use capsule_frag::{CapsuleFrag, CapsuleFragVerificationError, ReencryptionError, VerifiedCapsuleFrag};
pub use dem::{DecryptionError, EncryptionError};
pub use encoding::DeserializationError;
pub use key_frag::{KeyFrag, KeyFragID, KeyFragVerificationError, VerifiedKeyFrag};
pub use params::Parameters;
pub use pre::{decrypt_original, decrypt_reencrypted, encrypt, ReencryptedDecryptionError};
pub use key_frag::generate_kfrags;
pub use capsule_frag::reencrypt;
pub use keys::{PublicKey, SecretKey, SecretKeyFactory, SecretKeyFactoryError, Signature, Signer};
