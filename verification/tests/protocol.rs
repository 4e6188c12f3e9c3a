//! End-to-end protocol scenarios.

use umbral_pre::{
    decrypt_original, decrypt_reencrypted, encrypt, generate_kfrags, reencrypt, Capsule,
    CapsuleFrag, CapsuleFragVerificationError, DecryptionError, KeyFrag,
    KeyFragVerificationError, OpenReencryptedError, Parameters, PublicKey,
    ReencryptedDecryptionError, SecretKey, SecretKeyFactory, Signer, VerifiedCapsuleFrag,
};

struct Delegation {
    params: Parameters,
    alice_sk: SecretKey,
    alice_pk: PublicKey,
    bob_sk: SecretKey,
    bob_pk: PublicKey,
    signer: Signer,
    verifying_pk: PublicKey,
}

fn delegation() -> Delegation {
    let params = Parameters::new().unwrap();
    let alice_sk = SecretKey::random();
    let alice_pk = PublicKey::from_secret_key(&alice_sk);
    let signing_sk = SecretKey::random();
    let signer = Signer::new(&signing_sk);
    let verifying_pk = PublicKey::from_secret_key(&signing_sk);
    let bob_sk = SecretKey::random();
    let bob_pk = PublicKey::from_secret_key(&bob_sk);
    Delegation { params, alice_sk, alice_pk, bob_sk, bob_pk, signer, verifying_pk }
}

/// Runs the full flow with the given metadata per proxy and returns the
/// verified cfrags for the chosen proxies.
fn reencrypt_through_wire(
    d: &Delegation,
    capsule: &Capsule,
    threshold: usize,
    shares: usize,
    picks: &[usize],
    metadata: &[&[u8]],
) -> Vec<VerifiedCapsuleFrag> {
    let vkfrags = generate_kfrags(
        &d.params,
        &d.alice_sk,
        &d.bob_pk,
        &d.signer,
        threshold,
        shares,
        true,
        true,
    )
    .unwrap();
    let mut out = Vec::new();
    for &i in picks {
        // Simulate network transfer of the kfrag, re-verify, re-encrypt,
        // then transfer and verify the cfrag.
        let kfrag = KeyFrag::from_bytes(&vkfrags[i].to_bytes()).unwrap();
        let vkfrag = kfrag
            .verify(&d.params, &d.verifying_pk, Some(&d.alice_pk), Some(&d.bob_pk))
            .unwrap();
        let meta = metadata.get(i).copied();
        let vcfrag = reencrypt(&d.params, capsule, &vkfrag, meta).unwrap();
        let cfrag = CapsuleFrag::from_bytes(&vcfrag.to_bytes()).unwrap();
        let vcfrag = cfrag
            .verify(capsule, &d.params, &d.verifying_pk, &d.alice_pk, &d.bob_pk, meta)
            .unwrap();
        out.push(vcfrag);
    }
    out
}

#[test]
fn original_decryption_roundtrip() {
    let d = delegation();
    let plaintext = b"peace at dawn";
    let (capsule, ciphertext) = encrypt(&d.alice_pk, plaintext).unwrap();
    let decrypted = decrypt_original(&d.alice_sk, &capsule, &ciphertext).unwrap();
    assert_eq!(&decrypted as &[u8], plaintext);
}

#[test]
fn capsule_satisfies_correctness_equation() {
    let d = delegation();
    let (capsule, _ciphertext) = encrypt(&d.alice_pk, b"payload").unwrap();
    assert!(capsule.verify());
}

#[test]
fn two_of_three_with_metadata_decrypts() {
    let d = delegation();
    let plaintext = b"peace at dawn";
    let (capsule, ciphertext) = encrypt(&d.alice_pk, plaintext).unwrap();
    let metadata: [&[u8]; 3] = [b"metadata0", b"metadata1", b"metadata2"];
    let cfrags = reencrypt_through_wire(&d, &capsule, 2, 3, &[0, 1], &metadata);
    let decrypted =
        decrypt_reencrypted(&d.bob_sk, &d.alice_pk, &capsule, &cfrags, &ciphertext).unwrap();
    assert_eq!(&decrypted as &[u8], plaintext);
}

#[test]
fn one_of_two_required_fails() {
    let d = delegation();
    let plaintext = b"peace at dawn";
    let (capsule, ciphertext) = encrypt(&d.alice_pk, plaintext).unwrap();
    let metadata: [&[u8]; 3] = [b"metadata0", b"metadata1", b"metadata2"];
    let cfrags = reencrypt_through_wire(&d, &capsule, 2, 3, &[0], &metadata);
    let result = decrypt_reencrypted(&d.bob_sk, &d.alice_pk, &capsule, &cfrags, &ciphertext);
    assert!(matches!(
        result,
        Err(ReencryptedDecryptionError::Decryption(DecryptionError::AuthenticationFailed))
    ));
}

#[test]
fn three_of_five_picks_decrypt_and_two_fail() {
    let d = delegation();
    let plaintext = b"five shares";
    let (capsule, ciphertext) = encrypt(&d.alice_pk, plaintext).unwrap();
    let metadata: [&[u8]; 0] = [];
    let cfrags = reencrypt_through_wire(&d, &capsule, 3, 5, &[0, 2, 4], &metadata);
    let decrypted =
        decrypt_reencrypted(&d.bob_sk, &d.alice_pk, &capsule, &cfrags, &ciphertext).unwrap();
    assert_eq!(&decrypted as &[u8], plaintext);

    let too_few = reencrypt_through_wire(&d, &capsule, 3, 5, &[0, 2], &metadata);
    let result = decrypt_reencrypted(&d.bob_sk, &d.alice_pk, &capsule, &too_few, &ciphertext);
    assert!(matches!(
        result,
        Err(ReencryptedDecryptionError::Decryption(DecryptionError::AuthenticationFailed))
    ));
}

#[test]
fn single_proxy_roundtrip() {
    let d = delegation();
    let plaintext = b"one share";
    let (capsule, ciphertext) = encrypt(&d.alice_pk, plaintext).unwrap();
    let metadata: [&[u8]; 0] = [];
    let cfrags = reencrypt_through_wire(&d, &capsule, 1, 1, &[0], &metadata);
    let decrypted =
        decrypt_reencrypted(&d.bob_sk, &d.alice_pk, &capsule, &cfrags, &ciphertext).unwrap();
    assert_eq!(&decrypted as &[u8], plaintext);
}

#[test]
fn kfrags_verify_under_true_identities() {
    let d = delegation();
    let vkfrags =
        generate_kfrags(&d.params, &d.alice_sk, &d.bob_pk, &d.signer, 2, 3, true, true).unwrap();
    assert_eq!(vkfrags.len(), 3);
    for vkfrag in &vkfrags {
        let kfrag = KeyFrag::from_bytes(&vkfrag.to_bytes()).unwrap();
        kfrag
            .verify(&d.params, &d.verifying_pk, Some(&d.alice_pk), Some(&d.bob_pk))
            .unwrap();
    }
}

#[test]
fn kfrag_verification_is_idempotent() {
    let d = delegation();
    let vkfrags =
        generate_kfrags(&d.params, &d.alice_sk, &d.bob_pk, &d.signer, 2, 2, true, true).unwrap();
    let first = KeyFrag::from_bytes(&vkfrags[0].to_bytes()).unwrap();
    let verified = first
        .verify(&d.params, &d.verifying_pk, Some(&d.alice_pk), Some(&d.bob_pk))
        .unwrap();
    let again = verified.unverify();
    let reverified = again
        .verify(&d.params, &d.verifying_pk, Some(&d.alice_pk), Some(&d.bob_pk))
        .unwrap();
    assert_eq!(reverified.to_bytes(), vkfrags[0].to_bytes());
}

#[test]
fn kfrags_signed_with_other_key_fail_verification() {
    let d = delegation();
    let other_sk = SecretKey::random();
    let other_pk = PublicKey::from_secret_key(&other_sk);
    let vkfrags =
        generate_kfrags(&d.params, &d.alice_sk, &d.bob_pk, &d.signer, 2, 3, true, true).unwrap();
    for vkfrag in &vkfrags {
        let kfrag = KeyFrag::from_bytes(&vkfrag.to_bytes()).unwrap();
        let result = kfrag.verify(&d.params, &other_pk, Some(&d.alice_pk), Some(&d.bob_pk));
        assert_eq!(result.err().unwrap(), KeyFragVerificationError::IncorrectSignature);
    }
}

#[test]
fn metadata_mismatch_fails_cfrag_verification() {
    let d = delegation();
    let (capsule, _ciphertext) = encrypt(&d.alice_pk, b"payload").unwrap();
    let vkfrags =
        generate_kfrags(&d.params, &d.alice_sk, &d.bob_pk, &d.signer, 1, 1, true, true).unwrap();
    let vcfrag = reencrypt(&d.params, &capsule, &vkfrags[0], Some(b"metadata0")).unwrap();
    let cfrag = CapsuleFrag::from_bytes(&vcfrag.to_bytes()).unwrap();
    let result = cfrag.verify(
        &capsule,
        &d.params,
        &d.verifying_pk,
        &d.alice_pk,
        &d.bob_pk,
        Some(b"metadata1"),
    );
    assert_eq!(result.err().unwrap(), CapsuleFragVerificationError::IncorrectReencryption);
}

#[test]
fn repeated_fragment_is_rejected() {
    let d = delegation();
    let plaintext = b"payload";
    let (capsule, ciphertext) = encrypt(&d.alice_pk, plaintext).unwrap();
    let metadata: [&[u8]; 0] = [];
    let cfrags = reencrypt_through_wire(&d, &capsule, 2, 2, &[0], &metadata);
    let bytes = cfrags[0].to_bytes();
    let duplicate = CapsuleFrag::from_bytes(&bytes)
        .unwrap()
        .verify(&capsule, &d.params, &d.verifying_pk, &d.alice_pk, &d.bob_pk, None)
        .unwrap();
    let mut pair = Vec::new();
    pair.push(CapsuleFrag::from_bytes(&bytes)
        .unwrap()
        .verify(&capsule, &d.params, &d.verifying_pk, &d.alice_pk, &d.bob_pk, None)
        .unwrap());
    pair.push(duplicate);
    let result = decrypt_reencrypted(&d.bob_sk, &d.alice_pk, &capsule, &pair, &ciphertext);
    assert!(matches!(
        result,
        Err(ReencryptedDecryptionError::Opening(OpenReencryptedError::RepeatingFragments))
    ));
}

#[test]
fn mixed_precursors_are_rejected() {
    let d = delegation();
    let plaintext = b"payload";
    let (capsule, ciphertext) = encrypt(&d.alice_pk, plaintext).unwrap();
    let metadata: [&[u8]; 0] = [];
    // Two separate delegations from the same Alice to the same Bob produce
    // distinct precursors.
    let mut one = reencrypt_through_wire(&d, &capsule, 2, 2, &[0], &metadata);
    let two = reencrypt_through_wire(&d, &capsule, 2, 2, &[0], &metadata);
    one.extend(two);
    let result = decrypt_reencrypted(&d.bob_sk, &d.alice_pk, &capsule, &one, &ciphertext);
    assert!(matches!(
        result,
        Err(ReencryptedDecryptionError::Opening(OpenReencryptedError::MismatchedFragments))
    ));
}

#[test]
fn no_fragments_is_rejected() {
    let d = delegation();
    let (capsule, ciphertext) = encrypt(&d.alice_pk, b"payload").unwrap();
    let none: Vec<VerifiedCapsuleFrag> = Vec::new();
    let result = decrypt_reencrypted(&d.bob_sk, &d.alice_pk, &capsule, &none, &ciphertext);
    assert!(matches!(
        result,
        Err(ReencryptedDecryptionError::Opening(OpenReencryptedError::NoCapsuleFrags))
    ));
}

#[test]
fn proven_roundtrip_returns_plaintext() {
    let d = delegation();
    let plaintext = b"round and round";
    let decrypted = umbral_pre::pre::original_roundtrip(&d.alice_sk, plaintext).unwrap();
    assert_eq!(&decrypted as &[u8], plaintext);
}

#[test]
fn proven_generation_reverifies() {
    let d = delegation();
    let reverified = umbral_pre::key_frag::generated_kfrags_verify(
        &d.params,
        &d.alice_sk,
        &d.bob_pk,
        &d.signer,
        2,
        3,
    )
    .unwrap();
    assert_eq!(reverified.len(), 3);
}

#[test]
fn proven_reencryption_verifies() {
    let d = delegation();
    let plaintext = b"payload";
    let (capsule, ciphertext) = encrypt(&d.alice_pk, plaintext).unwrap();
    let vkfrags =
        generate_kfrags(&d.params, &d.alice_sk, &d.bob_pk, &d.signer, 1, 1, true, true).unwrap();
    let vcfrag = umbral_pre::capsule_frag::reencrypt_and_verify(
        &d.params,
        &capsule,
        &vkfrags[0],
        Some(b"metadata0"),
        &d.verifying_pk,
        &d.alice_pk,
        &d.bob_pk,
    )
    .unwrap();
    let cfrags = vec![vcfrag];
    let decrypted =
        decrypt_reencrypted(&d.bob_sk, &d.alice_pk, &capsule, &cfrags, &ciphertext).unwrap();
    assert_eq!(&decrypted as &[u8], plaintext);
}

#[test]
fn proven_single_share_roundtrip() {
    let d = delegation();
    let plaintext = b"one proven share";
    let signing_sk = SecretKey::random();
    let signer = Signer::new(&signing_sk);
    let decrypted = umbral_pre::pre::single_share_roundtrip(
        &d.params,
        &d.alice_sk,
        &d.bob_sk,
        &signer,
        plaintext,
    )
    .unwrap();
    assert_eq!(&decrypted as &[u8], plaintext);
}

#[test]
fn proven_two_share_roundtrip() {
    let d = delegation();
    let plaintext = b"two proven shares";
    let signing_sk = SecretKey::random();
    let signer = Signer::new(&signing_sk);
    let decrypted = umbral_pre::pre::two_share_roundtrip(
        &d.params,
        &d.alice_sk,
        &d.bob_sk,
        &signer,
        plaintext,
    )
    .unwrap();
    assert_eq!(&decrypted as &[u8], plaintext);
}

#[test]
fn proven_duplicate_share_rejection() {
    let d = delegation();
    let signing_sk = SecretKey::random();
    let signer = Signer::new(&signing_sk);
    let error = umbral_pre::pre::duplicate_share_rejected(
        &d.params,
        &d.alice_sk,
        &d.bob_sk,
        &signer,
        b"payload",
    )
    .unwrap();
    assert_eq!(error, OpenReencryptedError::RepeatingFragments);
}

#[test]
fn factory_derivation_is_deterministic() {
    let factory = SecretKeyFactory::random();
    let key_one = factory.make_key(b"label").unwrap();
    let key_two = factory.make_key(b"label").unwrap();
    assert_eq!(key_one.to_bytes(), key_two.to_bytes());
    let other = factory.make_key(b"other label").unwrap();
    assert_ne!(key_one.to_bytes(), other.to_bytes());
}

#[test]
fn short_ciphertext_is_rejected() {
    let d = delegation();
    let (capsule, _ciphertext) = encrypt(&d.alice_pk, b"payload").unwrap();
    let result = decrypt_original(&d.alice_sk, &capsule, b"short");
    assert!(matches!(result, Err(DecryptionError::CiphertextTooShort)));
}
