//! Wire-format round trips and tampering.

use umbral_pre::{
    encrypt, generate_kfrags, reencrypt, Capsule, CapsuleFrag, DeserializationError, KeyFrag,
    Parameters, PublicKey, SecretKey, Signer,
};

fn setup() -> (Parameters, SecretKey, PublicKey, SecretKey, PublicKey, Signer, PublicKey) {
    let params = Parameters::new().unwrap();
    let alice_sk = SecretKey::random();
    let alice_pk = PublicKey::from_secret_key(&alice_sk);
    let signing_sk = SecretKey::random();
    let signer = Signer::new(&signing_sk);
    let verifying_pk = PublicKey::from_secret_key(&signing_sk);
    let bob_sk = SecretKey::random();
    let bob_pk = PublicKey::from_secret_key(&bob_sk);
    (params, alice_sk, alice_pk, bob_sk, bob_pk, signer, verifying_pk)
}

#[test]
fn capsule_roundtrip_bytes() {
    let (_params, _alice_sk, alice_pk, _bob_sk, _bob_pk, _signer, _verifying_pk) = setup();
    let (capsule, _ct) = encrypt(&alice_pk, b"payload").unwrap();
    let bytes = capsule.to_bytes();
    assert_eq!(bytes.len(), 98);
    let restored = Capsule::from_bytes(&bytes).unwrap();
    assert_eq!(restored.to_bytes(), bytes);
}

#[test]
fn public_key_roundtrip_bytes() {
    let sk = SecretKey::random();
    let pk = PublicKey::from_secret_key(&sk);
    let bytes = pk.to_bytes();
    assert_eq!(bytes.len(), 33);
    let restored = PublicKey::from_bytes(&bytes).unwrap();
    assert_eq!(restored.to_bytes(), bytes);
}

#[test]
fn secret_key_roundtrip_bytes() {
    let sk = SecretKey::random();
    let bytes = sk.to_bytes();
    assert_eq!(bytes.len(), 32);
    let restored = SecretKey::from_bytes(&bytes).unwrap();
    assert_eq!(restored.to_bytes(), bytes);
}

#[test]
fn kfrag_roundtrip_bytes() {
    let (params, alice_sk, _alice_pk, _bob_sk, bob_pk, signer, _verifying_pk) = setup();
    let vkfrags = generate_kfrags(&params, &alice_sk, &bob_pk, &signer, 2, 3, true, false)
        .unwrap();
    for vkfrag in &vkfrags {
        let bytes = vkfrag.to_bytes();
        assert_eq!(bytes.len(), 260);
        let restored = KeyFrag::from_bytes(&bytes).unwrap();
        assert_eq!(restored.to_bytes(), bytes);
    }
}

#[test]
fn cfrag_roundtrip_bytes_with_and_without_metadata() {
    let (params, alice_sk, alice_pk, _bob_sk, bob_pk, signer, _verifying_pk) = setup();
    let (capsule, _ct) = encrypt(&alice_pk, b"payload").unwrap();
    let vkfrags = generate_kfrags(&params, &alice_sk, &bob_pk, &signer, 1, 1, true, true)
        .unwrap();
    let with_meta = reencrypt(&params, &capsule, &vkfrags[0], Some(b"metadata0")).unwrap();
    let bytes = with_meta.to_bytes();
    assert_eq!(bytes.len(), 364 + b"metadata0".len());
    let restored = CapsuleFrag::from_bytes(&bytes).unwrap();
    assert_eq!(restored.to_bytes(), bytes);

    let without_meta = reencrypt(&params, &capsule, &vkfrags[0], None).unwrap();
    let bytes = without_meta.to_bytes();
    assert_eq!(bytes.len(), 360);
    let restored = CapsuleFrag::from_bytes(&bytes).unwrap();
    assert_eq!(restored.to_bytes(), bytes);
}

#[test]
fn truncated_cfrag_is_a_construction_failure() {
    let (params, alice_sk, alice_pk, _bob_sk, bob_pk, signer, _verifying_pk) = setup();
    let (capsule, _ct) = encrypt(&alice_pk, b"peace at dawn").unwrap();
    let vkfrags = generate_kfrags(&params, &alice_sk, &bob_pk, &signer, 2, 3, true, true)
        .unwrap();
    let vcfrag = reencrypt(&params, &capsule, &vkfrags[0], Some(b"metadata0")).unwrap();
    let mut bytes = vcfrag.to_bytes();
    bytes.pop();
    assert_eq!(
        CapsuleFrag::from_bytes(&bytes).err().unwrap(),
        DeserializationError::ConstructionFailure
    );
}

#[test]
fn truncated_capsule_and_kfrag_are_construction_failures() {
    let (params, alice_sk, alice_pk, _bob_sk, bob_pk, signer, _verifying_pk) = setup();
    let (capsule, _ct) = encrypt(&alice_pk, b"payload").unwrap();
    let mut capsule_bytes = capsule.to_bytes();
    capsule_bytes.pop();
    assert!(Capsule::from_bytes(&capsule_bytes).is_err());
    let vkfrags = generate_kfrags(&params, &alice_sk, &bob_pk, &signer, 1, 1, true, true)
        .unwrap();
    let mut kfrag_bytes = vkfrags[0].to_bytes();
    kfrag_bytes.pop();
    assert!(KeyFrag::from_bytes(&kfrag_bytes).is_err());
}

#[test]
fn noncanonical_point_tags_are_rejected() {
    // The backend would also decode a 33-byte "compact" 0x05 form of the
    // same x coordinate; only the canonical 0x02/0x03 tags may be accepted,
    // or a point field would have two accepted encodings.
    let sk = SecretKey::random();
    let pk = PublicKey::from_secret_key(&sk);
    let bytes = pk.to_bytes();
    for tag in [0u8, 1, 4, 5, 6, 255] {
        let mut tampered = bytes.clone();
        tampered[0] = tag;
        assert_eq!(
            PublicKey::from_bytes(&tampered).err().unwrap(),
            DeserializationError::ConstructionFailure,
            "tag {} was accepted",
            tag
        );
    }
    let (_params, _alice_sk, alice_pk, _bob_sk, _bob_pk, _signer, _verifying_pk) = setup();
    let (capsule, _ct) = encrypt(&alice_pk, b"payload").unwrap();
    let mut capsule_bytes = capsule.to_bytes();
    capsule_bytes[0] = 5;
    assert!(Capsule::from_bytes(&capsule_bytes).is_err());
    capsule_bytes = capsule.to_bytes();
    capsule_bytes[33] = 5;
    assert!(Capsule::from_bytes(&capsule_bytes).is_err());
}

#[test]
fn tampered_kfrag_fails_verification() {
    let (params, alice_sk, alice_pk, _bob_sk, bob_pk, signer, verifying_pk) = setup();
    let vkfrags = generate_kfrags(&params, &alice_sk, &bob_pk, &signer, 1, 1, true, true)
        .unwrap();
    let bytes = vkfrags[0].to_bytes();
    // The first 196 bytes are covered by the proxy-facing signature and the
    // commitment check.
    for i in 0..196 {
        let mut tampered = bytes.clone();
        tampered[i] ^= 1;
        let accepted = match KeyFrag::from_bytes(&tampered) {
            Ok(kfrag) => kfrag
                .verify(&params, &verifying_pk, Some(&alice_pk), Some(&bob_pk))
                .is_ok(),
            Err(_) => false,
        };
        assert!(!accepted, "tampered byte {} was accepted", i);
    }
    // The receiver-facing signature is only checked when a cfrag made from
    // the fragment is verified: tamper it and watch that check fail.
    let (capsule, _ct) = encrypt(&alice_pk, b"payload").unwrap();
    for i in 196..bytes.len() {
        let mut tampered = bytes.clone();
        tampered[i] ^= 1;
        let kfrag = KeyFrag::from_bytes(&tampered).unwrap();
        let vkfrag = kfrag
            .verify(&params, &verifying_pk, Some(&alice_pk), Some(&bob_pk))
            .unwrap();
        let vcfrag = reencrypt(&params, &capsule, &vkfrag, None).unwrap();
        let cfrag = CapsuleFrag::from_bytes(&vcfrag.to_bytes()).unwrap();
        let accepted = cfrag
            .verify(&capsule, &params, &verifying_pk, &alice_pk, &bob_pk, None)
            .is_ok();
        assert!(!accepted, "tampered byte {} was accepted", i);
    }
}

#[test]
fn tampered_capsule_fails_verification() {
    let (_params, _alice_sk, alice_pk, _bob_sk, _bob_pk, _signer, _verifying_pk) = setup();
    let (capsule, _ct) = encrypt(&alice_pk, b"payload").unwrap();
    let bytes = capsule.to_bytes();
    for i in 0..bytes.len() {
        let mut tampered = bytes.clone();
        tampered[i] ^= 1;
        let accepted = match Capsule::from_bytes(&tampered) {
            Ok(c) => c.verify(),
            Err(_) => false,
        };
        assert!(!accepted, "tampered byte {} was accepted", i);
    }
}

#[test]
fn tampered_cfrag_fails_verification() {
    let (params, alice_sk, alice_pk, _bob_sk, bob_pk, signer, verifying_pk) = setup();
    let (capsule, _ct) = encrypt(&alice_pk, b"payload").unwrap();
    let vkfrags = generate_kfrags(&params, &alice_sk, &bob_pk, &signer, 1, 1, true, true)
        .unwrap();
    let vcfrag = reencrypt(&params, &capsule, &vkfrags[0], Some(b"m")).unwrap();
    let bytes = vcfrag.to_bytes();
    for i in 0..bytes.len() {
        let mut tampered = bytes.clone();
        tampered[i] ^= 1;
        let accepted = match CapsuleFrag::from_bytes(&tampered) {
            Ok(cfrag) => cfrag
                .verify(&capsule, &params, &verifying_pk, &alice_pk, &bob_pk, Some(b"m"))
                .is_ok(),
            Err(_) => false,
        };
        assert!(!accepted, "tampered byte {} was accepted", i);
    }
}
