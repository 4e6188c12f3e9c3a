//! The facade: encryption, decryption by the original owner, and decryption
//! of a re-encrypted capsule.

use crate::arith::{addq, group_order, invq, mulq};
use crate::capsule::{
    capsule_correct, cfrags_mismatched, has_repeats, lemma_reconstruct_single,
    spec_reconstructed_secret, spec_share_indices, Capsule, OpenReencryptedError,
};
use crate::capsule_frag::{reencrypt, ReencryptionError, VerifiedCapsuleFrag};
use crate::curve::point_encoding;
use crate::dem::{
    dem_key, xchacha_open, DecryptionError, EncryptionError, DEM, PLAINTEXT_MAX,
};
use crate::hashing_ds::{hash_to_shared_secret, spec_hash_to_shared_secret};
use crate::key_frag::{
    generate_kfrags, generated_kfrags_match, kfrag_matches, lemma_poly_eval_one,
};
use crate::keys::{PublicKey, SecretKey, Signer};
use crate::params::Parameters;
use vstd::prelude::*;

verus! {

/// Decrypting a re-encrypted capsule failed.
#[derive(Clone, Copy, Debug, PartialEq, Eq, Structural)]
pub enum ReencryptedDecryptionError {
    /// The capsule could not be opened from the fragments.
    Opening(OpenReencryptedError),
    /// The payload failed to decrypt under the reconstructed key.
    Decryption(DecryptionError),
}

/// The DEM key that seals a payload for the capsule `(e, v)` encrypted to
/// the public key with discrete logarithm `pk`.
pub open spec fn spec_payload_key(pk: nat, e: nat, v: nat) -> Seq<u8> {
    dem_key(point_encoding(mulq(pk, addq(e, v))))
}

/// Encrypts the plaintext to the delegating public key: a KEM capsule and a
/// DEM ciphertext that opens back to the plaintext under the capsule's key.
pub fn encrypt(delegating_pk: &PublicKey, plaintext: &[u8]) -> (r: Result<
    (Capsule, Vec<u8>),
    EncryptionError,
>)
    ensures
        r == Err::<(Capsule, Vec<u8>), EncryptionError>(EncryptionError::PlaintextTooLarge)
            <==> plaintext@.len() > PLAINTEXT_MAX,
        r matches Ok(pair) ==> {
            let key = spec_payload_key(delegating_pk@, pair.0.spec_e(), pair.0.spec_v());
            &&& capsule_correct(pair.0.spec_e(), pair.0.spec_v(), pair.0.spec_s())
            &&& mulq(delegating_pk@, addq(pair.0.spec_e(), pair.0.spec_v())) != 0
            &&& pair.1@.len() == plaintext@.len() + 40
            &&& xchacha_open(
                key,
                pair.1@.subrange(0, 24),
                pair.1@.subrange(24, pair.1@.len() as int),
                Seq::<u8>::empty(),
            ) == Some(plaintext@)
        },
{
    if plaintext.len() > PLAINTEXT_MAX {
        return Err(EncryptionError::PlaintextTooLarge);
    }
    let (capsule, key_seed) = match Capsule::from_public_key(delegating_pk) {
        Some(pair) => pair,
        None => {
            return Err(EncryptionError::KeyDerivationFailed);
        },
    };
    let dem = DEM::new(key_seed.as_slice());
    let aad: Vec<u8> = Vec::new();
    match dem.encrypt(plaintext, aad.as_slice()) {
        Ok(ciphertext) => Ok((capsule, ciphertext)),
        Err(_) => {
            proof {
                assert(false);
            }
            Err(EncryptionError::PlaintextTooLarge)
        },
    }
}

/// Decrypts a ciphertext with the original owner's secret key.
pub fn decrypt_original(
    delegating_sk: &SecretKey,
    capsule: &Capsule,
    ciphertext: &[u8],
) -> (r: Result<Vec<u8>, DecryptionError>)
    ensures
        ({
            let key = dem_key(
                point_encoding(mulq(addq(capsule.spec_e(), capsule.spec_v()), delegating_sk@)),
            );
            &&& (r is Ok <==> mulq(addq(capsule.spec_e(), capsule.spec_v()), delegating_sk@) != 0
                && ciphertext@.len() >= 24 && xchacha_open(
                key,
                ciphertext@.subrange(0, 24),
                ciphertext@.subrange(24, ciphertext@.len() as int),
                Seq::<u8>::empty(),
            ) is Some)
            &&& (r matches Ok(p) ==> Some(p@) == xchacha_open(
                key,
                ciphertext@.subrange(0, 24),
                ciphertext@.subrange(24, ciphertext@.len() as int),
                Seq::<u8>::empty(),
            ))
        }),
{
    let key_seed = match capsule.open_original_seed(delegating_sk) {
        Some(seed) => seed,
        None => {
            return Err(DecryptionError::KeyDerivationFailed);
        },
    };
    let dem = DEM::new(key_seed.as_slice());
    let aad: Vec<u8> = Vec::new();
    dem.decrypt(ciphertext, aad.as_slice())
}

/// Decrypts a re-encrypted ciphertext with the receiver's secret key, from
/// at least a threshold of verified capsule fragments.
pub fn decrypt_reencrypted(
    receiving_sk: &SecretKey,
    delegating_pk: &PublicKey,
    capsule: &Capsule,
    verified_cfrags: &Vec<VerifiedCapsuleFrag>,
    ciphertext: &[u8],
) -> (r: Result<Vec<u8>, ReencryptedDecryptionError>)
    ensures
        ({
            let cfs = verified_cfrags@.map_values(|c: VerifiedCapsuleFrag| c.spec_cfrag());
            let ss = spec_reconstructed_secret(cfs, receiving_sk@);
            let key = dem_key(point_encoding(ss));
            cfs.len() > 0 && !cfrags_mismatched(cfs) && mulq(
                cfs[0].spec_precursor(),
                receiving_sk@,
            ) != 0 && !has_repeats(spec_share_indices(cfs, receiving_sk@)) && ss != 0 ==> {
                &&& (r is Ok <==> ciphertext@.len() >= 24 && xchacha_open(
                    key,
                    ciphertext@.subrange(0, 24),
                    ciphertext@.subrange(24, ciphertext@.len() as int),
                    Seq::<u8>::empty(),
                ) is Some)
                &&& (r matches Ok(p) ==> Some(p@) == xchacha_open(
                    key,
                    ciphertext@.subrange(0, 24),
                    ciphertext@.subrange(24, ciphertext@.len() as int),
                    Seq::<u8>::empty(),
                ))
            }
        }),
        r == Err::<Vec<u8>, ReencryptedDecryptionError>(
            ReencryptedDecryptionError::Opening(OpenReencryptedError::NoCapsuleFrags),
        ) <==> verified_cfrags@.len() == 0,
        ({
            let cfs = verified_cfrags@.map_values(|c: VerifiedCapsuleFrag| c.spec_cfrag());
            &&& (cfs.len() > 0 ==> (r == Err::<Vec<u8>, ReencryptedDecryptionError>(
                ReencryptedDecryptionError::Opening(OpenReencryptedError::MismatchedFragments),
            ) <==> cfrags_mismatched(cfs)))
            &&& (cfs.len() > 0 && !cfrags_mismatched(cfs) && mulq(
                cfs[0].spec_precursor(),
                receiving_sk@,
            ) != 0 ==> (r == Err::<Vec<u8>, ReencryptedDecryptionError>(
                ReencryptedDecryptionError::Opening(OpenReencryptedError::RepeatingFragments),
            ) <==> has_repeats(spec_share_indices(cfs, receiving_sk@))))
        }),
{
    let key_seed = match capsule.open_reencrypted(receiving_sk, verified_cfrags) {
        Ok(seed) => seed,
        Err(e) => {
            return Err(ReencryptedDecryptionError::Opening(e));
        },
    };
    let dem = DEM::new(key_seed.as_slice());
    let aad: Vec<u8> = Vec::new();
    match dem.decrypt(ciphertext, aad.as_slice()) {
        Ok(p) => Ok(p),
        Err(e) => Err(ReencryptedDecryptionError::Decryption(e)),
    }
}

/// Law: the one-of-one delegation path returns the plaintext, end to end.
///
/// Encrypt to the delegator, split into a single key fragment, re-encrypt,
/// and open with the receiver's key: the result is proven to be exactly the
/// plaintext. Every decryption-side failure arm is verified unreachable;
/// `None` can come only from the statistically unreachable degeneracies of
/// the random draws during encryption, generation and re-encryption.
pub fn single_share_roundtrip(
    params: &Parameters,
    delegating_sk: &SecretKey,
    receiving_sk: &SecretKey,
    signer: &Signer,
    plaintext: &[u8],
) -> (r: Option<Vec<u8>>)
    requires
        plaintext@.len() <= PLAINTEXT_MAX,
    ensures
        r matches Some(p) ==> p@ == plaintext@,
{
    let delegating_pk = PublicKey::from_secret_key(delegating_sk);
    let receiving_pk = PublicKey::from_secret_key(receiving_sk);
    let delegating_point = delegating_pk.point();
    let receiving_point = receiving_pk.point();
    proof {
        assert(delegating_point@ == delegating_sk@);
        assert(receiving_point@ == receiving_sk@);
    }
    let (capsule, ciphertext) = match encrypt(&delegating_pk, plaintext) {
        Ok(pair) => pair,
        Err(_) => {
            return None;
        },
    };
    let capsule_e = capsule.e_point();
    let capsule_v = capsule.v_point();
    proof {
        assert(0 < capsule_e@ < group_order());
        assert(0 < capsule_v@ < group_order());
    }
    let frags = match generate_kfrags(
        params,
        delegating_sk,
        &receiving_pk,
        signer,
        1,
        1,
        true,
        true,
    ) {
        Some(frags) => frags,
        None => {
            return None;
        },
    };
    let ghost cs = choose|cs: Seq<nat>|
        cs.len() == 1 && #[trigger] generated_kfrags_match(
            frags@,
            cs,
            params@,
            delegating_sk@,
            receiving_pk@,
            signer@,
            true,
            true,
        );
    proof {
        assert(kfrag_matches(
            frags@[0].spec_kfrag(),
            cs,
            params@,
            delegating_sk@,
            receiving_pk@,
            signer@,
            true,
            true,
        ));
        crate::arith::lemma_mulq_bound(delegating_sk@, invq(spec_hash_to_shared_secret(
            frags@[0].spec_kfrag().spec_precursor(),
            receiving_pk@,
            mulq(receiving_pk@, frags@[0].spec_kfrag().spec_precursor()),
        )));
        lemma_poly_eval_one(cs, crate::hashing_ds::spec_hash_to_polynomial_arg(
            frags@[0].spec_kfrag().spec_precursor(),
            receiving_pk@,
            mulq(receiving_pk@, frags@[0].spec_kfrag().spec_precursor()),
            frags@[0].spec_kfrag().spec_id(),
        ));
    }
    let vcfrag = match reencrypt(params, &capsule, &frags[0], None) {
        Ok(vc) => vc,
        Err(ReencryptionError::CapsuleVerificationFailed) => {
            proof {
                assert(false);
            }
            return None;
        },
        Err(ReencryptionError::DegeneratePoint) => {
            return None;
        },
    };
    let mut cfrags: Vec<VerifiedCapsuleFrag> = Vec::new();
    cfrags.push(vcfrag);
    let ghost cfs = cfrags@.map_values(|c: VerifiedCapsuleFrag| c.spec_cfrag());
    let ghost xs_d = cfs[0].spec_precursor();
    let ghost dh_g = mulq(receiving_pk@, xs_d);
    let ghost dd_g = spec_hash_to_shared_secret(xs_d, receiving_pk@, dh_g);
    proof {
        assert(cfs.len() == 1);
        assert(cfs[0] == cfrags@[0].spec_cfrag());
        assert(xs_d == frags@[0].spec_kfrag().spec_precursor());
        crate::arith::lemma_mulq_comm(receiving_pk@, xs_d);
    }
    // Recompute the delegation hash on the receiver's side to witness that
    // it has an inverse.
    let precursor_pt = *cfrags[0].cfrag_ref().precursor_point();
    let dh_pt = precursor_pt.mul(receiving_sk.scalar());
    proof {
        assert(dh_pt@ == mulq(xs_d, receiving_sk@));
        assert(dh_pt@ == dh_g);
    }
    let dd_scalar = hash_to_shared_secret(&precursor_pt, receiving_pk.point(), &dh_pt);
    proof {
        assert(dd_scalar@ == dd_g);
    }
    match dd_scalar.invert() {
        Some(inv) => {
            proof {
                crate::arith::lemma_invq_is(dd_g, inv@);
            }
        },
        None => {
            proof {
                assert(false);
            }
            return None;
        },
    }
    proof {
        assert(mulq(dd_g, invq(dd_g)) == 1);
        assert(cfs[0].spec_e1() == mulq(
            capsule.spec_e(),
            mulq(delegating_sk@, invq(dd_g)),
        ));
        assert(cfs[0].spec_v1() == mulq(
            capsule.spec_v(),
            mulq(delegating_sk@, invq(dd_g)),
        ));
        lemma_reconstruct_single(
            cfs,
            receiving_sk@,
            capsule.spec_e(),
            capsule.spec_v(),
            delegating_sk@,
        );
        assert(!cfrags_mismatched(cfs)) by {
            assert(forall|i: int|
                0 <= i < cfs.len() ==> (#[trigger] cfs[i].spec_precursor())
                    == cfs[0].spec_precursor());
        }
        assert(!has_repeats(spec_share_indices(cfs, receiving_sk@))) by {
            assert(spec_share_indices(cfs, receiving_sk@).len() == 1);
        }
        assert(spec_reconstructed_secret(cfs, receiving_sk@) == mulq(
            delegating_sk@,
            addq(capsule.spec_e(), capsule.spec_v()),
        ));
    }
    match decrypt_reencrypted(receiving_sk, &delegating_pk, &capsule, &cfrags, &ciphertext) {
        Ok(p) => Some(p),
        Err(_) => {
            proof {
                assert(false);
            }
            None
        },
    }
}

/// Law: the two-of-two delegation path returns the plaintext, end to end.
///
/// Encrypt to the delegator, split into two key fragments over a random
/// linear polynomial, re-encrypt both, and open with the receiver's key:
/// the result is proven to be exactly the plaintext. Every decryption-side
/// failure arm is verified unreachable; `None` can come only from the
/// statistically unreachable degeneracies of the random draws, including
/// the two share indices colliding.
pub fn two_share_roundtrip(
    params: &Parameters,
    delegating_sk: &SecretKey,
    receiving_sk: &SecretKey,
    signer: &Signer,
    plaintext: &[u8],
) -> (r: Option<Vec<u8>>)
    requires
        plaintext@.len() <= PLAINTEXT_MAX,
    ensures
        r matches Some(p) ==> p@ == plaintext@,
{
    let delegating_pk = PublicKey::from_secret_key(delegating_sk);
    let receiving_pk = PublicKey::from_secret_key(receiving_sk);
    let delegating_point = delegating_pk.point();
    let receiving_point = receiving_pk.point();
    proof {
        assert(delegating_point@ == delegating_sk@);
        assert(receiving_point@ == receiving_sk@);
    }
    let (capsule, ciphertext) = match encrypt(&delegating_pk, plaintext) {
        Ok(pair) => pair,
        Err(_) => {
            return None;
        },
    };
    let capsule_e = capsule.e_point();
    let capsule_v = capsule.v_point();
    proof {
        assert(0 < capsule_e@ < group_order());
        assert(0 < capsule_v@ < group_order());
    }
    let frags = match generate_kfrags(
        params,
        delegating_sk,
        &receiving_pk,
        signer,
        2,
        2,
        true,
        true,
    ) {
        Some(frags) => frags,
        None => {
            return None;
        },
    };
    let ghost cs = choose|cs: Seq<nat>|
        cs.len() == 2 && #[trigger] generated_kfrags_match(
            frags@,
            cs,
            params@,
            delegating_sk@,
            receiving_pk@,
            signer@,
            true,
            true,
        );
    proof {
        assert(kfrag_matches(
            frags@[0].spec_kfrag(),
            cs,
            params@,
            delegating_sk@,
            receiving_pk@,
            signer@,
            true,
            true,
        ));
        assert(kfrag_matches(
            frags@[1].spec_kfrag(),
            cs,
            params@,
            delegating_sk@,
            receiving_pk@,
            signer@,
            true,
            true,
        ));
        assert(frags@[1].spec_kfrag().spec_precursor() == frags@[0].spec_kfrag().spec_precursor());
    }
    let vcfrag0 = match reencrypt(params, &capsule, &frags[0], None) {
        Ok(vc) => vc,
        Err(ReencryptionError::CapsuleVerificationFailed) => {
            proof {
                assert(false);
            }
            return None;
        },
        Err(ReencryptionError::DegeneratePoint) => {
            return None;
        },
    };
    let vcfrag1 = match reencrypt(params, &capsule, &frags[1], None) {
        Ok(vc) => vc,
        Err(ReencryptionError::CapsuleVerificationFailed) => {
            proof {
                assert(false);
            }
            return None;
        },
        Err(ReencryptionError::DegeneratePoint) => {
            return None;
        },
    };
    let mut cfrags: Vec<VerifiedCapsuleFrag> = Vec::new();
    cfrags.push(vcfrag0);
    cfrags.push(vcfrag1);
    let ghost cfs = cfrags@.map_values(|c: VerifiedCapsuleFrag| c.spec_cfrag());
    let ghost xs_d = cfs[0].spec_precursor();
    let ghost dh_g = mulq(receiving_pk@, xs_d);
    let ghost dd_g = spec_hash_to_shared_secret(xs_d, receiving_pk@, dh_g);
    proof {
        assert(cfs.len() == 2);
        assert(cfs[0] == cfrags@[0].spec_cfrag());
        assert(cfs[1] == cfrags@[1].spec_cfrag());
        assert(xs_d == frags@[0].spec_kfrag().spec_precursor());
        assert(cfs[1].spec_precursor() == xs_d);
        crate::arith::lemma_mulq_comm(receiving_pk@, xs_d);
    }
    // Recompute the delegation hash and the two share indices on the
    // receiver's side, witnessing the inverses the reconstruction law needs.
    let precursor_pt = *cfrags[0].cfrag_ref().precursor_point();
    let dh_pt = precursor_pt.mul(receiving_sk.scalar());
    proof {
        assert(dh_pt@ == dh_g);
    }
    let dd_scalar = hash_to_shared_secret(&precursor_pt, receiving_pk.point(), &dh_pt);
    proof {
        assert(dd_scalar@ == dd_g);
    }
    match dd_scalar.invert() {
        Some(inv) => {
            proof {
                crate::arith::lemma_invq_is(dd_g, inv@);
            }
        },
        None => {
            proof {
                assert(false);
            }
            return None;
        },
    }
    let x0 = crate::hashing_ds::hash_to_polynomial_arg(
        &precursor_pt,
        receiving_pk.point(),
        &dh_pt,
        cfrags[0].cfrag_ref().id_ref(),
    );
    let x1 = crate::hashing_ds::hash_to_polynomial_arg(
        &precursor_pt,
        receiving_pk.point(),
        &dh_pt,
        cfrags[1].cfrag_ref().id_ref(),
    );
    let ghost xv = spec_share_indices(cfs, receiving_sk@);
    proof {
        assert(xv.len() == 2);
        assert(x0@ == xv[0]);
        assert(x1@ == xv[1]);
    }
    if x0.equals(&x1) {
        return None;
    }
    proof {
        crate::arith::lemma_subq_nonzero(x1@, x0@);
        crate::arith::lemma_subq_nonzero(x0@, x1@);
    }
    match x1.sub(&x0).invert() {
        Some(inv) => {
            proof {
                crate::arith::lemma_invq_is(crate::arith::subq(xv[1], xv[0]), inv@);
            }
        },
        None => {
            proof {
                assert(false);
            }
            return None;
        },
    }
    match x0.sub(&x1).invert() {
        Some(inv) => {
            proof {
                crate::arith::lemma_invq_is(crate::arith::subq(xv[0], xv[1]), inv@);
            }
        },
        None => {
            proof {
                assert(false);
            }
            return None;
        },
    }
    proof {
        let c0 = mulq(delegating_sk@, invq(dd_g));
        assert(cs[0] == c0);
        crate::key_frag::lemma_poly_eval_two(cs, xv[0]);
        crate::key_frag::lemma_poly_eval_two(cs, xv[1]);
        assert(frags@[0].spec_kfrag().spec_key() == crate::key_frag::spec_poly_eval(cs, xv[0]));
        assert(frags@[1].spec_kfrag().spec_key() == crate::key_frag::spec_poly_eval(cs, xv[1]));
        assert(cfs[0].spec_e1() == mulq(capsule.spec_e(), addq(c0, mulq(xv[0], cs[1]))));
        assert(cfs[0].spec_v1() == mulq(capsule.spec_v(), addq(c0, mulq(xv[0], cs[1]))));
        assert(cfs[1].spec_e1() == mulq(capsule.spec_e(), addq(c0, mulq(xv[1], cs[1]))));
        assert(cfs[1].spec_v1() == mulq(capsule.spec_v(), addq(c0, mulq(xv[1], cs[1]))));
        crate::capsule::lemma_reconstruct_two(
            cfs,
            receiving_sk@,
            capsule.spec_e(),
            capsule.spec_v(),
            delegating_sk@,
            cs[1],
        );
        assert(!cfrags_mismatched(cfs)) by {
            assert(forall|i: int|
                0 <= i < cfs.len() ==> (#[trigger] cfs[i].spec_precursor())
                    == cfs[0].spec_precursor());
        }
        assert(!has_repeats(xv)) by {
            if has_repeats(xv) {
                let (a, b) = choose|a: int, b: int| 0 <= a < b < xv.len() && xv[a] == xv[b];
                assert(xv[0] == xv[1]);
                assert(false);
            }
        }
        assert(spec_reconstructed_secret(cfs, receiving_sk@) == mulq(
            delegating_sk@,
            addq(capsule.spec_e(), capsule.spec_v()),
        ));
    }
    match decrypt_reencrypted(receiving_sk, &delegating_pk, &capsule, &cfrags, &ciphertext) {
        Ok(p) => Some(p),
        Err(_) => {
            proof {
                assert(false);
            }
            None
        },
    }
}

/// Law: two capsule fragments carrying one fragment identifier are
/// rejected as `RepeatingFragments`, end to end.
///
/// Re-encrypting under the same key fragment twice gives two fragments
/// with equal identifiers, hence equal share indices; decryption is proven
/// to return exactly that error rather than divide by the zero difference.
/// `None` can come only from the statistically unreachable degeneracies of
/// the random draws.
pub fn duplicate_share_rejected(
    params: &Parameters,
    delegating_sk: &SecretKey,
    receiving_sk: &SecretKey,
    signer: &Signer,
    plaintext: &[u8],
) -> (r: Option<OpenReencryptedError>)
    requires
        plaintext@.len() <= PLAINTEXT_MAX,
    ensures
        r matches Some(e) ==> e == OpenReencryptedError::RepeatingFragments,
{
    let delegating_pk = PublicKey::from_secret_key(delegating_sk);
    let receiving_pk = PublicKey::from_secret_key(receiving_sk);
    let (capsule, ciphertext) = match encrypt(&delegating_pk, plaintext) {
        Ok(pair) => pair,
        Err(_) => {
            return None;
        },
    };
    let frags = match generate_kfrags(
        params,
        delegating_sk,
        &receiving_pk,
        signer,
        1,
        1,
        true,
        true,
    ) {
        Some(frags) => frags,
        None => {
            return None;
        },
    };
    let ghost cs = choose|cs: Seq<nat>|
        cs.len() == 1 && #[trigger] generated_kfrags_match(
            frags@,
            cs,
            params@,
            delegating_sk@,
            receiving_pk@,
            signer@,
            true,
            true,
        );
    proof {
        assert(kfrag_matches(
            frags@[0].spec_kfrag(),
            cs,
            params@,
            delegating_sk@,
            receiving_pk@,
            signer@,
            true,
            true,
        ));
    }
    let vcfrag0 = match reencrypt(params, &capsule, &frags[0], None) {
        Ok(vc) => vc,
        Err(ReencryptionError::CapsuleVerificationFailed) => {
            proof {
                assert(false);
            }
            return None;
        },
        Err(ReencryptionError::DegeneratePoint) => {
            return None;
        },
    };
    let vcfrag1 = match reencrypt(params, &capsule, &frags[0], None) {
        Ok(vc) => vc,
        Err(ReencryptionError::CapsuleVerificationFailed) => {
            proof {
                assert(false);
            }
            return None;
        },
        Err(ReencryptionError::DegeneratePoint) => {
            return None;
        },
    };
    let mut cfrags: Vec<VerifiedCapsuleFrag> = Vec::new();
    cfrags.push(vcfrag0);
    cfrags.push(vcfrag1);
    let ghost cfs = cfrags@.map_values(|c: VerifiedCapsuleFrag| c.spec_cfrag());
    let ghost xs_d = cfs[0].spec_precursor();
    let ghost xv = spec_share_indices(cfs, receiving_sk@);
    proof {
        assert(cfs.len() == 2);
        assert(cfs[0] == cfrags@[0].spec_cfrag());
        assert(cfs[1] == cfrags@[1].spec_cfrag());
        assert(cfs[0].spec_id() == frags@[0].spec_kfrag().spec_id());
        assert(cfs[1].spec_id() == frags@[0].spec_kfrag().spec_id());
        assert(cfs[1].spec_precursor() == xs_d);
        crate::arith::lemma_mulq_comm(receiving_pk@, xs_d);
        assert(mulq(xs_d, receiving_sk@) != 0);
        assert(xv.len() == 2);
        assert(xv[0] == xv[1]);
        assert(has_repeats(xv));
        assert(!cfrags_mismatched(cfs)) by {
            assert(forall|i: int|
                0 <= i < cfs.len() ==> (#[trigger] cfs[i].spec_precursor())
                    == cfs[0].spec_precursor());
        }
    }
    match decrypt_reencrypted(receiving_sk, &delegating_pk, &capsule, &cfrags, &ciphertext) {
        Err(ReencryptedDecryptionError::Opening(e)) => {
            proof {
                assert(e == OpenReencryptedError::RepeatingFragments);
            }
            Some(e)
        },
        Ok(_) => {
            proof {
                assert(false);
            }
            None
        },
        Err(ReencryptedDecryptionError::Decryption(_)) => {
            proof {
                assert(false);
            }
            None
        },
    }
}

/// Law: decrypting an encryption under the matching secret key returns the
/// plaintext.
///
/// The decryption arm is verified unreachable as an error: whenever the
/// encryption itself succeeded (it fails only on a statistically
/// unreachable degeneracy), the decryption is proven to return exactly the
/// plaintext that was encrypted.
pub fn original_roundtrip(delegating_sk: &SecretKey, plaintext: &[u8]) -> (r: Option<Vec<u8>>)
    requires
        plaintext@.len() <= PLAINTEXT_MAX,
    ensures
        r matches Some(p) ==> p@ == plaintext@,
{
    let delegating_pk = PublicKey::from_secret_key(delegating_sk);
    let (capsule, ciphertext) = match encrypt(&delegating_pk, plaintext) {
        Ok(pair) => pair,
        Err(_) => {
            return None;
        },
    };
    proof {
        crate::arith::lemma_mulq_comm(
            delegating_sk@,
            addq(capsule.spec_e(), capsule.spec_v()),
        );
    }
    match decrypt_original(delegating_sk, &capsule, ciphertext.as_slice()) {
        Ok(p) => Some(p),
        Err(_) => {
            proof {
                assert(false);
            }
            None
        },
    }
}

} // verus!
