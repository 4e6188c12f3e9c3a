//! The capsule: the public key-encapsulation header `(E, V, s)`.

use crate::arith::{addq, group_order, invq, mulq, subq};
use crate::capsule_frag::{CapsuleFrag, VerifiedCapsuleFrag};
use crate::curve::{point_decoding, point_encoding, CurvePoint, CurveScalar};
use crate::encoding::{append_bytes, be_value, take_bytes, DeserializationError};
use crate::hashing_ds::{
    hash_capsule_points, hash_to_polynomial_arg, hash_to_shared_secret, spec_hash_capsule_points,
    spec_hash_to_polynomial_arg, spec_hash_to_shared_secret,
};
use crate::keys::{PublicKey, SecretKey};
use vstd::prelude::*;

verus! {

/// Opening a capsule from capsule fragments failed.
#[derive(Clone, Copy, Debug, PartialEq, Eq, Structural)]
pub enum OpenReencryptedError {
    /// No capsule fragments were given.
    NoCapsuleFrags,
    /// The fragments do not all share one precursor.
    MismatchedFragments,
    /// Two fragments map to the same share index.
    RepeatingFragments,
    /// A reconstructed point degenerated to the identity.
    ValidationFailed,
}

/// The capsule correctness equation: `s == v + e * H(E, V)` in the exponent.
pub open spec fn capsule_correct(e: nat, v: nat, s: nat) -> bool {
    s == addq(v, mulq(e, spec_hash_capsule_points(e, v)))
}

/// The key-encapsulation header.
pub struct Capsule {
    point_e: CurvePoint,
    point_v: CurvePoint,
    signature: CurveScalar,
}

impl Capsule {
    #[verifier::type_invariant]
    spec fn type_inv(&self) -> bool {
        &&& 0 < self.point_e@ < group_order()
        &&& 0 < self.point_v@ < group_order()
        &&& self.signature@ < group_order()
    }

    /// The discrete logarithm of `E`.
    pub closed spec fn spec_e(&self) -> nat {
        self.point_e@
    }

    /// The discrete logarithm of `V`.
    pub closed spec fn spec_v(&self) -> nat {
        self.point_v@
    }

    /// The scalar `s`.
    pub closed spec fn spec_s(&self) -> nat {
        self.signature@
    }

    pub(crate) fn e_point(&self) -> (r: &CurvePoint)
        ensures
            r@ == self.spec_e(),
            0 < self.spec_e() < group_order(),
    {
        proof {
            use_type_invariant(&*self);
        }
        &self.point_e
    }

    pub(crate) fn v_point(&self) -> (r: &CurvePoint)
        ensures
            r@ == self.spec_v(),
            0 < self.spec_v() < group_order(),
    {
        proof {
            use_type_invariant(&*self);
        }
        &self.point_v
    }

    /// The KEM step: samples the two ephemerals, builds the header, and
    /// hands back the shared-secret encoding that keys the DEM.
    ///
    /// Fails only on statistically unreachable degeneracies (the ephemeral
    /// sum or the shared point degenerating).
    pub fn from_public_key(delegating_pk: &PublicKey) -> (r: Option<(Capsule, Vec<u8>)>)
        ensures
            r matches Some(pair) ==> {
                &&& capsule_correct(pair.0.spec_e(), pair.0.spec_v(), pair.0.spec_s())
                &&& 0 < pair.0.spec_e() < group_order()
                &&& 0 < pair.0.spec_v() < group_order()
                &&& mulq(delegating_pk@, addq(pair.0.spec_e(), pair.0.spec_v())) != 0
                &&& pair.1@ == point_encoding(
                    mulq(delegating_pk@, addq(pair.0.spec_e(), pair.0.spec_v())),
                )
            },
    {
        let r_scalar = CurveScalar::random_nonzero();
        let u_scalar = CurveScalar::random_nonzero();
        let point_e = CurvePoint::generator().mul(&r_scalar);
        let point_v = CurvePoint::generator().mul(&u_scalar);
        proof {
            crate::arith::lemma_mulq_one(r_scalar@);
            crate::arith::lemma_mulq_one(u_scalar@);
            crate::arith::lemma_mod_small(r_scalar@);
            crate::arith::lemma_mod_small(u_scalar@);
        }
        let h = hash_capsule_points(&point_e, &point_v);
        let signature = u_scalar.add(&r_scalar.mul(&h));
        let sum = r_scalar.add(&u_scalar);
        let shared = delegating_pk.point().mul(&sum);
        if shared.is_identity() {
            return None;
        }
        let key_seed = shared.to_bytes();
        proof {
            crate::arith::lemma_addq_bound(u_scalar@, mulq(r_scalar@, h@));
            crate::arith::lemma_mulq_mod_noop(delegating_pk@, r_scalar@ + u_scalar@);
        }
        Some((Capsule { point_e, point_v, signature }, key_seed))
    }

    /// Checks the correctness equation `G * s == V + E * H(E, V)`.
    pub fn verify(&self) -> (r: bool)
        ensures
            r == capsule_correct(self.spec_e(), self.spec_v(), self.spec_s()),
    {
        proof {
            use_type_invariant(&*self);
        }
        let h = hash_capsule_points(&self.point_e, &self.point_v);
        let lhs = CurvePoint::generator().mul(&self.signature);
        let rhs = self.point_v.add(&self.point_e.mul(&h));
        proof {
            crate::arith::lemma_mulq_one(self.signature@);
            crate::arith::lemma_mod_small(self.signature@);
            crate::arith::lemma_addq_bound(self.spec_v(), mulq(self.spec_e(), h@));
        }
        lhs.equals(&rhs)
    }

    /// The original owner's opening: the shared-secret encoding from
    /// `(E + V) * sk`; fails only where the shared point degenerates.
    pub(crate) fn open_original_seed(&self, delegating_sk: &SecretKey) -> (r: Option<Vec<u8>>)
        ensures
            r is Some <==> mulq(addq(self.spec_e(), self.spec_v()), delegating_sk@) != 0,
            r matches Some(seed) ==> seed@ == point_encoding(
                mulq(addq(self.spec_e(), self.spec_v()), delegating_sk@),
            ),
    {
        proof {
            use_type_invariant(&*self);
        }
        let sum = self.point_e.add(&self.point_v);
        let shared = sum.mul(delegating_sk.scalar());
        proof {
            crate::arith::lemma_mulq_mod_noop(
                (self.spec_e() + self.spec_v()),
                delegating_sk@,
            );
        }
        if shared.is_identity() {
            return None;
        }
        Some(shared.to_bytes())
    }

    /// The 98-byte wire form `E || V || s`.
    pub fn to_bytes(&self) -> (r: Vec<u8>)
        ensures
            r@.len() == 98,
            r@[0] == 2 || r@[0] == 3,
            r@.subrange(0, 33) == point_encoding(self.spec_e()),
            point_decoding(r@.subrange(0, 33)) == Some(self.spec_e()),
            r@[33] == 2 || r@[33] == 3,
            r@.subrange(33, 66) == point_encoding(self.spec_v()),
            point_decoding(r@.subrange(33, 66)) == Some(self.spec_v()),
            be_value(r@.subrange(66, 98)) == self.spec_s(),
    {
        proof {
            use_type_invariant(&*self);
        }
        let mut out: Vec<u8> = Vec::new();
        let e_bytes = self.point_e.to_bytes();
        append_bytes(&mut out, e_bytes.as_slice());
        let v_bytes = self.point_v.to_bytes();
        append_bytes(&mut out, v_bytes.as_slice());
        let s_bytes = self.signature.to_bytes();
        append_bytes(&mut out, s_bytes.as_slice());
        proof {
            assert(out@.subrange(0, 33) =~= e_bytes@);
            assert(out@.subrange(33, 66) =~= v_bytes@);
            assert(out@.subrange(66, 98) =~= s_bytes@);
        }
        out
    }

    /// Accepts exactly 98 bytes whose points decode and whose scalar is
    /// below the order.
    pub fn from_bytes(bytes: &[u8]) -> (r: Result<Self, DeserializationError>)
        ensures
            r is Ok <==> {
                &&& bytes@.len() == 98
                &&& (bytes@[0] == 2 || bytes@[0] == 3)
                &&& point_decoding(bytes@.subrange(0, 33)) is Some
                &&& (bytes@[33] == 2 || bytes@[33] == 3)
                &&& point_decoding(bytes@.subrange(33, 66)) is Some
                &&& be_value(bytes@.subrange(66, 98)) < group_order()
            },
            r matches Ok(c) ==> {
                &&& point_decoding(bytes@.subrange(0, 33)) == Some(c.spec_e())
                &&& point_decoding(bytes@.subrange(33, 66)) == Some(c.spec_v())
                &&& c.spec_s() == be_value(bytes@.subrange(66, 98))
            },
    {
        if bytes.len() != 98 {
            return Err(DeserializationError::ConstructionFailure);
        }
        let e_bytes = take_bytes(bytes, 0, 33);
        let point_e = match CurvePoint::from_bytes(e_bytes.as_slice()) {
            Some(p) => p,
            None => {
                return Err(DeserializationError::ConstructionFailure);
            },
        };
        let v_bytes = take_bytes(bytes, 33, 66);
        let point_v = match CurvePoint::from_bytes(v_bytes.as_slice()) {
            Some(p) => p,
            None => {
                return Err(DeserializationError::ConstructionFailure);
            },
        };
        let s_bytes = take_bytes(bytes, 66, 98);
        let signature = match CurveScalar::from_bytes(s_bytes.as_slice()) {
            Some(s) => s,
            None => {
                return Err(DeserializationError::ConstructionFailure);
            },
        };
        Ok(Capsule { point_e, point_v, signature })
    }
}

/// Whether the fragments disagree on the delegation precursor.
pub open spec fn cfrags_mismatched(cfs: Seq<CapsuleFrag>) -> bool {
    exists|i: int|
        0 <= i < cfs.len() && (#[trigger] cfs[i].spec_precursor()) != cfs[0].spec_precursor()
}

/// The share index of one fragment, for the receiver with the given secret.
pub open spec fn spec_share_index(precursor: nat, receiving_sk: nat, id: Seq<u8>) -> nat {
    spec_hash_to_polynomial_arg(precursor, receiving_sk, mulq(precursor, receiving_sk), id)
}

/// The share indices of all fragments.
pub open spec fn spec_share_indices(cfs: Seq<CapsuleFrag>, receiving_sk: nat) -> Seq<nat> {
    cfs.map_values(
        |cf: CapsuleFrag| spec_share_index(cfs[0].spec_precursor(), receiving_sk, cf.spec_id()),
    )
}

/// Whether two share indices coincide.
pub open spec fn has_repeats(xs: Seq<nat>) -> bool {
    exists|i: int, j: int| 0 <= i < j < xs.len() && xs[i] == xs[j]
}

/// The Lagrange coefficient at zero for index `i`, over the indices `[0, k)`
/// other than `i`: the product of `x_j * (x_j - x_i)^-1`.
pub open spec fn spec_lambda_partial(xs: Seq<nat>, i: int, k: int) -> nat
    decreases k,
{
    if k <= 0 {
        1
    } else if k - 1 == i {
        spec_lambda_partial(xs, i, k - 1)
    } else {
        mulq(
            spec_lambda_partial(xs, i, k - 1),
            mulq(xs[k - 1], invq(subq(xs[k - 1], xs[i]))),
        )
    }
}

/// The Lagrange coefficient at zero for index `i`.
pub open spec fn spec_lambda(xs: Seq<nat>, i: int) -> nat {
    spec_lambda_partial(xs, i, xs.len() as int)
}

/// The exponent of the Lagrange-combined sum of the first `k` points, each
/// weighted by its coefficient.
pub open spec fn spec_lagrange_sum(xs: Seq<nat>, pts: Seq<nat>, k: int) -> nat
    decreases k,
{
    if k <= 0 {
        0
    } else {
        addq(spec_lagrange_sum(xs, pts, k - 1), mulq(pts[k - 1], spec_lambda(xs, k - 1)))
    }
}

/// The exponent of the shared point the receiver reconstructs from the
/// fragments.
pub open spec fn spec_reconstructed_secret(cfs: Seq<CapsuleFrag>, receiving_sk: nat) -> nat {
    let xs = spec_share_indices(cfs, receiving_sk);
    let e_sum = spec_lagrange_sum(
        xs,
        cfs.map_values(|cf: CapsuleFrag| cf.spec_e1()),
        cfs.len() as int,
    );
    let v_sum = spec_lagrange_sum(
        xs,
        cfs.map_values(|cf: CapsuleFrag| cf.spec_v1()),
        cfs.len() as int,
    );
    mulq(
        addq(e_sum, v_sum),
        spec_hash_to_shared_secret(
            cfs[0].spec_precursor(),
            receiving_sk,
            mulq(cfs[0].spec_precursor(), receiving_sk),
        ),
    )
}

/// The Lagrange coefficient for index `i` over distinct reduced indices.
fn lambda_coefficient(xs: &Vec<CurveScalar>, i: usize) -> (r: CurveScalar)
    requires
        i < xs@.len(),
        forall|a: int| 0 <= a < xs@.len() ==> (#[trigger] xs@[a]@) < group_order(),
        forall|a: int, b: int| 0 <= a < b < xs@.len() ==> xs@[a]@ != xs@[b]@,
    ensures
        r@ == spec_lambda(xs@.map_values(|x: CurveScalar| x@), i as int),
{
    let ghost xv = xs@.map_values(|x: CurveScalar| x@);
    let mut acc = CurveScalar::one();
    let n = xs.len();
    for j in 0..n
        invariant
            n == xs@.len(),
            i < n,
            xv == xs@.map_values(|x: CurveScalar| x@),
            forall|a: int| 0 <= a < xs@.len() ==> (#[trigger] xs@[a]@) < group_order(),
            forall|a: int, b: int| 0 <= a < b < xs@.len() ==> xs@[a]@ != xs@[b]@,
            acc@ == spec_lambda_partial(xv, i as int, j as int),
    {
        if j != i {
            let diff = xs[j].sub(&xs[i]);
            proof {
                crate::arith::lemma_subq_nonzero(xv[j as int], xv[i as int]);
            }
            match diff.invert() {
                Some(inv) => {
                    proof {
                        crate::arith::lemma_invq_is(diff@, inv@);
                    }
                    acc = acc.mul(&xs[j].mul(&inv));
                },
                None => {
                    proof {
                        assert(false);
                    }
                },
            }
        }
    }
    acc
}

impl Capsule {
    /// The receiver's opening: combines the fragments by Lagrange
    /// interpolation at zero and returns the shared-secret encoding.
    ///
    /// Rejects an empty list, fragments with differing precursors, and
    /// repeated share indices; `ValidationFailed` marks the statistically
    /// unreachable degeneracies.
    #[verifier::loop_isolation(false)]
    pub fn open_reencrypted(
        &self,
        receiving_sk: &SecretKey,
        cfrags: &Vec<VerifiedCapsuleFrag>,
    ) -> (r: Result<Vec<u8>, OpenReencryptedError>)
        ensures
            ({
                let cfs = cfrags@.map_values(|c: VerifiedCapsuleFrag| c.spec_cfrag());
                let dh = mulq(cfs[0].spec_precursor(), receiving_sk@);
                let ss = spec_reconstructed_secret(cfs, receiving_sk@);
                &&& (r == Err::<Vec<u8>, OpenReencryptedError>(
                    OpenReencryptedError::NoCapsuleFrags,
                ) <==> cfs.len() == 0)
                &&& (cfs.len() > 0 ==> (r == Err::<Vec<u8>, OpenReencryptedError>(
                    OpenReencryptedError::MismatchedFragments,
                ) <==> cfrags_mismatched(cfs)))
                &&& (cfs.len() > 0 && !cfrags_mismatched(cfs) && dh == 0 ==> r == Err::<
                    Vec<u8>,
                    OpenReencryptedError,
                >(OpenReencryptedError::ValidationFailed))
                &&& (cfs.len() > 0 && !cfrags_mismatched(cfs) && dh != 0 ==> (r == Err::<
                    Vec<u8>,
                    OpenReencryptedError,
                >(OpenReencryptedError::RepeatingFragments) <==> has_repeats(
                    spec_share_indices(cfs, receiving_sk@),
                )))
                &&& (cfs.len() > 0 && !cfrags_mismatched(cfs) && dh != 0 && !has_repeats(
                    spec_share_indices(cfs, receiving_sk@),
                ) ==> {
                    &&& (r is Ok <==> ss != 0)
                    &&& (r matches Ok(seed) ==> seed@ == point_encoding(ss))
                })
            }),
    {
        let ghost cfs = cfrags@.map_values(|c: VerifiedCapsuleFrag| c.spec_cfrag());
        let n = cfrags.len();
        if n == 0 {
            return Err(OpenReencryptedError::NoCapsuleFrags);
        }
        let precursor = *cfrags[0].cfrag_ref().precursor_point();
        for i in 1..n
            invariant
                n == cfrags@.len(),
                n > 0,
                cfs == cfrags@.map_values(|c: VerifiedCapsuleFrag| c.spec_cfrag()),
                precursor@ == cfs[0].spec_precursor(),
                0 < precursor@ < group_order(),
                forall|k: int|
                    0 <= k < i ==> (#[trigger] cfs[k].spec_precursor()) == cfs[0].spec_precursor(),
        {
            if !cfrags[i].cfrag_ref().precursor_point().equals(&precursor) {
                proof {
                    assert(cfs[i as int].spec_precursor() != cfs[0].spec_precursor());
                    assert(cfrags_mismatched(cfs));
                }
                return Err(OpenReencryptedError::MismatchedFragments);
            }
        }
        proof {
            assert(!cfrags_mismatched(cfs));
        }
        let bob_pk = PublicKey::from_secret_key(receiving_sk);
        let dh = precursor.mul(receiving_sk.scalar());
        if dh.is_identity() {
            return Err(OpenReencryptedError::ValidationFailed);
        }
        let d = hash_to_shared_secret(&precursor, bob_pk.point(), &dh);
        let ghost xv = spec_share_indices(cfs, receiving_sk@);
        let mut xs: Vec<CurveScalar> = Vec::new();
        for i in 0..n
            invariant
                n == cfrags@.len(),
                n > 0,
                cfs == cfrags@.map_values(|c: VerifiedCapsuleFrag| c.spec_cfrag()),
                xv == spec_share_indices(cfs, receiving_sk@),
                precursor@ == cfs[0].spec_precursor(),
                0 < precursor@ < group_order(),
                dh@ == mulq(cfs[0].spec_precursor(), receiving_sk@),
                dh@ != 0,
                bob_pk@ == receiving_sk@,
                d@ == spec_hash_to_shared_secret(
                    cfs[0].spec_precursor(),
                    receiving_sk@,
                    mulq(cfs[0].spec_precursor(), receiving_sk@),
                ),
                xs@.len() == i,
                forall|k: int| 0 <= k < i ==> (#[trigger] xs@[k]@) == xv[k],
                forall|k: int| 0 <= k < i ==> (#[trigger] xs@[k]@) < group_order(),
        {
            let x = hash_to_polynomial_arg(
                &precursor,
                bob_pk.point(),
                &dh,
                cfrags[i].cfrag_ref().id_ref(),
            );
            xs.push(x);
        }
        for i in 0..n
            invariant
                n == cfrags@.len(),
                n == xs@.len(),
                cfs == cfrags@.map_values(|c: VerifiedCapsuleFrag| c.spec_cfrag()),
                xv == spec_share_indices(cfs, receiving_sk@),
                forall|k: int| 0 <= k < n ==> (#[trigger] xs@[k]@) == xv[k],
                forall|a: int, b: int| 0 <= a < b < n && a < i ==> xs@[a]@ != xs@[b]@,
        {
            let mut j = i + 1;
            while j < n
                invariant
                    n == cfrags@.len(),
                    n == xs@.len(),
                    i < j <= n,
                    forall|k: int| 0 <= k < n ==> (#[trigger] xs@[k]@) == xv[k],
                    forall|a: int, b: int| 0 <= a < b < n && a < i ==> xs@[a]@ != xs@[b]@,
                    forall|b: int| i < b < j ==> xs@[i as int]@ != xs@[b]@,
                decreases n - j,
            {
                if xs[i].equals(&xs[j]) {
                    proof {
                        assert(xv.len() == n);
                        assert(xs@[i as int]@ == xv[i as int]);
                        assert(xs@[j as int]@ == xv[j as int]);
                        assert(xv[i as int] == xv[j as int]);
                        assert(has_repeats(xv));
                    }
                    return Err(OpenReencryptedError::RepeatingFragments);
                }
                j = j + 1;
            }
        }
        proof {
            assert(xv.len() == n);
            assert(!has_repeats(xv)) by {
                if has_repeats(xv) {
                    let (a, b) = choose|a: int, b: int|
                        0 <= a < b < xv.len() && xv[a] == xv[b];
                    assert(xs@[a]@ == xv[a] && xs@[b]@ == xv[b]);
                    assert(false);
                }
            }
        }
        let ghost e1v = cfs.map_values(|cf: CapsuleFrag| cf.spec_e1());
        let ghost v1v = cfs.map_values(|cf: CapsuleFrag| cf.spec_v1());
        let mut e_sum = CurvePoint::identity();
        let mut v_sum = CurvePoint::identity();
        for i in 0..n
            invariant
                n == cfrags@.len(),
                n == xs@.len(),
                cfs == cfrags@.map_values(|c: VerifiedCapsuleFrag| c.spec_cfrag()),
                xv == spec_share_indices(cfs, receiving_sk@),
                e1v == cfs.map_values(|cf: CapsuleFrag| cf.spec_e1()),
                v1v == cfs.map_values(|cf: CapsuleFrag| cf.spec_v1()),
                forall|k: int| 0 <= k < n ==> (#[trigger] xs@[k]@) == xv[k],
                forall|k: int| 0 <= k < n ==> (#[trigger] xs@[k]@) < group_order(),
                forall|a: int, b: int| 0 <= a < b < n ==> xs@[a]@ != xs@[b]@,
                e_sum@ == spec_lagrange_sum(xv, e1v, i as int),
                v_sum@ == spec_lagrange_sum(xv, v1v, i as int),
        {
            let lam = lambda_coefficient(&xs, i);
            proof {
                assert(xs@.map_values(|x: CurveScalar| x@) =~= xv);
            }
            e_sum = e_sum.add(&cfrags[i].cfrag_ref().e1_point().mul(&lam));
            v_sum = v_sum.add(&cfrags[i].cfrag_ref().v1_point().mul(&lam));
        }
        let shared = e_sum.add(&v_sum).mul(&d);
        proof {
            assert(shared@ == spec_reconstructed_secret(cfs, receiving_sk@));
        }
        if shared.is_identity() {
            return Err(OpenReencryptedError::ValidationFailed);
        }
        Ok(shared.to_bytes())
    }

    /// Law: deserializing a serialized capsule succeeds and returns an
    /// equal capsule.
    pub fn serialization_roundtrip(&self) -> (r: Result<Capsule, DeserializationError>)
        ensures
            r is Ok,
            r matches Ok(c) ==> c.spec_e() == self.spec_e() && c.spec_v() == self.spec_v()
                && c.spec_s() == self.spec_s(),
    {
        proof {
            use_type_invariant(&*self);
        }
        let bytes = self.to_bytes();
        Capsule::from_bytes(bytes.as_slice())
    }
}

/// Law: the Lagrange coefficient of a single share is one.
pub proof fn lemma_lambda_single(xs: Seq<nat>)
    requires
        xs.len() == 1,
    ensures
        spec_lambda(xs, 0) == 1,
{
    assert(spec_lambda_partial(xs, 0, 0) == 1);
    assert(spec_lambda_partial(xs, 0, 1) == spec_lambda_partial(xs, 0, 0));
}

/// Law: with a single fragment, the receiver reconstructs exactly the
/// shared secret the encryption derived, `alice_sk * (e + v)` in the
/// exponent: the share is the whole delegation scalar, its Lagrange
/// coefficient is one, and the delegation hash cancels against its inverse.
pub proof fn lemma_reconstruct_single(
    cfs: Seq<CapsuleFrag>,
    receiving_sk: nat,
    e: nat,
    v: nat,
    delegating_sk: nat,
)
    requires
        cfs.len() == 1,
        e < group_order(),
        v < group_order(),
        delegating_sk < group_order(),
        ({
            let dd = spec_hash_to_shared_secret(
                cfs[0].spec_precursor(),
                receiving_sk,
                mulq(cfs[0].spec_precursor(), receiving_sk),
            );
            let rk = mulq(delegating_sk, invq(dd));
            &&& mulq(dd, invq(dd)) == 1
            &&& cfs[0].spec_e1() == mulq(e, rk)
            &&& cfs[0].spec_v1() == mulq(v, rk)
        }),
    ensures
        spec_reconstructed_secret(cfs, receiving_sk) == mulq(delegating_sk, addq(e, v)),
{
    let dd = spec_hash_to_shared_secret(
        cfs[0].spec_precursor(),
        receiving_sk,
        mulq(cfs[0].spec_precursor(), receiving_sk),
    );
    let rk = mulq(delegating_sk, invq(dd));
    let xs = spec_share_indices(cfs, receiving_sk);
    let e1 = cfs[0].spec_e1();
    let v1 = cfs[0].spec_v1();
    lemma_lambda_single(xs);
    crate::arith::lemma_mulq_bound(e, rk);
    crate::arith::lemma_mulq_bound(v, rk);
    crate::arith::lemma_mulq_one(e1);
    crate::arith::lemma_mulq_one(v1);
    crate::arith::lemma_mod_small(e1);
    crate::arith::lemma_mod_small(v1);
    let e1v = cfs.map_values(|cf: CapsuleFrag| cf.spec_e1());
    let v1v = cfs.map_values(|cf: CapsuleFrag| cf.spec_v1());
    assert(spec_lagrange_sum(xs, e1v, 0) == 0);
    assert(spec_lagrange_sum(xs, v1v, 0) == 0);
    assert(spec_lagrange_sum(xs, e1v, 1) == addq(0, mulq(e1, 1)));
    assert(spec_lagrange_sum(xs, e1v, 1) == e1 % group_order()) by {
        crate::arith::lemma_addq_mod_noop(0, e1);
        crate::arith::lemma_mod_small(e1 % group_order());
        assert(addq(0, e1) == e1 % group_order());
    }
    assert(spec_lagrange_sum(xs, v1v, 1) == v1 % group_order()) by {
        crate::arith::lemma_addq_mod_noop(0, v1);
        crate::arith::lemma_mod_small(v1 % group_order());
        assert(addq(0, v1) == v1 % group_order());
    }
    // S = (e1 + v1) * dd = ((e + v) * rk) * dd = (e + v) * (rk * dd)
    //   = (e + v) * (sk * (dd^-1 * dd)) = (e + v) * sk, all in the exponent.
    assert(addq(e1, v1) == mulq(addq(e, v), rk)) by {
        crate::arith::lemma_mulq_comm(e, rk);
        crate::arith::lemma_mulq_comm(v, rk);
        crate::arith::lemma_mulq_distrib(rk, e, v);
        crate::arith::lemma_mulq_comm(rk, addq(e, v));
    }
    assert(mulq(mulq(addq(e, v), rk), dd) == mulq(addq(e, v), mulq(rk, dd))) by {
        crate::arith::lemma_mulq_assoc(addq(e, v), rk, dd);
    }
    assert(mulq(rk, dd) == delegating_sk) by {
        crate::arith::lemma_mulq_assoc(delegating_sk, invq(dd), dd);
        assert(mulq(invq(dd), dd) == 1) by {
            crate::arith::lemma_mulq_comm(dd, invq(dd));
        }
        crate::arith::lemma_mulq_one(delegating_sk);
        crate::arith::lemma_mod_small(delegating_sk);
        crate::arith::lemma_mulq_comm(delegating_sk, 1);
    }
    assert(mulq(addq(e, v), delegating_sk) == mulq(delegating_sk, addq(e, v))) by {
        crate::arith::lemma_mulq_comm(addq(e, v), delegating_sk);
    }
}

/// Law: with two fragments of a two-of-n delegation, the receiver
/// reconstructs exactly the shared secret the encryption derived,
/// `alice_sk * (e + v)` in the exponent: the two Lagrange coefficients sum
/// to one, their index-weighted sum vanishes, and the delegation hash
/// cancels against its inverse.
///
/// The hypotheses that the share-index differences are invertible hold
/// because the group order is prime; they are taken as premises here, as
/// the executable opening establishes each inverse by computing it.
pub proof fn lemma_reconstruct_two(
    cfs: Seq<CapsuleFrag>,
    receiving_sk: nat,
    e: nat,
    v: nat,
    delegating_sk: nat,
    c1: nat,
)
    requires
        cfs.len() == 2,
        e < group_order(),
        v < group_order(),
        delegating_sk < group_order(),
        c1 < group_order(),
        ({
            let xs = spec_share_indices(cfs, receiving_sk);
            let dd = spec_hash_to_shared_secret(
                cfs[0].spec_precursor(),
                receiving_sk,
                mulq(cfs[0].spec_precursor(), receiving_sk),
            );
            let c0 = mulq(delegating_sk, invq(dd));
            let rk0 = addq(c0, mulq(xs[0], c1));
            let rk1 = addq(c0, mulq(xs[1], c1));
            &&& xs[0] != xs[1]
            &&& mulq(subq(xs[1], xs[0]), invq(subq(xs[1], xs[0]))) == 1
            &&& mulq(subq(xs[0], xs[1]), invq(subq(xs[0], xs[1]))) == 1
            &&& mulq(dd, invq(dd)) == 1
            &&& cfs[0].spec_e1() == mulq(e, rk0)
            &&& cfs[0].spec_v1() == mulq(v, rk0)
            &&& cfs[1].spec_e1() == mulq(e, rk1)
            &&& cfs[1].spec_v1() == mulq(v, rk1)
        }),
    ensures
        spec_reconstructed_secret(cfs, receiving_sk) == mulq(delegating_sk, addq(e, v)),
{
    let xs = spec_share_indices(cfs, receiving_sk);
    let dd = spec_hash_to_shared_secret(
        cfs[0].spec_precursor(),
        receiving_sk,
        mulq(cfs[0].spec_precursor(), receiving_sk),
    );
    let c0 = mulq(delegating_sk, invq(dd));
    let x0 = xs[0];
    let x1 = xs[1];
    let rk0 = addq(c0, mulq(x0, c1));
    let rk1 = addq(c0, mulq(x1, c1));
    let dif = subq(x1, x0);
    let idif = invq(dif);
    let dif2 = subq(x0, x1);
    let idif2 = invq(dif2);
    crate::arith::lemma_subq_bound(x1, x0);
    crate::arith::lemma_subq_bound(x0, x1);
    crate::arith::lemma_addq_bound(c0, mulq(x0, c1));
    crate::arith::lemma_addq_bound(c0, mulq(x1, c1));
    crate::arith::lemma_mulq_bound(delegating_sk, invq(dd));
    let lam0 = spec_lambda(xs, 0);
    let lam1 = spec_lambda(xs, 1);
    assert(spec_lambda_partial(xs, 0, 0) == 1);
    assert(spec_lambda_partial(xs, 0, 1) == 1);
    assert(lam0 == mulq(1, mulq(x1, idif)));
    assert(spec_lambda_partial(xs, 1, 0) == 1);
    assert(spec_lambda_partial(xs, 1, 1) == mulq(1, mulq(x0, idif2)));
    assert(lam1 == spec_lambda_partial(xs, 1, 1));
    crate::arith::lemma_mulq_bound(x1, idif);
    crate::arith::lemma_mulq_bound(x0, idif2);
    assert(lam0 == mulq(x1, idif)) by {
        crate::arith::lemma_mulq_one(mulq(x1, idif));
        crate::arith::lemma_mulq_comm(1, mulq(x1, idif));
        crate::arith::lemma_mod_small(mulq(x1, idif));
    }
    assert(lam1 == mulq(x0, idif2)) by {
        crate::arith::lemma_mulq_one(mulq(x0, idif2));
        crate::arith::lemma_mulq_comm(1, mulq(x0, idif2));
        crate::arith::lemma_mod_small(mulq(x0, idif2));
    }
    // lam0 * dif == x1 and lam1 * dif == -x0.
    assert(mulq(lam0, dif) == x1) by {
        crate::arith::lemma_mulq_assoc(x1, idif, dif);
        crate::arith::lemma_mulq_comm(idif, dif);
        crate::arith::lemma_mulq_comm(dif, idif);
        crate::arith::lemma_mulq_one(x1);
        crate::arith::lemma_mod_small(x1);
        assert(x1 < group_order()) by {
            lemma_share_index_bound(cfs, receiving_sk, 1);
        }
    }
    assert(mulq(lam1, dif2) == x0) by {
        crate::arith::lemma_mulq_assoc(x0, idif2, dif2);
        crate::arith::lemma_mulq_comm(idif2, dif2);
        crate::arith::lemma_mulq_comm(dif2, idif2);
        crate::arith::lemma_mulq_one(x0);
        crate::arith::lemma_mod_small(x0);
        assert(x0 < group_order()) by {
            lemma_share_index_bound(cfs, receiving_sk, 0);
        }
    }
    assert(mulq(lam1, dif) == subq(0, x0)) by {
        crate::arith::lemma_subq_swap(x1, x0);
        assert(dif == subq(0, dif2));
        crate::arith::lemma_mulq_neg_right(lam1, dif2);
    }
    // The coefficients sum to one.
    crate::arith::lemma_addq_bound(lam0, lam1);
    assert(addq(lam0, lam1) == 1) by {
        assert(mulq(addq(lam0, lam1), dif) == addq(mulq(lam0, dif), mulq(lam1, dif))) by {
            crate::arith::lemma_mulq_comm(addq(lam0, lam1), dif);
            crate::arith::lemma_mulq_distrib(dif, lam0, lam1);
            crate::arith::lemma_mulq_comm(dif, lam0);
            crate::arith::lemma_mulq_comm(dif, lam1);
        }
        assert(addq(x1, subq(0, x0)) == subq(x1, x0)) by {
            crate::arith::lemma_addq_neg(x1, x0);
        }
        assert(mulq(addq(lam0, lam1), dif) == dif);
        assert(mulq(1, dif) == dif) by {
            crate::arith::lemma_mulq_one(dif);
            crate::arith::lemma_mod_small(dif);
        }
        crate::arith::lemma_mulq_cancel(addq(lam0, lam1), 1, dif, idif);
    }
    // The index-weighted coefficients sum to zero.
    let w0 = mulq(lam0, x0);
    let w1 = mulq(lam1, x1);
    crate::arith::lemma_addq_bound(w0, w1);
    assert(addq(w0, w1) == 0) by {
        assert(mulq(w0, dif) == mulq(x0, x1)) by {
            crate::arith::lemma_mulq_comm(lam0, x0);
            crate::arith::lemma_mulq_assoc(x0, lam0, dif);
        }
        assert(mulq(w1, dif) == subq(0, mulq(x1, x0))) by {
            crate::arith::lemma_mulq_comm(lam1, x1);
            crate::arith::lemma_mulq_assoc(x1, lam1, dif);
            crate::arith::lemma_mulq_neg_right(x1, dif2);
            assert(mulq(lam1, dif) == subq(0, x0));
            crate::arith::lemma_mulq_neg_right(x1, x0);
            assert(mulq(x1, subq(0, x0)) == subq(0, mulq(x1, x0)));
        }
        assert(mulq(addq(w0, w1), dif) == addq(mulq(w0, dif), mulq(w1, dif))) by {
            crate::arith::lemma_mulq_comm(addq(w0, w1), dif);
            crate::arith::lemma_mulq_distrib(dif, w0, w1);
            crate::arith::lemma_mulq_comm(dif, w0);
            crate::arith::lemma_mulq_comm(dif, w1);
        }
        assert(addq(mulq(x0, x1), subq(0, mulq(x1, x0))) == 0) by {
            crate::arith::lemma_mulq_comm(x0, x1);
            crate::arith::lemma_addq_neg(mulq(x1, x0), mulq(x1, x0));
            assert(subq(mulq(x1, x0), mulq(x1, x0)) == 0) by {
                crate::arith::lemma_mod_small(0);
            }
        }
        assert(mulq(0, dif) == 0) by {
            crate::arith::lemma_mod_small(0);
        }
        crate::arith::lemma_mulq_cancel(addq(w0, w1), 0, dif, idif);
    }
    // The weighted shares interpolate to the constant coefficient.
    let t0 = mulq(lam0, rk0);
    let t1 = mulq(lam1, rk1);
    assert(addq(t0, t1) == c0) by {
        assert(t0 == addq(mulq(lam0, c0), mulq(mulq(lam0, x0), c1))) by {
            crate::arith::lemma_mulq_distrib(lam0, c0, mulq(x0, c1));
            crate::arith::lemma_mulq_assoc(lam0, x0, c1);
        }
        assert(t1 == addq(mulq(lam1, c0), mulq(mulq(lam1, x1), c1))) by {
            crate::arith::lemma_mulq_distrib(lam1, c0, mulq(x1, c1));
            crate::arith::lemma_mulq_assoc(lam1, x1, c1);
        }
        let p0 = mulq(lam0, c0);
        let p1 = mulq(lam1, c0);
        let q0 = mulq(w0, c1);
        let q1 = mulq(w1, c1);
        assert(addq(addq(p0, q0), addq(p1, q1)) == addq(addq(p0, p1), addq(q0, q1))) by {
            crate::arith::lemma_addq_assoc(addq(p0, q0), p1, q1);
            crate::arith::lemma_addq_assoc(p0, q0, p1);
            crate::arith::lemma_addq_assoc(p0, p1, q0);
            crate::arith::lemma_addq_assoc(addq(p0, p1), q0, q1);
            assert(addq(q0, p1) == addq(p1, q0));
        }
        assert(addq(p0, p1) == mulq(c0, 1)) by {
            crate::arith::lemma_mulq_comm(lam0, c0);
            crate::arith::lemma_mulq_comm(lam1, c0);
            crate::arith::lemma_mulq_distrib(c0, lam0, lam1);
        }
        assert(addq(q0, q1) == mulq(c1, 0)) by {
            crate::arith::lemma_mulq_comm(w0, c1);
            crate::arith::lemma_mulq_comm(w1, c1);
            crate::arith::lemma_mulq_distrib(c1, w0, w1);
        }
        assert(mulq(c0, 1) == c0) by {
            crate::arith::lemma_mulq_one(c0);
            crate::arith::lemma_mod_small(c0);
        }
        assert(mulq(c1, 0) == 0) by {
            crate::arith::lemma_mod_small(0);
        }
        assert(addq(c0, 0) == c0) by {
            crate::arith::lemma_mod_small(c0);
        }
    }
    // The combined points carry e and v times the constant coefficient.
    let e1v = cfs.map_values(|cf: CapsuleFrag| cf.spec_e1());
    let v1v = cfs.map_values(|cf: CapsuleFrag| cf.spec_v1());
    assert(spec_lagrange_sum(xs, e1v, 0) == 0);
    assert(spec_lagrange_sum(xs, v1v, 0) == 0);
    let esum = spec_lagrange_sum(xs, e1v, 2);
    let vsum = spec_lagrange_sum(xs, v1v, 2);
    assert(spec_lagrange_sum(xs, e1v, 1) == addq(0, mulq(e1v[0], lam0)));
    assert(spec_lagrange_sum(xs, v1v, 1) == addq(0, mulq(v1v[0], lam0)));
    assert(esum == addq(addq(0, mulq(e1v[0], lam0)), mulq(e1v[1], lam1)));
    assert(vsum == addq(addq(0, mulq(v1v[0], lam0)), mulq(v1v[1], lam1)));
    assert(esum == mulq(e, addq(t0, t1)) && vsum == mulq(v, addq(t0, t1))) by {
        lemma_weighted_pair(e, rk0, rk1, lam0, lam1);
        lemma_weighted_pair(v, rk0, rk1, lam0, lam1);
    }
    assert(esum == mulq(e, c0));
    assert(vsum == mulq(v, c0));
    assert(addq(esum, vsum) == mulq(addq(e, v), c0)) by {
        crate::arith::lemma_mulq_comm(e, c0);
        crate::arith::lemma_mulq_comm(v, c0);
        crate::arith::lemma_mulq_distrib(c0, e, v);
        crate::arith::lemma_mulq_comm(c0, addq(e, v));
    }
    assert(mulq(mulq(addq(e, v), c0), dd) == mulq(delegating_sk, addq(e, v))) by {
        crate::arith::lemma_mulq_assoc(addq(e, v), c0, dd);
        assert(mulq(c0, dd) == delegating_sk) by {
            crate::arith::lemma_mulq_assoc(delegating_sk, invq(dd), dd);
            assert(mulq(invq(dd), dd) == 1) by {
                crate::arith::lemma_mulq_comm(dd, invq(dd));
            }
            crate::arith::lemma_mulq_one(delegating_sk);
            crate::arith::lemma_mod_small(delegating_sk);
        }
        crate::arith::lemma_mulq_comm(addq(e, v), delegating_sk);
    }
}

/// A share index is a reduced scalar.
proof fn lemma_share_index_bound(cfs: Seq<CapsuleFrag>, receiving_sk: nat, i: int)
    requires
        0 <= i < cfs.len(),
    ensures
        spec_share_indices(cfs, receiving_sk)[i] < group_order(),
{
    vstd::arithmetic::div_mod::lemma_mod_bound(
        crate::encoding::be_value(
            crate::hashing::sha256_digest(
                crate::hashing::dst_tag(crate::hashing_ds::polynomial_arg_dst())
                    + point_encoding(cfs[0].spec_precursor()) + point_encoding(receiving_sk)
                    + point_encoding(mulq(cfs[0].spec_precursor(), receiving_sk))
                    + cfs[i].spec_id(),
            ),
        ) as int,
        group_order() as int,
    );
}

/// Both weighted transforms of one base collapse to the base times the
/// interpolated value.
proof fn lemma_weighted_pair(base: nat, rk0: nat, rk1: nat, lam0: nat, lam1: nat)
    ensures
        addq(addq(0, mulq(mulq(base, rk0), lam0)), mulq(mulq(base, rk1), lam1)) == mulq(
            base,
            addq(mulq(lam0, rk0), mulq(lam1, rk1)),
        ),
{
    assert(mulq(mulq(base, rk0), lam0) == mulq(base, mulq(lam0, rk0))) by {
        crate::arith::lemma_mulq_assoc(base, rk0, lam0);
        crate::arith::lemma_mulq_comm(rk0, lam0);
    }
    assert(mulq(mulq(base, rk1), lam1) == mulq(base, mulq(lam1, rk1))) by {
        crate::arith::lemma_mulq_assoc(base, rk1, lam1);
        crate::arith::lemma_mulq_comm(rk1, lam1);
    }
    let s0 = mulq(base, mulq(lam0, rk0));
    crate::arith::lemma_mulq_bound(base, mulq(lam0, rk0));
    assert(addq(0, s0) == s0) by {
        crate::arith::lemma_mod_small(s0);
    }
    crate::arith::lemma_mulq_distrib(base, mulq(lam0, rk0), mulq(lam1, rk1));
}

} // verus!
