//! The shared protocol parameters: the second generator `U`.
//!
//! `U` is derived deterministically from the ASCII tag `U` by
//! try-and-increment: hash the tag with a counter, prefix a compressed-point
//! tag byte, and take the first candidate that decodes to a curve point.
//! Every implementation derives the same point, and nothing relates its
//! discrete logarithm to the generator's.

use crate::arith::group_order;
use crate::curve::{point_decoding, CurvePoint};
use crate::encoding::{append_bytes, be4_bytes, u32_to_be_bytes};
use crate::hashing::{sha256, sha256_digest};
use vstd::prelude::*;

verus! {

/// How many counter values the derivation tries before giving up; about
/// half of all candidates decode, so failure is statistically unreachable.
pub const U_DERIVATION_TRIES: u32 = 1000;

/// The candidate for counter `i`: the byte `0x02` followed by the SHA-256
/// digest of the ASCII tag `U` and the 4-byte big-endian counter, read as a
/// compressed point where it decodes.
pub open spec fn spec_u_candidate(i: nat) -> Option<nat> {
    point_decoding(seq![2u8] + sha256_digest(seq![85u8] + be4_bytes(i)))
}

/// The shared parameters of a delegation: the second generator `U`.
pub struct Parameters {
    u_point: CurvePoint,
}

impl View for Parameters {
    type V = nat;

    closed spec fn view(&self) -> nat {
        self.u_point@
    }
}

impl Parameters {
    #[verifier::type_invariant]
    spec fn type_inv(&self) -> bool {
        0 < self.u_point@ < group_order()
    }

    /// Derives `U`: the first counter whose candidate decodes; fails only
    /// if no candidate decodes within the bound.
    pub fn new() -> (r: Option<Self>)
        ensures
            r matches Some(p) ==> 0 < p@ < group_order() && (exists|i: nat|
                i < U_DERIVATION_TRIES as nat && #[trigger] spec_u_candidate(i) == Some(p@) && (
                forall|j: nat| j < i ==> (#[trigger] spec_u_candidate(j)) is None)),
            r is None <==> (forall|i: nat|
                i < U_DERIVATION_TRIES as nat ==> (#[trigger] spec_u_candidate(i)) is None),
    {
        let mut counter: u32 = 0;
        while counter < U_DERIVATION_TRIES
            invariant
                counter <= U_DERIVATION_TRIES,
                forall|j: nat| j < counter as nat ==> (#[trigger] spec_u_candidate(j)) is None,
            decreases U_DERIVATION_TRIES - counter,
        {
            let mut seed: Vec<u8> = Vec::new();
            seed.push(85u8);  // the ASCII tag "U"
            let counter_bytes = u32_to_be_bytes(counter);
            append_bytes(&mut seed, counter_bytes.as_slice());
            let digest = sha256(seed.as_slice());
            let mut candidate: Vec<u8> = Vec::new();
            candidate.push(2u8);
            append_bytes(&mut candidate, digest.as_slice());
            proof {
                assert(seed@ =~= seq![85u8] + be4_bytes(counter as nat));
                assert(candidate@ =~= seq![2u8] + sha256_digest(seq![85u8] + be4_bytes(
                    counter as nat,
                )));
            }
            match CurvePoint::from_bytes(candidate.as_slice()) {
                Some(point) => {
                    proof {
                        assert(spec_u_candidate(counter as nat) == Some(point@));
                    }
                    return Some(Parameters { u_point: point });
                },
                None => {
                    proof {
                        assert(spec_u_candidate(counter as nat) is None);
                    }
                },
            }
            counter = counter + 1;
        }
        None
    }

    /// The second generator.
    pub(crate) fn u_point(&self) -> (r: &CurvePoint)
        ensures
            r@ == self@,
            0 < self@ < group_order(),
    {
        proof {
            use_type_invariant(&*self);
        }
        &self.u_point
    }
}

} // verus!
