//! Arithmetic modulo the order of the secp256k1 group.
//!
//! Scalars are modelled as naturals below the group order, and group elements
//! by their discrete logarithm with respect to the generator; the operations
//! below are the spec-level image of the backend's field and group operations.

use vstd::arithmetic::div_mod::{
    lemma_add_mod_noop, lemma_mod_bound, lemma_mul_mod_noop_general, lemma_small_mod,
};
use vstd::prelude::*;

verus! {

/// The order of the secp256k1 scalar field and of its group of points:
/// `0xFFFFFFFFFFFFFFFFFFFFFFFFFFFFFFFE BAAEDCE6AF48A03BBFD25E8CD0364141`,
/// written as `hi * 2^128 + lo` to stay within 128-bit literals.
pub open spec fn group_order() -> nat {
    0xFFFFFFFFFFFFFFFFFFFFFFFFFFFFFFFE * 0x10000000000000000 * 0x10000000000000000
        + 0xBAAEDCE6AF48A03BBFD25E8CD0364141
}

/// Addition modulo the group order.
pub open spec fn addq(a: nat, b: nat) -> nat {
    (a + b) % group_order()
}

/// Subtraction modulo the group order.
pub open spec fn subq(a: nat, b: nat) -> nat {
    (((a as int) - (b as int)) % (group_order() as int)) as nat
}

/// Multiplication modulo the group order.
pub open spec fn mulq(a: nat, b: nat) -> nat {
    (a * b) % group_order()
}

/// The inverse modulo the group order, where one exists.
pub open spec fn invq(a: nat) -> nat {
    choose|b: nat| b < group_order() && mulq(a, b) == 1
}

/// Whether `a` is a reduced nonzero residue.
pub open spec fn nonzeroq(a: nat) -> bool {
    0 < a < group_order()
}

pub proof fn lemma_addq_bound(a: nat, b: nat)
    ensures
        addq(a, b) < group_order(),
{
    lemma_mod_bound((a + b) as int, group_order() as int);
}

pub proof fn lemma_mulq_bound(a: nat, b: nat)
    ensures
        mulq(a, b) < group_order(),
{
    lemma_mod_bound((a * b) as int, group_order() as int);
}

pub proof fn lemma_subq_bound(a: nat, b: nat)
    ensures
        subq(a, b) < group_order(),
{
    lemma_mod_bound((a as int) - (b as int), group_order() as int);
}

/// Reduction is the identity on reduced values.
pub proof fn lemma_mod_small(a: nat)
    requires
        a < group_order(),
    ensures
        a % group_order() == a,
{
    lemma_small_mod(a, group_order());
}

/// Multiplication modulo the order ignores prior reductions of its arguments.
pub proof fn lemma_mulq_mod_noop(a: nat, b: nat)
    ensures
        mulq(a % group_order(), b % group_order()) == mulq(a, b),
        mulq(a % group_order(), b) == mulq(a, b),
        mulq(a, b % group_order()) == mulq(a, b),
{
    lemma_mul_mod_noop_general(a as int, b as int, group_order() as int);
}

/// Addition modulo the order ignores prior reductions of its arguments.
pub proof fn lemma_addq_mod_noop(a: nat, b: nat)
    ensures
        addq(a % group_order(), b % group_order()) == addq(a, b),
        addq(a % group_order(), b) == addq(a, b),
        addq(a, b % group_order()) == addq(a, b),
{
    lemma_add_mod_noop(a as int, b as int, group_order() as int);
    lemma_add_mod_noop((a % group_order()) as int, b as int, group_order() as int);
    lemma_add_mod_noop(a as int, (b % group_order()) as int, group_order() as int);
    lemma_mod_small_generic(a % group_order());
    lemma_mod_small_generic(b % group_order());
}

proof fn lemma_mod_small_generic(a: nat)
    ensures
        a < group_order() ==> a % group_order() == a,
{
    if a < group_order() {
        lemma_small_mod(a, group_order());
    }
}

/// Associativity of multiplication under a shared final reduction.
pub proof fn lemma_mulq_assoc(a: nat, b: nat, c: nat)
    ensures
        mulq(mulq(a, b), c) == mulq(a, mulq(b, c)),
{
    lemma_mulq_mod_noop(a * b, c);
    lemma_mulq_mod_noop(a, b * c);
    assert((a * b) * c == a * (b * c)) by (nonlinear_arith);
}

/// Commutativity of multiplication modulo the order.
pub proof fn lemma_mulq_comm(a: nat, b: nat)
    ensures
        mulq(a, b) == mulq(b, a),
{
    assert(a * b == b * a) by (nonlinear_arith);
}

/// Multiplication distributes over addition modulo the order.
pub proof fn lemma_mulq_distrib(a: nat, b: nat, c: nat)
    ensures
        mulq(a, addq(b, c)) == addq(mulq(a, b), mulq(a, c)),
{
    lemma_mulq_mod_noop(a, b + c);
    assert(a * (b + c) == a * b + a * c) by (nonlinear_arith);
    lemma_add_mod_noop((a * b) as int, (a * c) as int, group_order() as int);
}

/// Associativity of addition under a shared final reduction.
pub proof fn lemma_addq_assoc(a: nat, b: nat, c: nat)
    ensures
        addq(addq(a, b), c) == addq(a, addq(b, c)),
{
    lemma_addq_mod_noop(a + b, c);
    lemma_addq_mod_noop(a, b + c);
}

/// Adding a negation is subtracting.
pub proof fn lemma_addq_neg(a: nat, b: nat)
    ensures
        addq(a, subq(0, b)) == subq(a, b),
{
    let q = group_order() as int;
    vstd::arithmetic::div_mod::lemma_add_mod_noop_right(a as int, 0 - (b as int), q);
}

/// Multiplying by a negation negates the product.
pub proof fn lemma_mulq_neg_right(a: nat, b: nat)
    ensures
        mulq(a, subq(0, b)) == subq(0, mulq(a, b)),
{
    let q = group_order() as int;
    let negb = (0 - (b as int)) % q;
    vstd::arithmetic::div_mod::lemma_mul_mod_noop_right(a as int, 0 - (b as int), q);
    assert((a as int) * negb % q == (a as int) * (0 - (b as int)) % q);
    assert((a as int) * (0 - (b as int)) == 0 - (a as int) * (b as int)) by (nonlinear_arith);
    vstd::arithmetic::div_mod::lemma_sub_mod_noop_right(0, (a as int) * (b as int), q);
}

/// Swapping a subtraction negates it.
pub proof fn lemma_subq_swap(a: nat, b: nat)
    ensures
        subq(a, b) == subq(0, subq(b, a)),
{
    let q = group_order() as int;
    vstd::arithmetic::div_mod::lemma_sub_mod_noop_right(0, (b as int) - (a as int), q);
}

/// Multiplication by an invertible value cancels.
pub proof fn lemma_mulq_cancel(t: nat, s: nat, d: nat, w: nat)
    requires
        t < group_order(),
        s < group_order(),
        mulq(d, w) == 1,
        mulq(t, d) == mulq(s, d),
    ensures
        t == s,
{
    // t == t * (d * w) == (t * d) * w == (s * d) * w == s * (d * w) == s.
    lemma_mulq_assoc(t, d, w);
    lemma_mulq_assoc(s, d, w);
    lemma_mulq_mod_noop(t, d * w);
    lemma_mulq_mod_noop(s, d * w);
    lemma_mulq_one(t);
    lemma_mulq_one(s);
    lemma_mod_small(t);
    lemma_mod_small(s);
    assert(mulq(t, mulq(d, w)) == mulq(t, 1));
    assert(mulq(s, mulq(d, w)) == mulq(s, 1));
}

/// Subtraction of distinct reduced values never lands on zero.
pub proof fn lemma_subq_nonzero(a: nat, b: nat)
    requires
        a < group_order(),
        b < group_order(),
        a != b,
    ensures
        subq(a, b) != 0,
{
    let q = group_order() as int;
    let d = (a as int) - (b as int);
    if a > b {
        lemma_small_mod((a - b) as nat, group_order());
        assert(d % q == d);
    } else {
        lemma_mod_bound(d, q);
        assert((d + q) % q == d % q) by {
            vstd::arithmetic::div_mod::lemma_mod_add_multiples_vanish(d, q);
        }
        lemma_small_mod((d + q) as nat, group_order());
    }
}

/// Multiplying by one only reduces.
pub proof fn lemma_mulq_one(a: nat)
    ensures
        mulq(1, a) == a % group_order(),
        mulq(a, 1) == a % group_order(),
{
    assert(1 * a == a) by (nonlinear_arith);
    assert(a * 1 == a) by (nonlinear_arith);
}

/// An inverse modulo the order is unique below the order.
pub proof fn lemma_inverse_unique(a: nat, b1: nat, b2: nat)
    requires
        b1 < group_order(),
        b2 < group_order(),
        mulq(a, b1) == 1,
        mulq(a, b2) == 1,
    ensures
        b1 == b2,
{
    // b1 == b1 * (a * b2) == (b1 * a) * b2 == b2, all modulo the order.
    lemma_mulq_comm(a, b1);
    lemma_mulq_comm(a, b2);
    lemma_mulq_assoc(b1, a, b2);
    lemma_mulq_mod_noop(b1, a * b2);
    lemma_mulq_mod_noop(b1 * a, b2);
    lemma_mod_small(b1);
    lemma_mod_small(b2);
    assert(mulq(b1, mulq(a, b2)) == mulq(b1, 1));
    assert(mulq(b1, 1) == b1 % group_order()) by {
        assert(b1 * 1 == b1) by (nonlinear_arith);
    }
    assert(mulq(mulq(b1, a), b2) == mulq(1, b2));
    assert(mulq(1, b2) == b2 % group_order()) by {
        assert(1 * b2 == b2) by (nonlinear_arith);
    }
}

/// A value with an inverse pins down `invq`.
pub proof fn lemma_invq_is(a: nat, b: nat)
    requires
        b < group_order(),
        mulq(a, b) == 1,
    ensures
        invq(a) == b,
{
    let w = choose|w: nat| w < group_order() && mulq(a, w) == 1;
    assert(w < group_order() && mulq(a, w) == 1);
    lemma_inverse_unique(a, w, b);
}

} // verus!
