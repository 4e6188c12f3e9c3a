//! Fixed-size byte serialization helpers.
//!
//! Every wire entity of this crate is a concatenation of fixed-size byte
//! arrays; these helpers build and split such concatenations and read
//! big-endian integers.

use vstd::arithmetic::div_mod::lemma_fundamental_div_mod;
use vstd::prelude::*;
use vstd::slice::{slice_subrange, slice_to_vec};

verus! {

/// Deserialization failed: the bytes do not describe a valid entity.
#[derive(Clone, Copy, Debug, PartialEq, Eq, Structural)]
pub enum DeserializationError {
    /// Bad length, invalid point, scalar out of range, or a bad boolean byte.
    ConstructionFailure,
}

/// The big-endian value of a byte string.
pub open spec fn be_value(s: Seq<u8>) -> nat
    decreases s.len(),
{
    if s.len() == 0 {
        0
    } else {
        be_value(s.drop_last()) * 256 + s.last() as nat
    }
}

/// Law: the big-endian value determines the bytes at a given length, so a
/// serialized scalar admits exactly one encoding.
pub proof fn lemma_be_value_injective(a: Seq<u8>, b: Seq<u8>)
    requires
        a.len() == b.len(),
        be_value(a) == be_value(b),
    ensures
        a == b,
    decreases a.len(),
{
    if a.len() == 0 {
        assert(a =~= b);
    } else {
        let qa = be_value(a.drop_last());
        let la = a.last();
        let qb = be_value(b.drop_last());
        let lb = b.last();
        assert(qa * 256 + la == qb * 256 + lb);
        assert(la == lb) by {
            vstd::arithmetic::div_mod::lemma_mod_multiples_vanish(
                qa as int,
                la as int,
                256,
            );
            vstd::arithmetic::div_mod::lemma_mod_multiples_vanish(
                qb as int,
                lb as int,
                256,
            );
            vstd::arithmetic::div_mod::lemma_small_mod(la as nat, 256);
            vstd::arithmetic::div_mod::lemma_small_mod(lb as nat, 256);
        }
        assert(qa == qb);
        lemma_be_value_injective(a.drop_last(), b.drop_last());
        assert(a =~= a.drop_last().push(la));
        assert(b =~= b.drop_last().push(lb));
    }
}

/// The big-endian value of four bytes, written out.
pub proof fn lemma_be_value4(s: Seq<u8>)
    requires
        s.len() == 4,
    ensures
        be_value(s) == ((s[0] * 256 + s[1]) * 256 + s[2]) * 256 + s[3],
{
    let s3 = s.drop_last();
    let s2 = s3.drop_last();
    let s1 = s2.drop_last();
    let s0 = s1.drop_last();
    assert(s0.len() == 0);
    assert(be_value(s0) == 0);
    assert(s1.last() == s[0]);
    assert(be_value(s1) == s[0]);
    assert(s2.last() == s[1]);
    assert(be_value(s2) == s[0] * 256 + s[1]);
    assert(s3.last() == s[2]);
    assert(be_value(s3) == (s[0] * 256 + s[1]) * 256 + s[2]);
    assert(s.last() == s[3]);
}

/// The byte encoding a boolean: `0x01` for true, `0x00` for false.
pub open spec fn bool_byte(b: bool) -> u8 {
    if b {
        1u8
    } else {
        0u8
    }
}

/// Whether two byte strings are equal.
pub fn bytes_equal(a: &[u8], b: &[u8]) -> (r: bool)
    ensures
        r == (a@ == b@),
{
    if a.len() != b.len() {
        return false;
    }
    let n = a.len();
    for i in 0..n
        invariant
            n == a@.len(),
            n == b@.len(),
            forall|k: int| 0 <= k < i ==> a@[k] == b@[k],
    {
        if *vstd::slice::slice_index_get(a, i) != *vstd::slice::slice_index_get(b, i) {
            return false;
        }
    }
    proof {
        assert(a@ =~= b@);
    }
    true
}

/// Appends all of `data` to `out`.
pub fn append_bytes(out: &mut Vec<u8>, data: &[u8])
    ensures
        final(out)@ == old(out)@ + data@,
{
    let n = data.len();
    for i in 0..n
        invariant
            n == data@.len(),
            out@ == old(out)@ + data@.subrange(0, i as int),
    {
        out.push(*vstd::slice::slice_index_get(data, i));
        assert(out@ =~= old(out)@ + data@.subrange(0, i + 1));
    }
    assert(out@ =~= old(out)@ + data@);
}

/// Copies `data[from..to]` into a fresh vector.
pub fn take_bytes(data: &[u8], from: usize, to: usize) -> (r: Vec<u8>)
    requires
        from <= to <= data@.len(),
    ensures
        r@ == data@.subrange(from as int, to as int),
{
    slice_to_vec(slice_subrange(data, from, to))
}

/// The 4-byte big-endian encoding of a value below `2^32`.
pub open spec fn be4_bytes(n: nat) -> Seq<u8> {
    seq![
        ((n / 0x1000000) % 0x100) as u8,
        ((n / 0x10000) % 0x100) as u8,
        ((n / 0x100) % 0x100) as u8,
        (n % 0x100) as u8,
    ]
}

/// Big-endian encoding of a 32-bit length.
pub fn u32_to_be_bytes(x: u32) -> (r: Vec<u8>)
    ensures
        r@.len() == 4,
        be_value(r@) == x as nat,
        r@ == be4_bytes(x as nat),
{
    let d0: u32 = x % 256;
    let x1: u32 = x / 256;
    let d1: u32 = x1 % 256;
    let x2: u32 = x1 / 256;
    let d2: u32 = x2 % 256;
    let x3: u32 = x2 / 256;
    proof {
        lemma_fundamental_div_mod(x as int, 256);
        lemma_fundamental_div_mod(x1 as int, 256);
        lemma_fundamental_div_mod(x2 as int, 256);
        assert(x3 < 256);
    }
    let mut r: Vec<u8> = Vec::new();
    r.push(x3 as u8);
    r.push(d2 as u8);
    r.push(d1 as u8);
    r.push(d0 as u8);
    proof {
        let s = r@;
        lemma_be_value4(s);
        assert(s[0] == x3 as u8 && s[1] == d2 as u8 && s[2] == d1 as u8 && s[3] == d0 as u8);
        assert(be_value(s) == ((x3 * 256 + d2) * 256 + d1) * 256 + d0);
        vstd::arithmetic::div_mod::lemma_div_denominator(x as int, 256, 256);
        vstd::arithmetic::div_mod::lemma_div_denominator(x as int, 0x10000, 256);
        assert(x2 == (x as nat) / 0x10000);
        assert(x3 == (x as nat) / 0x1000000);
        vstd::arithmetic::div_mod::lemma_small_mod(x3 as nat, 0x100);
        assert(s =~= be4_bytes(x as nat));
    }
    r
}

/// Reads a big-endian 32-bit length.
pub fn u32_from_be_bytes(b: &[u8]) -> (r: u32)
    requires
        b@.len() == 4,
    ensures
        r as nat == be_value(b@),
{
    let b0 = *vstd::slice::slice_index_get(b, 0);
    let b1 = *vstd::slice::slice_index_get(b, 1);
    let b2 = *vstd::slice::slice_index_get(b, 2);
    let b3 = *vstd::slice::slice_index_get(b, 3);
    let r: u32 = ((b0 as u32) * 0x1000000) + ((b1 as u32) * 0x10000) + ((b2 as u32) * 0x100) + (
    b3 as u32);
    proof {
        let s = b@;
        lemma_be_value4(s);
        assert(be_value(s) == ((b0 * 256 + b1) * 256 + b2) * 256 + b3);
    }
    r
}

} // verus!
