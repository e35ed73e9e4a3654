//! Difficulty to device target conversion.
use vstd::arithmetic::div_mod::{
    lemma_div_is_ordered, lemma_div_is_ordered_by_denominator, lemma_fundamental_div_mod_converse,
};
use vstd::arithmetic::power::{lemma_pow_positive, pow};
use vstd::prelude::*;

verus! {

/// The unsigned integer that a byte sequence denotes, most significant byte first.
pub open spec fn be_value(s: Seq<u8>) -> int
    decreases s.len(),
{
    if s.len() == 0 {
        0
    } else {
        be_value(s.drop_last()) * 256 + s.last() as int
    }
}

/// The largest 256-bit unsigned value.
pub open spec fn max_u256() -> int {
    pow(256, 32) - 1
}

/// The 32-bit device target of a difficulty: the most significant 32 bits of
/// `max_u256() / difficulty`.
pub open spec fn target_of(difficulty: int) -> int {
    (max_u256() / difficulty) / pow(256, 28)
}

proof fn lemma_be_value_bounds(s: Seq<u8>)
    ensures
        0 <= be_value(s) < pow(256, s.len()),
    decreases s.len(),
{
    reveal(pow);
    if s.len() > 0 {
        lemma_be_value_bounds(s.drop_last());
        let p = pow(256, (s.len() - 1) as nat);
        let v = be_value(s.drop_last());
        assert(v * 256 + s.last() < p * 256) by (nonlinear_arith)
            requires
                v < p,
                s.last() < 256,
        ;
        assert(pow(256, s.len()) == 256 * p);
    }
}

proof fn lemma_be_value_append(a: Seq<u8>, b: Seq<u8>)
    ensures
        be_value(a + b) == be_value(a) * pow(256, b.len()) + be_value(b),
    decreases b.len(),
{
    reveal(pow);
    if b.len() == 0 {
        assert(a + b =~= a);
    } else {
        lemma_be_value_append(a, b.drop_last());
        assert((a + b).drop_last() =~= a + b.drop_last());
        assert((a + b).last() == b.last());
        assert(be_value(a + b) == be_value(a + b.drop_last()) * 256 + b.last());
        let p = pow(256, (b.len() - 1) as nat);
        let x = be_value(a);
        let y = be_value(b.drop_last());
        assert(pow(256, b.len()) == 256 * p);
        assert((x * p + y) * 256 + b.last() == x * (256 * p) + (y * 256 + b.last()))
            by (nonlinear_arith);
    }
}

pub(crate) proof fn lemma_be_value_two(s: Seq<u8>)
    requires
        s.len() == 2,
    ensures
        be_value(s) == s[0] * 256 + s[1],
{
    assert(s.drop_last().drop_last() =~= Seq::<u8>::empty());
    assert(be_value(s.drop_last()) == be_value(s.drop_last().drop_last()) * 256 + s[0]);
    assert(be_value(s) == be_value(s.drop_last()) * 256 + s[1]);
}

pub(crate) proof fn lemma_be_value_four(s: Seq<u8>)
    requires
        s.len() == 4,
    ensures
        be_value(s) == s[0] * 0x100_0000 + s[1] * 0x1_0000 + s[2] * 256 + s[3],
{
    let s3 = s.drop_last();
    let s2 = s3.drop_last();
    let s1 = s2.drop_last();
    assert(s1.drop_last() =~= Seq::<u8>::empty());
    assert(be_value(s1) == be_value(s1.drop_last()) * 256 + s[0]);
    assert(be_value(s2) == be_value(s1) * 256 + s[1]);
    assert(be_value(s3) == be_value(s2) * 256 + s[2]);
    assert(be_value(s) == be_value(s3) * 256 + s[3]);
}

/// The first four bytes of a 32-byte big-endian value are its most
/// significant 32 bits.
proof fn lemma_top_four(s: Seq<u8>)
    requires
        s.len() == 32,
    ensures
        be_value(s.subrange(0, 4)) == be_value(s) / pow(256, 28),
{
    let hi = s.subrange(0, 4);
    let lo = s.subrange(4, 32);
    assert(s =~= hi + lo);
    lemma_be_value_append(hi, lo);
    lemma_be_value_bounds(lo);
    lemma_pow_positive(256, 28);
    lemma_fundamental_div_mod_converse(
        be_value(s),
        pow(256, 28),
        be_value(hi),
        be_value(lo),
    );
}

/// A larger difficulty never gives a larger target.
pub proof fn lemma_target_monotonic(d1: int, d2: int)
    requires
        0 < d1 <= d2,
    ensures
        target_of(d1) >= target_of(d2),
{
    lemma_pow_positive(256, 32);
    lemma_pow_positive(256, 28);
    lemma_div_is_ordered_by_denominator(max_u256(), d1, d2);
    lemma_div_is_ordered(max_u256() / d2, max_u256() / d1, pow(256, 28));
}

/// Relies on primitive_types::U256 (uint's 256-bit integer): `U256::MAX / d`
/// is the integer quotient of 2^256 - 1 by `d`, and `from_big_endian` /
/// `to_big_endian` read and write a value as 32 bytes, most significant first.
#[verifier::external_body]
fn max_div(difficulty: &[u8; 32]) -> (r: [u8; 32])
    requires
        be_value(difficulty@) != 0,
    ensures
        be_value(r@) == max_u256() / be_value(difficulty@),
{
    let q = primitive_types::U256::MAX / primitive_types::U256::from_big_endian(difficulty);
    let mut out = [0u8; 32];
    q.to_big_endian(&mut out);
    out
}

/// Relies on byteorder's `BigEndian::read_u32`: the first four bytes read as a
/// big-endian integer (it panics on fewer than four).
#[verifier::external_body]
fn read_u32_be(b: &[u8]) -> (r: u32)
    requires
        b@.len() >= 4,
    ensures
        r as int == be_value(b@.subrange(0, 4)),
{
    <byteorder::BigEndian as byteorder::ByteOrder>::read_u32(b)
}

/// The 32-bit target that the device compares hashes against, for a 256-bit
/// difficulty given as 32 big-endian bytes.
pub fn difficulty_to_target_u32(difficulty: &[u8; 32]) -> (r: u32)
    requires
        be_value(difficulty@) > 0,
    ensures
        r as int == target_of(be_value(difficulty@)),
{
    let quotient = max_div(difficulty);
    proof {
        lemma_top_four(quotient@);
    }
    read_u32_be(&quotient)
}

} // verus!
