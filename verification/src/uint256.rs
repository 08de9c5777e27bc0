//! 256-bit unsigned integers, in which Ethereum counts its blocks.

use vstd::arithmetic::power::pow;
use vstd::prelude::*;

verus! {

/// The number that a sequence of bytes stands for, most significant byte first.
pub open spec fn be_value(bytes: Seq<u8>) -> nat
    decreases bytes.len(),
{
    if bytes.len() == 0 {
        0
    } else {
        be_value(bytes.drop_last()) * 256 + bytes.last() as nat
    }
}

/// The first number that does not fit in 256 bits.
pub open spec fn uint256_limit() -> nat {
    pow(256, 32) as nat
}

/// An unsigned integer of 256 bits, most significant byte first.
#[derive(Clone, Copy, Debug, PartialEq, Eq)]
pub struct Uint256 {
    pub bytes: [u8; 32],
}

impl View for Uint256 {
    type V = nat;

    open spec fn view(&self) -> nat {
        be_value(self.bytes@)
    }
}

/// `num256::Uint256::from(u64)`, handed out as 32 bytes, most significant
/// first: the same number.
#[verifier::external_body]
fn bytes_of_u64(n: u64) -> (r: [u8; 32])
    ensures
        be_value(r@) == n,
{
    num256::Uint256::from(n).into()
}

/// The sum of two numbers, by `num256::Uint256`'s `+`, which panics where the
/// sum does not fit in 256 bits.
#[verifier::external_body]
fn bytes_sum(a: [u8; 32], b: [u8; 32]) -> (r: [u8; 32])
    requires
        be_value(a@) + be_value(b@) < uint256_limit(),
    ensures
        be_value(r@) == be_value(a@) + be_value(b@),
{
    (num256::Uint256::from(a) + num256::Uint256::from(b)).into()
}

/// The difference of two numbers, by `num256::Uint256`'s `-`, which panics where
/// the second number is the larger.
#[verifier::external_body]
fn bytes_difference(a: [u8; 32], b: [u8; 32]) -> (r: [u8; 32])
    requires
        be_value(b@) <= be_value(a@),
    ensures
        be_value(r@) == be_value(a@) - be_value(b@),
{
    (num256::Uint256::from(a) - num256::Uint256::from(b)).into()
}

/// Whether one number is at most another, by `num256::Uint256`'s `<=`.
#[verifier::external_body]
fn bytes_at_most(a: [u8; 32], b: [u8; 32]) -> (r: bool)
    ensures
        r == (be_value(a@) <= be_value(b@)),
{
    num256::Uint256::from(a) <= num256::Uint256::from(b)
}

impl Uint256 {
    /// The number `n`.
    pub fn from_u64(n: u64) -> (r: Uint256)
        ensures
            r@ == n,
    {
        Uint256 { bytes: bytes_of_u64(n) }
    }

    /// The sum of two numbers.
    pub fn plus(&self, other: &Uint256) -> (r: Uint256)
        requires
            self@ + other@ < uint256_limit(),
        ensures
            r@ == self@ + other@,
    {
        Uint256 { bytes: bytes_sum(self.bytes, other.bytes) }
    }

    /// What is left of this number after `other` is taken off.
    pub fn minus(&self, other: &Uint256) -> (r: Uint256)
        requires
            other@ <= self@,
        ensures
            r@ == self@ - other@,
    {
        Uint256 { bytes: bytes_difference(self.bytes, other.bytes) }
    }

    /// The largest number of 256 bits.
    pub fn max() -> (r: Uint256)
        ensures
            r@ == uint256_limit() - 1,
    {
        let r = Uint256 { bytes: [255u8; 32] };
        proof {
            lemma_be_value_max(r.bytes@);
        }
        r
    }

    /// Whether the sum of this number and `other` is a number of 256 bits.
    pub fn can_add(&self, other: &Uint256) -> (r: bool)
        ensures
            r == (self@ + other@ < uint256_limit()),
    {
        proof {
            lemma_uint256_bound(*other);
        }
        self.at_most(&Uint256::max().minus(other))
    }

    /// Whether this number is at most `other`.
    pub fn at_most(&self, other: &Uint256) -> (r: bool)
        ensures
            r == (self@ <= other@),
    {
        bytes_at_most(self.bytes, other.bytes)
    }
}

proof fn lemma_be_value_bound(bytes: Seq<u8>)
    ensures
        be_value(bytes) < pow(256, bytes.len()),
    decreases bytes.len(),
{
    vstd::arithmetic::power::lemma_pow0(256);
    if bytes.len() > 0 {
        lemma_be_value_bound(bytes.drop_last());
        reveal(pow);
        assert(pow(256, bytes.len()) == 256 * pow(256, (bytes.len() - 1) as nat));
    }
}

proof fn lemma_be_value_max(bytes: Seq<u8>)
    requires
        forall|i: int| 0 <= i < bytes.len() ==> #[trigger] bytes[i] == 255,
    ensures
        be_value(bytes) == pow(256, bytes.len()) - 1,
    decreases bytes.len(),
{
    vstd::arithmetic::power::lemma_pow0(256);
    if bytes.len() > 0 {
        assert forall|i: int| 0 <= i < bytes.drop_last().len() implies #[trigger] bytes.drop_last()[i]
            == 255 by {
            assert(bytes.drop_last()[i] == bytes[i]);
        }
        lemma_be_value_max(bytes.drop_last());
        reveal(pow);
        assert(pow(256, bytes.len()) == 256 * pow(256, (bytes.len() - 1) as nat));
    }
}

/// Every value of the type is below the limit.
pub proof fn lemma_uint256_bound(n: Uint256)
    ensures
        n@ < uint256_limit(),
{
    lemma_be_value_bound(n.bytes@);
}

proof fn lemma_be_value_injective(a: Seq<u8>, b: Seq<u8>)
    requires
        a.len() == b.len(),
        be_value(a) == be_value(b),
    ensures
        a == b,
    decreases a.len(),
{
    if a.len() > 0 {
        assert(a.last() == b.last() && be_value(a.drop_last()) == be_value(b.drop_last())) by {
            let (x, y) = (be_value(a.drop_last()) as int, be_value(b.drop_last()) as int);
            assert(x * 256 + a.last() == y * 256 + b.last());
        }
        lemma_be_value_injective(a.drop_last(), b.drop_last());
        assert(a == a.drop_last().push(a.last()));
        assert(b == b.drop_last().push(b.last()));
    } else {
        assert(a == b);
    }
}

/// Two values of the type that stand for the same number are the same value.
pub proof fn law_same_number_same_value(a: Uint256, b: Uint256)
    requires
        a@ == b@,
    ensures
        a == b,
{
    lemma_be_value_injective(a.bytes@, b.bytes@);
    assert(a.bytes == b.bytes);
}

/// Bytes are digits: one byte stands for itself, and bytes that stand before others
/// count as often as there are numbers that those others can stand for.
pub proof fn law_bytes_are_digits(byte: u8, high: Seq<u8>, low: Seq<u8>)
    ensures
        be_value(Seq::empty()) == 0,
        be_value(seq![byte]) == byte,
        be_value(high + low) == be_value(high) * pow(256, low.len()) + be_value(low),
    decreases low.len(),
{
    assert(seq![byte].drop_last() == Seq::<u8>::empty());
    assert(be_value(Seq::<u8>::empty()) == 0);
    vstd::arithmetic::power::lemma_pow0(256);
    if low.len() == 0 {
        assert(high + low == high);
    } else {
        let rest = low.drop_last();
        law_bytes_are_digits(byte, high, rest);
        assert((high + low).drop_last() == high + rest);
        assert((high + low).last() == low.last());
        reveal(pow);
        let (h, q, r) = (be_value(high) as int, pow(256, rest.len()), be_value(rest) as int);
        assert(pow(256, low.len()) == 256 * q);
        assert((h * q + r) * 256 == h * (256 * q) + r * 256) by (nonlinear_arith);
    }
}

/// The numbers of the type are those of 256 bits: the limit is two to the power of 256.
pub proof fn law_limit_is_256_bits()
    ensures
        uint256_limit() == pow(2, 256),
{
    reveal_with_fuel(pow, 9);
    assert(pow(2, 8) == 256);
    vstd::arithmetic::power::lemma_pow_multiplies(2, 8, 32);
    vstd::arithmetic::power::lemma_pow_positive(256, 32);
}

} // verus!
