//! The boundary to `num_bigint`: the mathematical value of a `BigUint`, the
//! big-endian byte encoding of natural numbers, and the contracts assumed of
//! the `BigUint` operations that the protocol uses.

use num_bigint::BigUint;
use vstd::arithmetic::power::pow;
use vstd::prelude::*;

verus! {

#[verifier::external_type_specification]
#[verifier::external_body]
pub struct ExBigUint(num_bigint::BigUint);

/// The natural number that a `BigUint` holds.
pub uninterp spec fn value_of(n: &BigUint) -> nat;

/// `base` raised to `exp`, reduced modulo `modulus`.
pub open spec fn mod_pow(base: nat, exp: nat, modulus: nat) -> nat {
    (pow(base as int, exp) % (modulus as int)) as nat
}

/// The number that `bytes` spell in base 256, most significant byte first.
/// The empty sequence spells zero.
pub open spec fn be_value(bytes: Seq<u8>) -> nat
    decreases bytes.len(),
{
    if bytes.len() == 0 {
        0
    } else {
        be_value(bytes.drop_last()) * 256 + bytes.last() as nat
    }
}

/// The shortest big-endian spelling of `n`; zero is the single byte `0`.
pub open spec fn be_bytes(n: nat) -> Seq<u8>
    decreases n,
{
    if n < 256 {
        seq![n as u8]
    } else {
        be_bytes(n / 256).push((n % 256) as u8)
    }
}

/// A byte string is minimal when it is not empty and, unless it is a single
/// byte, does not start with a zero byte.
pub open spec fn is_minimal(bytes: Seq<u8>) -> bool {
    bytes.len() >= 1 && (bytes.len() == 1 || bytes[0] != 0)
}

/// Encoding a number and decoding the bytes gives the number back.
pub proof fn lemma_encode_then_decode(n: nat)
    ensures
        be_value(be_bytes(n)) == n,
    decreases n,
{
    if n < 256 {
        let s = seq![n as u8];
        assert(s.drop_last().len() == 0);
        assert(be_value(s.drop_last()) == 0);
    } else {
        lemma_encode_then_decode(n / 256);
        let s = be_bytes(n / 256).push((n % 256) as u8);
        assert(s.drop_last() =~= be_bytes(n / 256));
        assert(s.last() == (n % 256) as u8);
    }
}

/// The encoding of a number is minimal.
pub proof fn lemma_encoding_is_minimal(n: nat)
    ensures
        is_minimal(be_bytes(n)),
        n >= 256 ==> be_bytes(n)[0] != 0,
        n >= 256 ==> be_bytes(n).len() >= 2,
    decreases n,
{
    if n >= 256 {
        lemma_encoding_is_minimal(n / 256);
        let head = be_bytes(n / 256);
        if n / 256 < 256 {
            assert(head[0] == (n / 256) as u8);
        }
        assert(head.push((n % 256) as u8)[0] == head[0]);
    }
}

/// A byte string that starts with a non-zero byte spells a number of at
/// least 256 to the power of its length less one; in particular it is not zero.
pub proof fn lemma_leading_byte_bounds(bytes: Seq<u8>)
    requires
        bytes.len() >= 1,
        bytes[0] != 0,
    ensures
        be_value(bytes) >= 1,
        bytes.len() >= 2 ==> be_value(bytes) >= 256,
    decreases bytes.len(),
{
    if bytes.len() == 1 {
        assert(bytes.drop_last().len() == 0);
        assert(be_value(bytes.drop_last()) == 0);
        assert(bytes.last() == bytes[0]);
    } else {
        assert(bytes.drop_last()[0] == bytes[0]);
        lemma_leading_byte_bounds(bytes.drop_last());
    }
}

/// Decoding a minimal byte string and encoding the number gives the bytes back.
pub proof fn lemma_decode_then_encode(bytes: Seq<u8>)
    requires
        is_minimal(bytes),
    ensures
        be_bytes(be_value(bytes)) == bytes,
    decreases bytes.len(),
{
    if bytes.len() == 1 {
        assert(bytes.drop_last().len() == 0);
        assert(be_value(bytes.drop_last()) == 0);
        assert(be_value(bytes) == bytes[0] as nat);
        assert(be_bytes(be_value(bytes)) =~= bytes);
    } else {
        let init = bytes.drop_last();
        assert(init[0] == bytes[0]);
        lemma_leading_byte_bounds(init);
        lemma_decode_then_encode(init);
        let n = be_value(bytes);
        assert(n == be_value(init) * 256 + bytes.last() as nat);
        assert(n / 256 == be_value(init));
        assert(n % 256 == bytes.last() as nat);
        assert(be_bytes(n) == be_bytes(n / 256).push((n % 256) as u8));
        assert(init.push(bytes.last()) =~= bytes);
    }
}

/// Calls `BigUint::from_bytes_be`, which reads its argument as a base-256
/// numeral, most significant byte first, and reads no bytes as zero.
#[verifier::external_body]
pub(crate) fn big_from_bytes_be(bytes: &[u8]) -> (r: BigUint)
    ensures
        value_of(&r) == be_value(bytes@),
{
    BigUint::from_bytes_be(bytes)
}

/// Calls `BigUint::to_bytes_be`, which writes the number in base 256, most
/// significant byte first, without leading zero bytes, and zero as one byte.
#[verifier::external_body]
pub(crate) fn big_to_bytes_be(n: &BigUint) -> (r: Vec<u8>)
    ensures
        r@ == be_bytes(value_of(n)),
{
    n.to_bytes_be()
}

/// Calls `BigUint::from` on a `u32`, which keeps the number.
#[verifier::external_body]
pub(crate) fn big_from_u32(n: u32) -> (r: BigUint)
    ensures
        value_of(&r) == n as nat,
{
    BigUint::from(n)
}

/// Calls `BigUint::clone`, which copies the number.
#[verifier::external_body]
pub(crate) fn big_clone(n: &BigUint) -> (r: BigUint)
    ensures
        value_of(&r) == value_of(n),
{
    n.clone()
}

/// Calls `BigUint::modpow`, documented to return `(self ^ exponent) % modulus`
/// and to panic on a zero modulus.
#[verifier::external_body]
pub(crate) fn big_modpow(base: &BigUint, exp: &BigUint, modulus: &BigUint) -> (r: BigUint)
    requires
        value_of(modulus) > 0,
    ensures
        value_of(&r) == mod_pow(value_of(base), value_of(exp), value_of(modulus)),
{
    base.modpow(exp, modulus)
}

/// Multiplies two `BigUint`s with the `*` of `num_bigint`; the product is exact.
#[verifier::external_body]
pub(crate) fn big_mul(a: &BigUint, b: &BigUint) -> (r: BigUint)
    ensures
        value_of(&r) == value_of(a) * value_of(b),
{
    a * b
}

/// Subtracts with the `-` of `num_bigint`, which panics when the result would
/// be negative and is exact otherwise.
#[verifier::external_body]
pub(crate) fn big_sub(a: &BigUint, b: &BigUint) -> (r: BigUint)
    requires
        value_of(a) >= value_of(b),
    ensures
        value_of(&r) == value_of(a) - value_of(b),
{
    a - b
}

/// Compares with the `>=` of `num_bigint`, which orders `BigUint`s as numbers.
#[verifier::external_body]
pub(crate) fn big_ge(a: &BigUint, b: &BigUint) -> (r: bool)
    ensures
        r == (value_of(a) >= value_of(b)),
{
    a >= b
}

/// Compares with the `==` of `num_bigint`: two `BigUint`s are equal exactly
/// when they hold the same number.
#[verifier::external_body]
pub(crate) fn big_eq(a: &BigUint, b: &BigUint) -> (r: bool)
    ensures
        r == (value_of(a) == value_of(b)),
{
    a == b
}

} // verus!
