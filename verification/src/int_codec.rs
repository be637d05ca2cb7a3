//! The canonical integer codec: the shortest big-endian two's-complement bytes.

use num_bigint::{BigInt, Sign};
use vstd::arithmetic::power::{lemma_pow0, lemma_pow1, lemma_pow_adds, lemma_pow_positive, pow};
use vstd::prelude::*;
use vstd::slice::{slice_subrange, slice_to_vec};
use crate::error::{DecodeFailure, FromKlvmError};

verus! {

/// The integer that `bytes` hold in big-endian two's complement. No bytes hold zero.
pub open spec fn atom_int(bytes: Seq<u8>) -> int
    decreases bytes.len(),
{
    if bytes.len() == 0 {
        0
    } else if bytes.len() == 1 {
        if bytes[0] < 128 { bytes[0] as int } else { bytes[0] - 256 }
    } else {
        256 * atom_int(bytes.drop_last()) + bytes.last()
    }
}

/// The natural number that `bytes` hold in big-endian base 256.
pub open spec fn be_nat(bytes: Seq<u8>) -> nat
    decreases bytes.len(),
{
    if bytes.len() == 0 {
        0
    } else {
        256 * be_nat(bytes.drop_last()) + bytes.last() as nat
    }
}

/// The shortest two's-complement bytes of `n`, with one zero byte for zero.
pub open spec fn twos_complement_be(n: int) -> Seq<u8>
    decreases (if n < 0 { -n } else { n }),
{
    if -128 <= n < 128 {
        seq![(n % 256) as u8]
    } else {
        twos_complement_be(n / 256).push((n % 256) as u8)
    }
}

/// The shortest base-256 digits of `m`, with one zero byte for zero.
pub open spec fn magnitude_be(m: nat) -> Seq<u8>
    decreases m,
{
    if m < 256 {
        seq![m as u8]
    } else {
        magnitude_be(m / 256).push((m % 256) as u8)
    }
}

/// The canonical atom of `n`: no bytes for zero, else the shortest two's complement.
pub open spec fn canonical_int(n: int) -> Seq<u8> {
    if n == 0 { Seq::empty() } else { twos_complement_be(n) }
}

/// Whether `bytes` start with a zero byte that can go without changing the sign.
pub open spec fn has_spare_zero(bytes: Seq<u8>) -> bool {
    bytes.len() > 0 && bytes[0] == 0 && !(bytes.len() > 1 && bytes[1] >= 128)
}

/// `bytes` without the leading zero bytes that can go.
pub open spec fn simplified(bytes: Seq<u8>) -> Seq<u8>
    decreases bytes.len(),
{
    if has_spare_zero(bytes) {
        simplified(bytes.drop_first())
    } else {
        bytes
    }
}

/// Strips the leading zero bytes that the sign does not need.
pub fn simplify_int_bytes(slice: &[u8]) -> (r: &[u8])
    ensures
        r@ == simplified(slice@),
{
    let mut rest = slice;
    while !rest.is_empty() && rest[0] == 0
        invariant
            simplified(rest@) == simplified(slice@),
        ensures
            rest@ == simplified(slice@),
        decreases rest@.len(),
    {
        if rest.len() > 1 && (rest[1] & 0x80 == 0x80) {
            let next = rest[1];
            assert(next & 0x80 == 0x80 ==> next >= 128) by (bit_vector);
            break ;
        }
        proof {
            if rest.len() > 1 {
                let next = rest[1];
                assert(next & 0x80 != 0x80 ==> next < 128) by (bit_vector);
            }
            assert(has_spare_zero(rest@));
            assert(rest@.subrange(1, rest@.len() as int) == rest@.drop_first());
        }
        rest = slice_subrange(rest, 1, rest.len());
    }
    rest
}

/// The absolute value of `n`.
pub open spec fn magnitude(n: int) -> nat {
    if n < 0 { (-n) as nat } else { n as nat }
}

/// Whether `n` is in the range of a two's-complement integer of `len` bytes.
pub open spec fn fits_signed(n: int, len: nat) -> bool {
    -pow(256, len) <= 2 * n < pow(256, len)
}

/// Whether `n` can be read as an unsigned integer of `len` bytes: it is in
/// the unsigned range, or it is negative and in the two's-complement range.
pub open spec fn fits_unsigned(n: int, len: nat) -> bool {
    -pow(256, len) <= 2 * n && n < pow(256, len)
}

/// `n` as an unsigned integer of `len` bytes: itself, or where it is
/// negative, the unsigned reading of its two's complement in `len` bytes.
pub open spec fn unsigned_reading(n: int, len: nat) -> int {
    if n < 0 { n + pow(256, len) } else { n }
}

/// The powers of 256 at the widths of the native integers.
pub proof fn lemma_pow256()
    ensures
        pow(256, 0) == 1,
        pow(256, 1) == 0x100,
        pow(256, 2) == 0x1_0000,
        pow(256, 4) == 0x1_0000_0000,
        pow(256, 8) == 0x1_0000_0000_0000_0000,
        pow(256, 16) == 0x1_0000_0000_0000_0000_0000_0000_0000_0000,
{
    lemma_pow0(256);
    lemma_pow1(256);
    lemma_pow_adds(256, 1, 1);
    assert(pow(256, 2) == 0x100 * 0x100);
    lemma_pow_adds(256, 2, 2);
    assert(pow(256, 4) == 0x1_0000 * 0x1_0000);
    lemma_pow_adds(256, 4, 4);
    assert(pow(256, 8) == 0x1_0000_0000 * 0x1_0000_0000);
    lemma_pow_adds(256, 8, 8);
    assert(pow(256, 16) == 0x1_0000_0000_0000_0000 * 0x1_0000_0000_0000_0000);
}

/// One more byte multiplies the range by 256.
pub proof fn lemma_pow256_step(len: nat)
    ensures
        pow(256, len + 1) == 256 * pow(256, len),
        pow(256, len) > 0,
{
    lemma_pow1(256);
    lemma_pow_adds(256, 1, len);
    lemma_pow_positive(256, len);
}

/// More bytes give a range that is at least as large.
pub proof fn lemma_pow256_grows(small: nat, large: nat)
    requires
        small <= large,
    ensures
        0 < pow(256, small) <= pow(256, large),
    decreases large - small,
{
    lemma_pow256_step(small);
    if small < large {
        lemma_pow256_grows(small + 1, large);
    }
}

/// The two's complement of `n` has at least one byte and holds `n`.
pub proof fn lemma_twos_complement_value(n: int)
    ensures
        twos_complement_be(n).len() >= 1,
        atom_int(twos_complement_be(n)) == n,
    decreases magnitude(n),
{
    if -128 <= n < 128 {
    } else {
        lemma_twos_complement_value(n / 256);
        let bytes = twos_complement_be(n);
        assert(bytes.drop_last() == twos_complement_be(n / 256));
    }
}

/// The two's complement of a number other than zero has no zero byte to spare.
pub proof fn lemma_twos_complement_shortest(n: int)
    requires
        n != 0,
    ensures
        !has_spare_zero(twos_complement_be(n)),
    decreases magnitude(n),
{
    if -128 <= n < 128 {
    } else {
        let q = n / 256;
        lemma_twos_complement_value(q);
        if q != 0 {
            lemma_twos_complement_shortest(q);
        }
    }
}

/// Simplifying the two's complement of `n` gives the canonical atom of `n`.
pub proof fn lemma_simplified_twos_complement(n: int)
    ensures
        simplified(twos_complement_be(n)) == canonical_int(n),
{
    if n == 0 {
        let zero = twos_complement_be(0);
        assert(has_spare_zero(zero));
        assert(zero.drop_first() == Seq::<u8>::empty());
        assert(simplified(zero) == simplified(zero.drop_first()));
        assert(simplified(Seq::<u8>::empty()) == Seq::<u8>::empty());
    } else {
        lemma_twos_complement_shortest(n);
    }
}

/// The canonical atom of `n` holds `n`.
pub proof fn lemma_canonical_int_value(n: int)
    ensures
        atom_int(canonical_int(n)) == n,
{
    if n != 0 {
        lemma_twos_complement_value(n);
    }
}

/// The digits of `m` have at least one byte and hold `m`.
pub proof fn lemma_magnitude_value(m: nat)
    ensures
        magnitude_be(m).len() >= 1,
        be_nat(magnitude_be(m)) == m,
    decreases m,
{
    if m < 256 {
        let digits = magnitude_be(m);
        assert(digits.drop_last() == Seq::<u8>::empty());
        assert(be_nat(digits.drop_last()) == 0);
    } else {
        lemma_magnitude_value(m / 256);
        assert(magnitude_be(m).drop_last() == magnitude_be(m / 256));
    }
}

/// The digits of `m` take at most `len` bytes exactly when `m` is below 256 to the `len`.
pub proof fn lemma_magnitude_len(m: nat, len: nat)
    requires
        len >= 1,
    ensures
        magnitude_be(m).len() <= len <==> m < pow(256, len),
    decreases m,
{
    lemma_pow256();
    if m < 256 {
        lemma_pow256_grows(1, len);
    } else {
        lemma_magnitude_value(m / 256);
        if len == 1 {
        } else {
            lemma_magnitude_len(m / 256, (len - 1) as nat);
            lemma_pow256_step((len - 1) as nat);
        }
    }
}

/// Bytes in base 256 hold less than 256 to their number.
pub proof fn lemma_be_nat_bound(bytes: Seq<u8>)
    ensures
        be_nat(bytes) < pow(256, bytes.len()),
    decreases bytes.len(),
{
    if bytes.len() == 0 {
        lemma_pow0(256);
    } else {
        lemma_be_nat_bound(bytes.drop_last());
        lemma_pow256_step(bytes.drop_last().len());
    }
}

/// `BigInt::from` an `i128`, then `BigInt::to_signed_bytes_be`, of num_bigint:
/// the shortest big-endian two's complement of `value`, one zero byte for zero.
#[verifier::external_body]
fn signed_bytes_be(value: i128) -> (bytes: Vec<u8>)
    ensures
        bytes@ == twos_complement_be(value as int),
{
    BigInt::from(value).to_signed_bytes_be()
}

/// `BigInt::from` a `u128`, then `BigInt::to_signed_bytes_be`, of num_bigint:
/// the shortest big-endian two's complement of `value`, one zero byte for zero.
#[verifier::external_body]
fn unsigned_bytes_be(value: u128) -> (bytes: Vec<u8>)
    ensures
        bytes@ == twos_complement_be(value as int),
{
    BigInt::from(value).to_signed_bytes_be()
}

/// `BigInt::from_signed_bytes_be`, then `BigInt::to_bytes_be`, of num_bigint:
/// whether the two's complement in `bytes` is negative, and the shortest
/// base-256 digits of its magnitude, one zero byte for zero.
#[verifier::external_body]
fn sign_and_magnitude(bytes: &[u8]) -> (r: (bool, Vec<u8>))
    ensures
        r.0 == (atom_int(bytes@) < 0),
        r.1@ == magnitude_be(magnitude(atom_int(bytes@))),
{
    let (sign, digits) = BigInt::from_signed_bytes_be(bytes).to_bytes_be();
    match sign {
        Sign::Minus => (true, digits),
        Sign::NoSign => (false, digits),
        Sign::Plus => (false, digits),
    }
}

/// The canonical atom of a signed integer.
pub fn signed_atom(value: i128) -> (bytes: Vec<u8>)
    ensures
        bytes@ == canonical_int(value as int),
{
    let full = signed_bytes_be(value);
    proof {
        lemma_simplified_twos_complement(value as int);
    }
    slice_to_vec(simplify_int_bytes(full.as_slice()))
}

/// The canonical atom of an unsigned integer.
pub fn unsigned_atom(value: u128) -> (bytes: Vec<u8>)
    ensures
        bytes@ == canonical_int(value as int),
{
    let full = unsigned_bytes_be(value);
    proof {
        lemma_simplified_twos_complement(value as int);
    }
    slice_to_vec(simplify_int_bytes(full.as_slice()))
}

/// The number that `digits` hold in base 256.
fn digits_value(digits: &[u8]) -> (value: u128)
    requires
        digits.len() <= 16,
    ensures
        value == be_nat(digits@),
{
    let mut value: u128 = 0;
    let mut i: usize = 0;
    assert(digits@.take(0) == Seq::<u8>::empty());
    while i < digits.len()
        invariant
            i <= digits.len() <= 16,
            value == be_nat(digits@.take(i as int)),
        decreases digits.len() - i,
    {
        proof {
            let seen = digits@.take(i as int + 1);
            assert(seen.drop_last() == digits@.take(i as int));
            lemma_be_nat_bound(digits@.take(i as int));
            lemma_pow256_grows(i as nat, 15);
            lemma_pow256_step(15);
            lemma_pow256();
        }
        value = value * 256 + digits[i] as u128;
        i = i + 1;
    }
    assert(digits@.take(digits.len() as int) == digits@);
    value
}

/// The largest unsigned integer of `len` bytes.
fn unsigned_max(len: usize) -> (max: u128)
    requires
        1 <= len <= 16,
    ensures
        max == pow(256, len as nat) - 1,
{
    let mut max: u128 = 0;
    let mut i: usize = 0;
    proof {
        lemma_pow256();
    }
    while i < len
        invariant
            i <= len <= 16,
            max == pow(256, i as nat) - 1,
        decreases len - i,
    {
        proof {
            lemma_pow256_step(i as nat);
            lemma_pow256_grows(i as nat, 15);
            lemma_pow256_step(15);
            lemma_pow256();
        }
        max = max * 256 + 255;
        i = i + 1;
    }
    max
}

/// The sign and the magnitude of the integer in `bytes`, where the
/// magnitude can be written in `len` bytes.
fn sign_and_size(bytes: &[u8], len: usize) -> (r: Option<(bool, u128)>)
    requires
        1 <= len <= 16,
    ensures
        match r {
            Some((negative, size)) => negative == (atom_int(bytes@) < 0) && size == magnitude(
                atom_int(bytes@),
            ) && size < pow(256, len as nat),
            None => magnitude(atom_int(bytes@)) >= pow(256, len as nat),
        },
{
    let ghost n = atom_int(bytes@);
    let (negative, digits) = sign_and_magnitude(bytes);
    proof {
        lemma_magnitude_len(magnitude(n), len as nat);
        lemma_magnitude_value(magnitude(n));
    }
    if digits.len() > len {
        None
    } else {
        Some((negative, digits_value(digits.as_slice())))
    }
}

/// Reads an atom as an unsigned integer of `len` bytes.
///
/// The atom is taken as two's complement. What it holds must be in the
/// unsigned range of `len` bytes, or negative and in the two's-complement
/// range of `len` bytes; a negative integer is then read as the unsigned
/// integer with the same `len` bytes. Any other atom is refused.
pub fn unsigned_from_atom(bytes: &[u8], len: usize) -> (r: Result<u128, FromKlvmError>)
    requires
        1 <= len <= 16,
    ensures
        match r {
            Ok(value) => fits_unsigned(atom_int(bytes@), len as nat) && value == unsigned_reading(
                atom_int(bytes@),
                len as nat,
            ),
            Err(e) => !fits_unsigned(atom_int(bytes@), len as nat) && e@
                == (DecodeFailure::WrongAtomLength { expected: len as nat, found: bytes@.len() }),
        },
{
    let max = unsigned_max(len);
    proof {
        lemma_pow256_step((len - 1) as nat);
    }
    match sign_and_size(bytes, len) {
        Some((false, size)) => Ok(size),
        Some((true, size)) => if size <= max / 2 + 1 {
            Ok(max - size + 1)
        } else {
            Err(FromKlvmError::WrongAtomLength { expected: len, found: bytes.len() })
        },
        None => Err(FromKlvmError::WrongAtomLength { expected: len, found: bytes.len() }),
    }
}

/// Reads an atom as a two's-complement integer of `len` bytes.
///
/// What the atom holds must be in the two's-complement range of `len` bytes
/// and is returned as it is. Any other atom is refused, however many spare
/// bytes it has or lacks.
pub fn signed_from_atom(bytes: &[u8], len: usize) -> (r: Result<i128, FromKlvmError>)
    requires
        1 <= len <= 16,
    ensures
        match r {
            Ok(value) => fits_signed(atom_int(bytes@), len as nat) && value == atom_int(bytes@),
            Err(e) => !fits_signed(atom_int(bytes@), len as nat) && e@
                == (DecodeFailure::WrongAtomLength { expected: len as nat, found: bytes@.len() }),
        },
{
    let max = unsigned_max(len);
    proof {
        lemma_pow256_step((len - 1) as nat);
        lemma_pow256_grows(len as nat, 16);
        lemma_pow256();
    }
    match sign_and_size(bytes, len) {
        Some((false, size)) => if size <= max / 2 {
            Ok(size as i128)
        } else {
            Err(FromKlvmError::WrongAtomLength { expected: len, found: bytes.len() })
        },
        Some((true, size)) => if size <= max / 2 + 1 {
            let below = (size - 1) as i128;
            Ok(-below - 1)
        } else {
            Err(FromKlvmError::WrongAtomLength { expected: len, found: bytes.len() })
        },
        None => Err(FromKlvmError::WrongAtomLength { expected: len, found: bytes.len() }),
    }
}

} // verus!
