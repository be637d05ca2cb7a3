use klvm_traits::int_codec::{signed_atom, signed_from_atom, unsigned_atom, unsigned_from_atom};
use klvm_traits::{simplify_int_bytes, FromKlvmError};

#[test]
fn simplify_strips_spare_zero_bytes() {
    assert_eq!(simplify_int_bytes(&[0, 0, 5]), &[5]);
    assert_eq!(simplify_int_bytes(&[0, 0, 0]), &[] as &[u8]);
    assert_eq!(simplify_int_bytes(&[0]), &[] as &[u8]);
    assert_eq!(simplify_int_bytes(&[]), &[] as &[u8]);
    assert_eq!(simplify_int_bytes(&[0, 0x7f]), &[0x7f]);
    assert_eq!(simplify_int_bytes(&[0, 1, 0]), &[1, 0]);
}

#[test]
fn simplify_keeps_the_zero_byte_that_carries_the_sign() {
    assert_eq!(simplify_int_bytes(&[0, 0x80]), &[0, 0x80]);
    assert_eq!(simplify_int_bytes(&[0, 0, 0x80, 0]), &[0, 0x80, 0]);
    assert_eq!(simplify_int_bytes(&[0, 0xff]), &[0, 0xff]);
}

#[test]
fn simplify_leaves_other_bytes_alone() {
    assert_eq!(simplify_int_bytes(&[0x80]), &[0x80]);
    assert_eq!(simplify_int_bytes(&[0xff, 0xff]), &[0xff, 0xff]);
    assert_eq!(simplify_int_bytes(&[1, 0, 0]), &[1, 0, 0]);
    assert_eq!(simplify_int_bytes(&[5]), &[5]);
}

#[test]
fn signed_atom_is_the_shortest_twos_complement() {
    assert_eq!(signed_atom(0), Vec::<u8>::new());
    assert_eq!(signed_atom(5), vec![0x05]);
    assert_eq!(signed_atom(-27), vec![0xe5]);
    assert_eq!(signed_atom(-128), vec![0x80]);
    assert_eq!(signed_atom(127), vec![0x7f]);
    assert_eq!(signed_atom(128), vec![0x00, 0x80]);
    assert_eq!(signed_atom(255), vec![0x00, 0xff]);
    assert_eq!(signed_atom(256), vec![0x01, 0x00]);
    assert_eq!(signed_atom(300), vec![0x01, 0x2c]);
    assert_eq!(signed_atom(-1), vec![0xff]);
    assert_eq!(signed_atom(-129), vec![0xff, 0x7f]);
    assert_eq!(signed_atom(-256), vec![0xff, 0x00]);
    assert_eq!(signed_atom(-72), vec![0xb8]);
    assert_eq!(signed_atom(90121), vec![0x01, 0x60, 0x09]);
    assert_eq!(signed_atom(-1125), vec![251, 155]);
    let mut lowest = vec![0x80];
    lowest.extend([0u8; 15]);
    assert_eq!(signed_atom(i128::MIN), lowest);
    let mut highest = vec![0x7f];
    highest.extend([0xffu8; 15]);
    assert_eq!(signed_atom(i128::MAX), highest);
}

#[test]
fn unsigned_atom_has_a_zero_byte_where_the_top_bit_is_set() {
    assert_eq!(unsigned_atom(0), Vec::<u8>::new());
    assert_eq!(unsigned_atom(5), vec![0x05]);
    assert_eq!(unsigned_atom(127), vec![0x7f]);
    assert_eq!(unsigned_atom(128), vec![0x00, 0x80]);
    assert_eq!(unsigned_atom(255), vec![0x00, 0xff]);
    assert_eq!(unsigned_atom(65535), vec![0x00, 0xff, 0xff]);
    let mut highest = vec![0x00];
    highest.extend([0xffu8; 16]);
    assert_eq!(unsigned_atom(u128::MAX), highest);
}

#[test]
fn signed_from_atom_reads_canonical_atoms() {
    assert_eq!(signed_from_atom(&[], 1), Ok(0));
    assert_eq!(signed_from_atom(&[0x05], 4), Ok(5));
    assert_eq!(signed_from_atom(&[0xe5], 4), Ok(-27));
    assert_eq!(signed_from_atom(&[0x80], 1), Ok(-128));
    assert_eq!(signed_from_atom(&[0x7f], 1), Ok(127));
    assert_eq!(signed_from_atom(&[0x01, 0x60, 0x09], 4), Ok(90121));
    assert_eq!(signed_from_atom(&[0xff, 0x7f], 2), Ok(-129));
    let mut lowest = vec![0x80];
    lowest.extend([0u8; 15]);
    assert_eq!(signed_from_atom(&lowest, 16), Ok(i128::MIN));
    let mut highest = vec![0x7f];
    highest.extend([0xffu8; 15]);
    assert_eq!(signed_from_atom(&highest, 16), Ok(i128::MAX));
}

#[test]
fn signed_from_atom_takes_spare_sign_bytes() {
    // Spare sign bytes do not count: only the integer must be in range.
    assert_eq!(signed_from_atom(&[0x00, 0x00, 0x05], 1), Ok(5));
    assert_eq!(signed_from_atom(&[0xff, 0xff, 0xe5], 1), Ok(-27));
    assert_eq!(signed_from_atom(&[0x00, 0x7f], 1), Ok(127));
    assert_eq!(signed_from_atom(&[0xff, 0x80], 1), Ok(-128));
    assert_eq!(signed_from_atom(&[0x00, 0x80], 2), Ok(128));
    assert_eq!(signed_from_atom(&[0x00, 0x00, 0x00], 1), Ok(0));
}

#[test]
fn signed_from_atom_refuses_an_integer_out_of_range() {
    let wrong = |expected, found| Err(FromKlvmError::WrongAtomLength { expected, found });
    // 128 and 255 need a second byte for the sign.
    assert_eq!(signed_from_atom(&[0x00, 0x80], 1), wrong(1, 2));
    assert_eq!(signed_from_atom(&[0x00, 0xff], 1), wrong(1, 2));
    // So do -129 and -255.
    assert_eq!(signed_from_atom(&[0xff, 0x7f], 1), wrong(1, 2));
    assert_eq!(signed_from_atom(&[0xff, 0x01], 1), wrong(1, 2));
    assert_eq!(signed_from_atom(&[0x00, 0x80, 0x00], 2), wrong(2, 3));
    assert_eq!(signed_from_atom(&[0xff, 0x7f, 0xff], 2), wrong(2, 3));
    assert_eq!(signed_from_atom(&[0x00, 0x00, 0x00, 0x80], 1), wrong(1, 4));
    let mut above = vec![0x00, 0x80];
    above.extend([0u8; 15]);
    assert_eq!(signed_from_atom(&above, 16), wrong(16, 17));
    let mut below = vec![0xff, 0x7f];
    below.extend([0xffu8; 15]);
    assert_eq!(signed_from_atom(&below, 16), wrong(16, 17));
}

#[test]
fn signed_from_atom_refuses_an_integer_that_is_too_long() {
    assert_eq!(
        signed_from_atom(&[0x01, 0x00], 1),
        Err(FromKlvmError::WrongAtomLength {
            expected: 1,
            found: 2
        })
    );
    assert_eq!(
        signed_from_atom(&[0xff, 0x00], 1),
        Err(FromKlvmError::WrongAtomLength {
            expected: 1,
            found: 2
        })
    );
    assert_eq!(
        signed_from_atom(&[0x01, 0x00, 0x00, 0x00, 0x00], 4),
        Err(FromKlvmError::WrongAtomLength {
            expected: 4,
            found: 5
        })
    );
    assert_eq!(
        signed_from_atom(&[0x00, 0x00, 0x01, 0x00, 0x00, 0x00, 0x00], 4),
        Err(FromKlvmError::WrongAtomLength {
            expected: 4,
            found: 7
        })
    );
}

#[test]
fn unsigned_from_atom_reads_what_is_in_range() {
    assert_eq!(unsigned_from_atom(&[], 1), Ok(0));
    assert_eq!(unsigned_from_atom(&[0x05], 1), Ok(5));
    assert_eq!(unsigned_from_atom(&[0x00, 0xff], 1), Ok(255));
    assert_eq!(unsigned_from_atom(&[0x00, 0x80], 1), Ok(128));
    assert_eq!(unsigned_from_atom(&[0x00, 0x00, 0x80], 1), Ok(128));
    let mut highest = vec![0x00];
    highest.extend([0xffu8; 16]);
    assert_eq!(unsigned_from_atom(&highest, 16), Ok(u128::MAX));
}

#[test]
fn unsigned_from_atom_reads_a_negative_integer_by_its_bytes() {
    // A negative integer of the width stands for the unsigned integer with the same bytes.
    assert_eq!(unsigned_from_atom(&[0xff], 1), Ok(255));
    assert_eq!(unsigned_from_atom(&[0x80], 1), Ok(128));
    assert_eq!(unsigned_from_atom(&[0xff, 0x80], 1), Ok(128));
    assert_eq!(unsigned_from_atom(&[0xe5], 4), Ok(4294967269));
    assert_eq!(unsigned_from_atom(&[0xff], 16), Ok(u128::MAX));
    assert_eq!(unsigned_from_atom(&[0x80, 0x00], 2), Ok(32768));
    // Below the two's-complement range there are no such bytes.
    let wrong = |expected, found| Err(FromKlvmError::WrongAtomLength { expected, found });
    assert_eq!(unsigned_from_atom(&[0xff, 0x7f], 1), wrong(1, 2));
    assert_eq!(unsigned_from_atom(&[0xff, 0x01], 1), wrong(1, 2));
    assert_eq!(unsigned_from_atom(&[0xff, 0x00], 1), wrong(1, 2));
    assert_eq!(unsigned_from_atom(&[0xff, 0x7f, 0xff], 2), wrong(2, 3));
}

#[test]
fn unsigned_from_atom_refuses_an_integer_that_is_too_long() {
    assert_eq!(
        unsigned_from_atom(&[0x01, 0x00], 1),
        Err(FromKlvmError::WrongAtomLength {
            expected: 1,
            found: 2
        })
    );
    let mut too_long = vec![0x01];
    too_long.extend([0u8; 16]);
    assert_eq!(
        unsigned_from_atom(&too_long, 16),
        Err(FromKlvmError::WrongAtomLength {
            expected: 16,
            found: 17
        })
    );
}

#[test]
fn atoms_of_all_small_integers_read_back() {
    let mut value: i128 = -70000;
    while value <= 70000 {
        let atom = signed_atom(value);
        assert_eq!(signed_from_atom(&atom, 4), Ok(value));
        if value >= 0 {
            assert_eq!(unsigned_atom(value as u128), atom);
            assert_eq!(unsigned_from_atom(&atom, 4), Ok(value as u128));
        }
        let next = signed_atom(value + 1);
        assert_ne!(atom, next);
        value += 1;
    }
}
