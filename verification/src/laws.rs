//! What holds of writing a value and reading it back.

use vstd::layout::{layout_of_primitives, size_of, unsigned_int_max_values};
use vstd::arithmetic::power::pow;
use vstd::prelude::*;
use vstd::utf8::{encode_utf8_decode_utf8, encode_utf8_valid_utf8};
use crate::bls::{public_key_defect, signature_defect, PublicKey, Signature};
use crate::error::{DecodeFailure, FromKlvmError};
use crate::from_klvm::{array_failure, decodes_items, list_failure, spine, FromKlvm};
use crate::int_codec::{
    atom_int,
    be_nat,
    canonical_int,
    has_spare_zero,
    fits_signed,
    fits_unsigned,
    lemma_canonical_int_value,
    lemma_pow256,
    lemma_pow256_grows,
    lemma_pow256_step,
    simplified,
    twos_complement_be,
    unsigned_reading,
};
use crate::to_klvm::{shapes, ToKlvm};
use crate::tree::Tree;

verus! {

/// Whether reading the tree of `value` succeeds and gives `value` back, and
/// nothing that differs from it.
pub open spec fn round_trips<N, T: ToKlvm<N> + FromKlvm<N> + DeepView>(value: T) -> bool {
    &&& T::failure(value.shape()) is None
    &&& T::decodes(value.shape(), value)
    &&& forall|other: T| #[trigger]
        T::decodes(value.shape(), other) ==> other.deep_view() == value.deep_view()
}

/// What `from_klvm` returns on a node that holds the tree of a value that
/// round-trips is that value.
pub proof fn lemma_read_back<N, T: ToKlvm<N> + FromKlvm<N> + DeepView>(
    value: T,
    read: Result<T, FromKlvmError>,
)
    requires
        round_trips::<N, T>(value),
        match read {
            Ok(found) => T::failure(value.shape()) is None && T::decodes(value.shape(), found),
            Err(e) => T::failure(value.shape()) == Some(e@),
        },
    ensures
        read matches Ok(found) && found.deep_view() == value.deep_view(),
{
}

/// Zero is written as the empty atom.
pub proof fn lemma_zero_is_nil()
    ensures
        canonical_int(0) == Seq::<u8>::empty(),
        Tree::Atom(canonical_int(0)) == Tree::nil(),
{
}

/// The integer that bytes hold is the number they hold in base 256, less 256
/// to their number where the first bit is set.
pub proof fn lemma_atom_int_is_twos_complement(bytes: Seq<u8>)
    ensures
        atom_int(bytes) == (if bytes.len() > 0 && bytes[0] >= 128 {
            be_nat(bytes) - pow(256, bytes.len())
        } else {
            be_nat(bytes) as int
        }),
    decreases bytes.len(),
{
    lemma_pow256();
    if bytes.len() == 1 {
        assert(be_nat(bytes.drop_last()) == 0);
    } else if bytes.len() > 1 {
        lemma_atom_int_is_twos_complement(bytes.drop_last());
        lemma_pow256_step(bytes.drop_last().len());
    }
}

/// A zero byte in front of a number that is not negative changes nothing.
pub proof fn lemma_leading_zero(bytes: Seq<u8>)
    requires
        bytes.len() >= 1,
        bytes[0] == 0,
        bytes.len() > 1 ==> bytes[1] < 128,
    ensures
        atom_int(bytes) == atom_int(bytes.drop_first()),
    decreases bytes.len(),
{
    if bytes.len() == 1 {
        assert(atom_int(bytes.drop_first()) == 0);
    } else if bytes.len() == 2 {
        assert(atom_int(bytes.drop_last()) == 0);
        assert(atom_int(bytes.drop_first()) == bytes[1]);
    } else {
        lemma_leading_zero(bytes.drop_last());
        assert(bytes.drop_last().drop_first() == bytes.drop_first().drop_last());
    }
}

/// Simplifying bytes does not change the integer they hold.
pub proof fn lemma_simplified_value(bytes: Seq<u8>)
    ensures
        atom_int(simplified(bytes)) == atom_int(bytes),
        !has_spare_zero(simplified(bytes)),
    decreases bytes.len(),
{
    if has_spare_zero(bytes) {
        lemma_leading_zero(bytes);
        lemma_simplified_value(bytes.drop_first());
    }
}

/// No bytes that hold `n` are fewer than the canonical atom of `n`.
pub proof fn lemma_canonical_int_shortest(bytes: Seq<u8>)
    ensures
        canonical_int(atom_int(bytes)).len() <= bytes.len(),
        bytes.len() >= 1 ==> twos_complement_be(atom_int(bytes)).len() <= bytes.len(),
    decreases bytes.len(),
{
    if bytes.len() >= 2 {
        lemma_canonical_int_shortest(bytes.drop_last());
    }
}

/// Bytes of one length that hold one integer are the same bytes.
pub proof fn lemma_atom_int_injective(a: Seq<u8>, b: Seq<u8>)
    requires
        a.len() == b.len(),
        atom_int(a) == atom_int(b),
    ensures
        a == b,
    decreases a.len(),
{
    if a.len() >= 2 {
        lemma_atom_int_injective(a.drop_last(), b.drop_last());
        assert(a == a.drop_last().push(a.last()));
        assert(b == b.drop_last().push(b.last()));
    } else if a.len() == 1 {
        assert(a == seq![a[0]]);
        assert(b == seq![b[0]]);
    } else {
        assert(a == b);
    }
}

/// Bytes that are no longer than the canonical atom of their integer are
/// that atom: each integer has one shortest form.
pub proof fn lemma_canonical_int_unique(bytes: Seq<u8>)
    requires
        bytes.len() <= canonical_int(atom_int(bytes)).len(),
    ensures
        bytes == canonical_int(atom_int(bytes)),
{
    lemma_canonical_int_shortest(bytes);
    lemma_canonical_int_value(atom_int(bytes));
    lemma_atom_int_injective(bytes, canonical_int(atom_int(bytes)));
}

/// Two integers with the same canonical atom are the same integer.
pub proof fn lemma_canonical_int_injective(a: int, b: int)
    requires
        canonical_int(a) == canonical_int(b),
    ensures
        a == b,
{
    lemma_canonical_int_value(a);
    lemma_canonical_int_value(b);
}

/// What bytes hold is in the two's-complement range of their number.
pub proof fn lemma_atom_int_range(bytes: Seq<u8>)
    requires
        bytes.len() >= 1,
    ensures
        fits_signed(atom_int(bytes), bytes.len()),
    decreases bytes.len(),
{
    lemma_pow256();
    if bytes.len() >= 2 {
        let shorter = bytes.drop_last();
        lemma_atom_int_range(shorter);
        lemma_pow256_step(shorter.len());
        lemma_pow256_step((shorter.len() - 1) as nat);
    }
}

/// An atom of at most `len` bytes is never refused as an integer of `len`
/// bytes: an atom that is refused is longer than the integer's type.
pub proof fn lemma_short_atom_fits(bytes: Seq<u8>, len: nat)
    requires
        bytes.len() <= len,
        len >= 1,
    ensures
        fits_signed(atom_int(bytes), len),
        fits_unsigned(atom_int(bytes), len),
{
    lemma_pow256_grows(1, len);
    lemma_pow256();
    if bytes.len() >= 1 {
        lemma_atom_int_range(bytes);
        lemma_pow256_grows(bytes.len(), len);
    }
}

/// An unsigned integer of `len` bytes is read back from its canonical atom.
pub proof fn lemma_unsigned_round_trip(n: int, len: nat)
    requires
        0 <= n < pow(256, len),
    ensures
        fits_unsigned(atom_int(canonical_int(n)), len),
        unsigned_reading(atom_int(canonical_int(n)), len) == n,
{
    lemma_canonical_int_value(n);
}

/// A two's-complement integer of `len` bytes is read back from its canonical atom.
pub proof fn lemma_signed_round_trip(n: int, len: nat)
    requires
        fits_signed(n, len),
    ensures
        fits_signed(atom_int(canonical_int(n)), len),
        atom_int(canonical_int(n)) == n,
{
    lemma_canonical_int_value(n);
}

/// Every `u8` is read back from its tree.
pub proof fn lemma_u8_round_trip<N>(value: u8)
    ensures
        round_trips::<N, u8>(value),
{
    broadcast use layout_of_primitives;

    unsigned_int_max_values();
    lemma_unsigned_round_trip(value as int, size_of::<u8>());
}

/// Every `i8` is read back from its tree.
pub proof fn lemma_i8_round_trip<N>(value: i8)
    ensures
        round_trips::<N, i8>(value),
{
    broadcast use layout_of_primitives;

    unsigned_int_max_values();
    lemma_signed_round_trip(value as int, size_of::<i8>());
}

/// Every `u16` is read back from its tree.
pub proof fn lemma_u16_round_trip<N>(value: u16)
    ensures
        round_trips::<N, u16>(value),
{
    broadcast use layout_of_primitives;

    unsigned_int_max_values();
    lemma_unsigned_round_trip(value as int, size_of::<u16>());
}

/// Every `i16` is read back from its tree.
pub proof fn lemma_i16_round_trip<N>(value: i16)
    ensures
        round_trips::<N, i16>(value),
{
    broadcast use layout_of_primitives;

    unsigned_int_max_values();
    lemma_signed_round_trip(value as int, size_of::<i16>());
}

/// Every `u32` is read back from its tree.
pub proof fn lemma_u32_round_trip<N>(value: u32)
    ensures
        round_trips::<N, u32>(value),
{
    broadcast use layout_of_primitives;

    unsigned_int_max_values();
    lemma_unsigned_round_trip(value as int, size_of::<u32>());
}

/// Every `i32` is read back from its tree.
pub proof fn lemma_i32_round_trip<N>(value: i32)
    ensures
        round_trips::<N, i32>(value),
{
    broadcast use layout_of_primitives;

    unsigned_int_max_values();
    lemma_signed_round_trip(value as int, size_of::<i32>());
}

/// Every `u64` is read back from its tree.
pub proof fn lemma_u64_round_trip<N>(value: u64)
    ensures
        round_trips::<N, u64>(value),
{
    broadcast use layout_of_primitives;

    unsigned_int_max_values();
    lemma_unsigned_round_trip(value as int, size_of::<u64>());
}

/// Every `i64` is read back from its tree.
pub proof fn lemma_i64_round_trip<N>(value: i64)
    ensures
        round_trips::<N, i64>(value),
{
    broadcast use layout_of_primitives;

    unsigned_int_max_values();
    lemma_signed_round_trip(value as int, size_of::<i64>());
}

/// Every `u128` is read back from its tree.
pub proof fn lemma_u128_round_trip<N>(value: u128)
    ensures
        round_trips::<N, u128>(value),
{
    broadcast use layout_of_primitives;

    unsigned_int_max_values();
    lemma_unsigned_round_trip(value as int, size_of::<u128>());
}

/// Every `i128` is read back from its tree.
pub proof fn lemma_i128_round_trip<N>(value: i128)
    ensures
        round_trips::<N, i128>(value),
{
    broadcast use layout_of_primitives;

    unsigned_int_max_values();
    lemma_signed_round_trip(value as int, size_of::<i128>());
}

/// Every `usize` is read back from its tree.
pub proof fn lemma_usize_round_trip<N>(value: usize)
    ensures
        round_trips::<N, usize>(value),
{
    broadcast use layout_of_primitives;

    unsigned_int_max_values();
    lemma_unsigned_round_trip(value as int, size_of::<usize>());
}

/// Every `isize` is read back from its tree.
pub proof fn lemma_isize_round_trip<N>(value: isize)
    ensures
        round_trips::<N, isize>(value),
{
    broadcast use layout_of_primitives;

    unsigned_int_max_values();
    lemma_signed_round_trip(value as int, size_of::<isize>());
}

/// The items of the list of `items` are `items`.
pub proof fn lemma_spine_of_list(items: Seq<Tree>)
    ensures
        spine(Tree::list(items)) == items,
    decreases items.len(),
{
    if items.len() > 0 {
        lemma_spine_of_list(items.drop_first());
        assert(seq![items[0]] + items.drop_first() == items);
    }
}

/// A list whose items can all be read can be read as a list of any length.
pub proof fn lemma_list_reads<N, T: FromKlvm<N>>(items: Seq<Tree>)
    requires
        forall|i: int| 0 <= i < items.len() ==> T::failure(#[trigger] items[i]) is None,
    ensures
        list_failure::<N, T>(Tree::list(items)) is None,
    decreases items.len(),
{
    if items.len() > 0 {
        let rest = items.drop_first();
        assert forall|i: int| 0 <= i < rest.len() implies T::failure(
            #[trigger] rest[i],
        ) is None by {
            assert(rest[i] == items[i + 1]);
        }
        lemma_list_reads::<N, T>(rest);
    }
}

/// A list whose items can all be read is read as an array exactly when it has
/// as many items as the array: with more a pair stands where the list must
/// end, with fewer the list ends where a pair must stand.
pub proof fn lemma_array_reads<N, T: FromKlvm<N>>(items: Seq<Tree>, room: nat)
    requires
        forall|i: int| 0 <= i < items.len() ==> T::failure(#[trigger] items[i]) is None,
    ensures
        array_failure::<N, T>(Tree::list(items), room) == (if items.len() > room {
            Some(DecodeFailure::ExpectedAtom)
        } else if items.len() < room {
            Some(DecodeFailure::ExpectedPair)
        } else {
            None
        }),
    decreases items.len(),
{
    if items.len() > 0 && room > 0 {
        let rest = items.drop_first();
        assert forall|i: int| 0 <= i < rest.len() implies T::failure(
            #[trigger] rest[i],
        ) is None by {
            assert(rest[i] == items[i + 1]);
        }
        lemma_array_reads::<N, T>(rest, (room - 1) as nat);
    }
}

/// The unit value is read back from its tree.
pub proof fn lemma_unit_round_trip<N>()
    ensures
        round_trips::<N, ()>(()),
{
}

/// A text is read back from its tree.
pub proof fn lemma_text_round_trip<N>(value: String)
    ensures
        round_trips::<N, String>(value),
{
    encode_utf8_valid_utf8(value@);
    encode_utf8_decode_utf8(value@);
}

/// A public key that chik_bls accepts is read back from its tree.
pub proof fn lemma_public_key_round_trip<N>(value: PublicKey)
    requires
        public_key_defect(value@) is None,
    ensures
        round_trips::<N, PublicKey>(value),
{
    value.lemma_len();
}

/// A signature that chik_bls accepts is read back from its tree.
pub proof fn lemma_signature_round_trip<N>(value: Signature)
    requires
        signature_defect(value@) is None,
    ensures
        round_trips::<N, Signature>(value),
{
    value.lemma_len();
}

/// A sequence without items is written as the empty atom.
pub proof fn lemma_empty_vec_is_nil<N, T: ToKlvm<N>>(value: Vec<T>)
    requires
        value@.len() == 0,
    ensures
        value.shape() == Tree::nil(),
{
    assert(shapes::<N, T>(value@) == Seq::<Tree>::empty());
}

/// A pair is read back from its tree where both of its parts are.
pub proof fn lemma_pair_round_trip<
    N,
    A: ToKlvm<N> + FromKlvm<N> + DeepView,
    B: ToKlvm<N> + FromKlvm<N> + DeepView,
>(
    value: (A, B),
)
    requires
        round_trips::<N, A>(value.0),
        round_trips::<N, B>(value.1),
    ensures
        round_trips::<N, (A, B)>(value),
{
}

/// Items that are each read back from their own tree are read back from the
/// list of their trees, one for one, and as nothing that differs from them.
pub proof fn lemma_items_round_trip<N, T: ToKlvm<N> + FromKlvm<N> + DeepView>(items: Seq<T>)
    requires
        forall|i: int| 0 <= i < items.len() ==> round_trips::<N, T>(#[trigger] items[i]),
    ensures
        spine(Tree::list(shapes::<N, T>(items))) == shapes::<N, T>(items),
        forall|i: int|
            0 <= i < items.len() ==> T::failure(#[trigger] shapes::<N, T>(items)[i]) is None,
        decodes_items::<N, T>(Tree::list(shapes::<N, T>(items)), items),
        forall|other: Seq<T>| #[trigger]
            decodes_items::<N, T>(Tree::list(shapes::<N, T>(items)), other) ==> other.len()
                == items.len() && forall|i: int|
                0 <= i < items.len() ==> (#[trigger] other[i]).deep_view() == items[i].deep_view(),
{
    let trees = shapes::<N, T>(items);
    lemma_spine_of_list(trees);
    assert forall|i: int| 0 <= i < items.len() implies T::failure(#[trigger] trees[i]) is None
        && T::decodes(trees[i], items[i]) by {
        assert(round_trips::<N, T>(items[i]));
    }
    assert forall|other: Seq<T>| #[trigger]
        decodes_items::<N, T>(Tree::list(trees), other) implies other.len() == items.len()
        && forall|i: int|
        0 <= i < items.len() ==> (#[trigger] other[i]).deep_view() == items[i].deep_view() by {
        assert forall|i: int| 0 <= i < items.len() implies (#[trigger] other[i]).deep_view()
            == items[i].deep_view() by {
            assert(round_trips::<N, T>(items[i]));
            assert(T::decodes(spine(Tree::list(trees))[i], other[i]));
        }
    }
}

/// A sequence is read back from its tree where each of its items is.
pub proof fn lemma_vec_round_trip<N, T: ToKlvm<N> + FromKlvm<N> + DeepView>(value: Vec<T>)
    requires
        forall|i: int| 0 <= i < value@.len() ==> round_trips::<N, T>(#[trigger] value@[i]),
    ensures
        round_trips::<N, Vec<T>>(value),
{
    lemma_items_round_trip::<N, T>(value@);
    lemma_list_reads::<N, T>(shapes::<N, T>(value@));
    assert forall|other: Vec<T>| #[trigger]
        <Vec<T>>::decodes(value.shape(), other) implies other.deep_view()
        == value.deep_view() by {
        assert(decodes_items::<N, T>(Tree::list(shapes::<N, T>(value@)), other@));
        assert(other.deep_view() =~= value.deep_view());
    }
}

/// An array is read back from its tree where each of its items is.
pub proof fn lemma_array_round_trip<N, T: ToKlvm<N> + FromKlvm<N> + DeepView, const LEN: usize>(
    value: [T; LEN],
)
    requires
        forall|i: int| 0 <= i < value@.len() ==> round_trips::<N, T>(#[trigger] value@[i]),
    ensures
        round_trips::<N, [T; LEN]>(value),
{
    lemma_items_round_trip::<N, T>(value@);
    lemma_array_reads::<N, T>(shapes::<N, T>(value@), LEN as nat);
    assert forall|other: [T; LEN]| #[trigger]
        <[T; LEN]>::decodes(value.shape(), other) implies other.deep_view()
        == value.deep_view() by {
        assert(decodes_items::<N, T>(Tree::list(shapes::<N, T>(value@)), other@));
        assert(other.deep_view() =~= value.deep_view());
    }
}

/// An optional value is read back from its tree where it is absent, or holds
/// a value that is read back from its own tree, which is not the empty atom.
pub proof fn lemma_option_round_trip<N, T: ToKlvm<N> + FromKlvm<N> + DeepView>(value: Option<T>)
    requires
        value matches Some(inner) ==> round_trips::<N, T>(inner) && !inner.shape().is_nil(),
    ensures
        round_trips::<N, Option<T>>(value),
{
}

/// A present value whose own tree is the empty atom is written as an absent
/// one is, and is read back as absent and as nothing else.
pub proof fn lemma_option_collision<N, T: ToKlvm<N> + FromKlvm<N>>(inner: T, other: T)
    requires
        inner.shape().is_nil(),
    ensures
        Some(inner).shape() == None::<T>.shape(),
        Option::<T>::failure(Some(inner).shape()) is None,
        Option::<T>::decodes(Some(inner).shape(), None),
        !Option::<T>::decodes(Some(inner).shape(), Some(other)),
{
    crate::tree::lemma_nil_unique(inner.shape());
}

} // verus!
