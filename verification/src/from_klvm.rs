//! Reading trees as native values.

use vstd::layout::{layout_of_primitives, size_of, unsigned_int_max_values};
use vstd::prelude::*;
use vstd::slice::slice_to_vec;
use vstd::utf8::{decode_utf8, valid_utf8};
use crate::error::{DecodeFailure, FromKlvmError};
use crate::int_codec::{
    atom_int,
    fits_signed,
    fits_unsigned,
    signed_from_atom,
    unsigned_from_atom,
    unsigned_reading,
};
use crate::klvm_decoder::KlvmDecoder;
use crate::tree::Tree;

verus! {

/// A value that can be read from a tree of nodes of type `N`.
///
/// `failure` and `decodes` say what reading means; they are for proofs and
/// are never run.
pub trait FromKlvm<N>: Sized {
    /// The failure that reading `tree` ends in, or `None` where reading succeeds.
    spec fn failure(tree: Tree) -> Option<DecodeFailure>;

    /// Whether `value` is what `tree` reads as.
    spec fn decodes(tree: Tree, value: Self) -> bool;

    /// Reads the tree under `node` as a value of this type.
    fn from_klvm<D: KlvmDecoder<Node = N>>(decoder: &D, node: N) -> (r: Result<
        Self,
        FromKlvmError,
    >)
        requires
            decoder.holds(node),
        ensures
            match r {
                Ok(value) => Self::failure(decoder.tree(node)) is None && Self::decodes(
                    decoder.tree(node),
                    value,
                ),
                Err(e) => Self::failure(decoder.tree(node)) == Some(e@),
            },
    ;
}

/// The failure of reading `tree` as a two's-complement integer of `len`
/// bytes: a pair, or an atom that holds an integer out of range.
pub open spec fn signed_failure(tree: Tree, len: nat) -> Option<DecodeFailure> {
    match tree {
        Tree::Pair(_, _) => Some(DecodeFailure::ExpectedAtom),
        Tree::Atom(bytes) => if fits_signed(atom_int(bytes), len) {
            None
        } else {
            Some(DecodeFailure::WrongAtomLength { expected: len, found: bytes.len() })
        },
    }
}

/// The failure of reading `tree` as an unsigned integer of `len` bytes: a
/// pair, or an atom that holds an integer out of range.
pub open spec fn unsigned_failure(tree: Tree, len: nat) -> Option<DecodeFailure> {
    match tree {
        Tree::Pair(_, _) => Some(DecodeFailure::ExpectedAtom),
        Tree::Atom(bytes) => if fits_unsigned(atom_int(bytes), len) {
            None
        } else {
            Some(DecodeFailure::WrongAtomLength { expected: len, found: bytes.len() })
        },
    }
}

/// Whether `tree` reads as the unsigned integer `value` of `len` bytes.
pub open spec fn decodes_unsigned(tree: Tree, value: int, len: nat) -> bool {
    tree matches Tree::Atom(bytes) && value == unsigned_reading(atom_int(bytes), len)
}

/// Whether `tree` reads as the two's-complement integer `value`.
pub open spec fn decodes_signed(tree: Tree, value: int) -> bool {
    tree matches Tree::Atom(bytes) && value == atom_int(bytes)
}

impl<N> FromKlvm<N> for u8 {
    open spec fn failure(tree: Tree) -> Option<DecodeFailure> {
        unsigned_failure(tree, size_of::<u8>())
    }

    open spec fn decodes(tree: Tree, value: u8) -> bool {
        decodes_unsigned(tree, value as int, size_of::<u8>())
    }

    fn from_klvm<D: KlvmDecoder<Node = N>>(decoder: &D, node: N) -> (r: Result<
        u8,
        FromKlvmError,
    >) {
        let bytes = decoder.decode_atom(&node)?;
        proof {
            broadcast use layout_of_primitives;
            unsigned_int_max_values();
        }
        let value = unsigned_from_atom(bytes, core::mem::size_of::<u8>())?;
        Ok(value as u8)
    }
}

impl<N> FromKlvm<N> for i8 {
    open spec fn failure(tree: Tree) -> Option<DecodeFailure> {
        signed_failure(tree, size_of::<i8>())
    }

    open spec fn decodes(tree: Tree, value: i8) -> bool {
        decodes_signed(tree, value as int)
    }

    fn from_klvm<D: KlvmDecoder<Node = N>>(decoder: &D, node: N) -> (r: Result<
        i8,
        FromKlvmError,
    >) {
        let bytes = decoder.decode_atom(&node)?;
        proof {
            broadcast use layout_of_primitives;
            unsigned_int_max_values();
        }
        let value = signed_from_atom(bytes, core::mem::size_of::<i8>())?;
        Ok(value as i8)
    }
}

impl<N> FromKlvm<N> for u16 {
    open spec fn failure(tree: Tree) -> Option<DecodeFailure> {
        unsigned_failure(tree, size_of::<u16>())
    }

    open spec fn decodes(tree: Tree, value: u16) -> bool {
        decodes_unsigned(tree, value as int, size_of::<u16>())
    }

    fn from_klvm<D: KlvmDecoder<Node = N>>(decoder: &D, node: N) -> (r: Result<
        u16,
        FromKlvmError,
    >) {
        let bytes = decoder.decode_atom(&node)?;
        proof {
            broadcast use layout_of_primitives;
            unsigned_int_max_values();
        }
        let value = unsigned_from_atom(bytes, core::mem::size_of::<u16>())?;
        Ok(value as u16)
    }
}

impl<N> FromKlvm<N> for i16 {
    open spec fn failure(tree: Tree) -> Option<DecodeFailure> {
        signed_failure(tree, size_of::<i16>())
    }

    open spec fn decodes(tree: Tree, value: i16) -> bool {
        decodes_signed(tree, value as int)
    }

    fn from_klvm<D: KlvmDecoder<Node = N>>(decoder: &D, node: N) -> (r: Result<
        i16,
        FromKlvmError,
    >) {
        let bytes = decoder.decode_atom(&node)?;
        proof {
            broadcast use layout_of_primitives;
            unsigned_int_max_values();
        }
        let value = signed_from_atom(bytes, core::mem::size_of::<i16>())?;
        Ok(value as i16)
    }
}

impl<N> FromKlvm<N> for u32 {
    open spec fn failure(tree: Tree) -> Option<DecodeFailure> {
        unsigned_failure(tree, size_of::<u32>())
    }

    open spec fn decodes(tree: Tree, value: u32) -> bool {
        decodes_unsigned(tree, value as int, size_of::<u32>())
    }

    fn from_klvm<D: KlvmDecoder<Node = N>>(decoder: &D, node: N) -> (r: Result<
        u32,
        FromKlvmError,
    >) {
        let bytes = decoder.decode_atom(&node)?;
        proof {
            broadcast use layout_of_primitives;
            unsigned_int_max_values();
        }
        let value = unsigned_from_atom(bytes, core::mem::size_of::<u32>())?;
        Ok(value as u32)
    }
}

impl<N> FromKlvm<N> for i32 {
    open spec fn failure(tree: Tree) -> Option<DecodeFailure> {
        signed_failure(tree, size_of::<i32>())
    }

    open spec fn decodes(tree: Tree, value: i32) -> bool {
        decodes_signed(tree, value as int)
    }

    fn from_klvm<D: KlvmDecoder<Node = N>>(decoder: &D, node: N) -> (r: Result<
        i32,
        FromKlvmError,
    >) {
        let bytes = decoder.decode_atom(&node)?;
        proof {
            broadcast use layout_of_primitives;
            unsigned_int_max_values();
        }
        let value = signed_from_atom(bytes, core::mem::size_of::<i32>())?;
        Ok(value as i32)
    }
}

impl<N> FromKlvm<N> for u64 {
    open spec fn failure(tree: Tree) -> Option<DecodeFailure> {
        unsigned_failure(tree, size_of::<u64>())
    }

    open spec fn decodes(tree: Tree, value: u64) -> bool {
        decodes_unsigned(tree, value as int, size_of::<u64>())
    }

    fn from_klvm<D: KlvmDecoder<Node = N>>(decoder: &D, node: N) -> (r: Result<
        u64,
        FromKlvmError,
    >) {
        let bytes = decoder.decode_atom(&node)?;
        proof {
            broadcast use layout_of_primitives;
            unsigned_int_max_values();
        }
        let value = unsigned_from_atom(bytes, core::mem::size_of::<u64>())?;
        Ok(value as u64)
    }
}

impl<N> FromKlvm<N> for i64 {
    open spec fn failure(tree: Tree) -> Option<DecodeFailure> {
        signed_failure(tree, size_of::<i64>())
    }

    open spec fn decodes(tree: Tree, value: i64) -> bool {
        decodes_signed(tree, value as int)
    }

    fn from_klvm<D: KlvmDecoder<Node = N>>(decoder: &D, node: N) -> (r: Result<
        i64,
        FromKlvmError,
    >) {
        let bytes = decoder.decode_atom(&node)?;
        proof {
            broadcast use layout_of_primitives;
            unsigned_int_max_values();
        }
        let value = signed_from_atom(bytes, core::mem::size_of::<i64>())?;
        Ok(value as i64)
    }
}

impl<N> FromKlvm<N> for u128 {
    open spec fn failure(tree: Tree) -> Option<DecodeFailure> {
        unsigned_failure(tree, size_of::<u128>())
    }

    open spec fn decodes(tree: Tree, value: u128) -> bool {
        decodes_unsigned(tree, value as int, size_of::<u128>())
    }

    fn from_klvm<D: KlvmDecoder<Node = N>>(decoder: &D, node: N) -> (r: Result<
        u128,
        FromKlvmError,
    >) {
        let bytes = decoder.decode_atom(&node)?;
        proof {
            broadcast use layout_of_primitives;
            unsigned_int_max_values();
        }
        let value = unsigned_from_atom(bytes, core::mem::size_of::<u128>())?;
        Ok(value)
    }
}

impl<N> FromKlvm<N> for i128 {
    open spec fn failure(tree: Tree) -> Option<DecodeFailure> {
        signed_failure(tree, size_of::<i128>())
    }

    open spec fn decodes(tree: Tree, value: i128) -> bool {
        decodes_signed(tree, value as int)
    }

    fn from_klvm<D: KlvmDecoder<Node = N>>(decoder: &D, node: N) -> (r: Result<
        i128,
        FromKlvmError,
    >) {
        let bytes = decoder.decode_atom(&node)?;
        proof {
            broadcast use layout_of_primitives;
            unsigned_int_max_values();
        }
        let value = signed_from_atom(bytes, core::mem::size_of::<i128>())?;
        Ok(value)
    }
}

impl<N> FromKlvm<N> for usize {
    open spec fn failure(tree: Tree) -> Option<DecodeFailure> {
        unsigned_failure(tree, size_of::<usize>())
    }

    open spec fn decodes(tree: Tree, value: usize) -> bool {
        decodes_unsigned(tree, value as int, size_of::<usize>())
    }

    fn from_klvm<D: KlvmDecoder<Node = N>>(decoder: &D, node: N) -> (r: Result<
        usize,
        FromKlvmError,
    >) {
        let bytes = decoder.decode_atom(&node)?;
        proof {
            broadcast use layout_of_primitives;
            unsigned_int_max_values();
        }
        let value = unsigned_from_atom(bytes, core::mem::size_of::<usize>())?;
        Ok(value as usize)
    }
}

impl<N> FromKlvm<N> for isize {
    open spec fn failure(tree: Tree) -> Option<DecodeFailure> {
        signed_failure(tree, size_of::<isize>())
    }

    open spec fn decodes(tree: Tree, value: isize) -> bool {
        decodes_signed(tree, value as int)
    }

    fn from_klvm<D: KlvmDecoder<Node = N>>(decoder: &D, node: N) -> (r: Result<
        isize,
        FromKlvmError,
    >) {
        let bytes = decoder.decode_atom(&node)?;
        proof {
            broadcast use layout_of_primitives;
            unsigned_int_max_values();
        }
        let value = signed_from_atom(bytes, core::mem::size_of::<isize>())?;
        Ok(value as isize)
    }
}

impl<N, A: FromKlvm<N>, B: FromKlvm<N>> FromKlvm<N> for (A, B) {
    open spec fn failure(tree: Tree) -> Option<DecodeFailure> {
        match tree {
            Tree::Atom(_) => Some(DecodeFailure::ExpectedPair),
            Tree::Pair(first, rest) => match A::failure(*first) {
                Some(e) => Some(e),
                None => B::failure(*rest),
            },
        }
    }

    open spec fn decodes(tree: Tree, value: (A, B)) -> bool {
        tree matches Tree::Pair(first, rest) && A::decodes(*first, value.0) && B::decodes(
            *rest,
            value.1,
        )
    }

    fn from_klvm<D: KlvmDecoder<Node = N>>(decoder: &D, node: N) -> (r: Result<
        (A, B),
        FromKlvmError,
    >) {
        let (first, rest) = decoder.decode_pair(&node)?;
        let first = A::from_klvm(decoder, first)?;
        let rest = B::from_klvm(decoder, rest)?;
        Ok((first, rest))
    }
}

/// The failure of reading `tree` where only the empty atom may stand.
pub open spec fn nil_failure(tree: Tree) -> Option<DecodeFailure> {
    match tree {
        Tree::Pair(_, _) => Some(DecodeFailure::ExpectedAtom),
        Tree::Atom(bytes) => if bytes.len() == 0 {
            None
        } else {
            Some(DecodeFailure::WrongAtomLength { expected: 0, found: bytes.len() })
        },
    }
}

/// Takes the bytes of an atom where no bytes may stand: as the unit value,
/// and as the end of a list.
pub fn unit_from_atom(bytes: &[u8]) -> (r: Result<(), FromKlvmError>)
    ensures
        match r {
            Ok(_) => bytes@.len() == 0,
            Err(e) => bytes@.len() != 0 && e@ == (DecodeFailure::WrongAtomLength {
                expected: 0,
                found: bytes@.len(),
            }),
        },
{
    if bytes.is_empty() {
        Ok(())
    } else {
        Err(FromKlvmError::WrongAtomLength { expected: 0, found: bytes.len() })
    }
}

impl<N> FromKlvm<N> for () {
    open spec fn failure(tree: Tree) -> Option<DecodeFailure> {
        nil_failure(tree)
    }

    open spec fn decodes(tree: Tree, value: ()) -> bool {
        tree.is_nil()
    }

    fn from_klvm<D: KlvmDecoder<Node = N>>(decoder: &D, node: N) -> (r: Result<(), FromKlvmError>) {
        let bytes = decoder.decode_atom(&node)?;
        unit_from_atom(bytes)
    }
}

/// The trees along the right spine of `tree`: the items of the list it holds.
pub open spec fn spine(tree: Tree) -> Seq<Tree>
    decreases tree,
{
    match tree {
        Tree::Atom(_) => Seq::empty(),
        Tree::Pair(first, rest) => seq![*first] + spine(*rest),
    }
}

/// Whether `items` are what the items of the list in `tree` read as, one for one.
pub open spec fn decodes_items<N, T: FromKlvm<N>>(tree: Tree, items: Seq<T>) -> bool {
    &&& spine(tree).len() == items.len()
    &&& forall|i: int| 0 <= i < items.len() ==> T::decodes(#[trigger] spine(tree)[i], items[i])
}

/// The failure of reading `tree` as a list of any length: that of the first
/// item that fails, else that of an end which is not the empty atom.
pub open spec fn list_failure<N, T: FromKlvm<N>>(tree: Tree) -> Option<DecodeFailure>
    decreases tree,
{
    match tree {
        Tree::Atom(_) => nil_failure(tree),
        Tree::Pair(first, rest) => match T::failure(*first) {
            Some(e) => Some(e),
            None => list_failure::<N, T>(*rest),
        },
    }
}

/// The failure of reading `tree` as a list of exactly `room` items: a pair
/// where the list must end, an item that fails, or an end that comes too soon.
pub open spec fn array_failure<N, T: FromKlvm<N>>(tree: Tree, room: nat) -> Option<DecodeFailure>
    decreases tree,
{
    match tree {
        Tree::Atom(bytes) => if bytes.len() != 0 {
            Some(DecodeFailure::WrongAtomLength { expected: 0, found: bytes.len() })
        } else if room > 0 {
            Some(DecodeFailure::ExpectedPair)
        } else {
            None
        },
        Tree::Pair(first, rest) => if room == 0 {
            Some(DecodeFailure::ExpectedAtom)
        } else {
            match T::failure(*first) {
                Some(e) => Some(e),
                None => array_failure::<N, T>(*rest, (room - 1) as nat),
            }
        },
    }
}

/// `<[T; LEN]>::try_from` a `Vec`, of std: the array of the items of `items`,
/// where there are exactly `LEN` of them.
#[verifier::external_body]
pub(crate) fn array_from_vec<T, const LEN: usize>(items: Vec<T>) -> (r: Option<[T; LEN]>)
    ensures
        r is Some <==> items@.len() == LEN,
        r matches Some(array) ==> array@ == items@,
{
    items.try_into().ok()
}

/// `String::from_utf8`, of std: the text that `bytes` spell in UTF-8, where
/// they are UTF-8.
#[verifier::external_body]
fn text_from_utf8(bytes: Vec<u8>) -> (r: Option<String>)
    ensures
        r is Some <==> valid_utf8(bytes@),
        r matches Some(text) ==> text@ == decode_utf8(bytes@),
{
    String::from_utf8(bytes).ok()
}

impl<N, T: FromKlvm<N>, const LEN: usize> FromKlvm<N> for [T; LEN] {
    open spec fn failure(tree: Tree) -> Option<DecodeFailure> {
        array_failure::<N, T>(tree, LEN as nat)
    }

    open spec fn decodes(tree: Tree, value: [T; LEN]) -> bool {
        decodes_items::<N, T>(tree, value@)
    }

    fn from_klvm<D: KlvmDecoder<Node = N>>(decoder: &D, node: N) -> (r: Result<
        [T; LEN],
        FromKlvmError,
    >) {
        let ghost root = decoder.tree(node);
        let ghost mut seen: Seq<Tree> = Seq::empty();
        let mut current = node;
        let mut items: Vec<T> = Vec::with_capacity(LEN);
        loop
            invariant
                root == decoder.tree(node),
                decoder.holds(current),
                items@.len() <= LEN,
                seen.len() == items@.len(),
                spine(root) == seen + spine(decoder.tree(current)),
                forall|i: int| 0 <= i < items@.len() ==> T::decodes(#[trigger] seen[i], items@[i]),
                array_failure::<N, T>(root, LEN as nat) == array_failure::<N, T>(
                    decoder.tree(current),
                    (LEN - items@.len()) as nat,
                ),
            decreases decoder.tree(current).height(),
        {
            match decoder.decode_pair(&current) {
                Ok((first, rest)) => {
                    if items.len() >= LEN {
                        return Err(FromKlvmError::ExpectedAtom);
                    }
                    let item = T::from_klvm(decoder, first)?;
                    proof {
                        let ahead = spine(decoder.tree(rest));
                        assert(seen.push(decoder.tree(first)) + ahead == seen + (seq![
                            decoder.tree(first),
                        ] + ahead));
                        seen = seen.push(decoder.tree(first));
                    }
                    items.push(item);
                    current = rest;
                },
                Err(_) => {
                    let bytes = decoder.decode_atom(&current)?;
                    unit_from_atom(bytes)?;
                    assert(seen + Seq::<Tree>::empty() == seen);
                    return match array_from_vec(items) {
                        Some(array) => Ok(array),
                        None => Err(FromKlvmError::ExpectedPair),
                    };
                },
            }
        }
    }
}

impl<N, T: FromKlvm<N>> FromKlvm<N> for Vec<T> {
    open spec fn failure(tree: Tree) -> Option<DecodeFailure> {
        list_failure::<N, T>(tree)
    }

    open spec fn decodes(tree: Tree, value: Vec<T>) -> bool {
        decodes_items::<N, T>(tree, value@)
    }

    fn from_klvm<D: KlvmDecoder<Node = N>>(decoder: &D, node: N) -> (r: Result<
        Vec<T>,
        FromKlvmError,
    >) {
        let ghost root = decoder.tree(node);
        let ghost mut seen: Seq<Tree> = Seq::empty();
        let mut current = node;
        let mut items: Vec<T> = Vec::new();
        loop
            invariant
                root == decoder.tree(node),
                decoder.holds(current),
                seen.len() == items@.len(),
                spine(root) == seen + spine(decoder.tree(current)),
                forall|i: int| 0 <= i < items@.len() ==> T::decodes(#[trigger] seen[i], items@[i]),
                list_failure::<N, T>(root) == list_failure::<N, T>(decoder.tree(current)),
            decreases decoder.tree(current).height(),
        {
            match decoder.decode_pair(&current) {
                Ok((first, rest)) => {
                    let item = T::from_klvm(decoder, first)?;
                    proof {
                        let ahead = spine(decoder.tree(rest));
                        assert(seen.push(decoder.tree(first)) + ahead == seen + (seq![
                            decoder.tree(first),
                        ] + ahead));
                        seen = seen.push(decoder.tree(first));
                    }
                    items.push(item);
                    current = rest;
                },
                Err(_) => {
                    let bytes = decoder.decode_atom(&current)?;
                    unit_from_atom(bytes)?;
                    assert(seen + Seq::<Tree>::empty() == seen);
                    return Ok(items);
                },
            }
        }
    }
}

impl<N, T: FromKlvm<N>> FromKlvm<N> for Option<T> {
    open spec fn failure(tree: Tree) -> Option<DecodeFailure> {
        if tree.is_nil() {
            None
        } else {
            T::failure(tree)
        }
    }

    open spec fn decodes(tree: Tree, value: Option<T>) -> bool {
        match value {
            None => tree.is_nil(),
            Some(inner) => !tree.is_nil() && T::decodes(tree, inner),
        }
    }

    fn from_klvm<D: KlvmDecoder<Node = N>>(decoder: &D, node: N) -> (r: Result<
        Option<T>,
        FromKlvmError,
    >) {
        let absent = match decoder.decode_atom(&node) {
            Ok(bytes) => bytes.is_empty(),
            Err(_) => false,
        };
        if absent {
            Ok(None)
        } else {
            Ok(Some(T::from_klvm(decoder, node)?))
        }
    }
}

/// The failure of reading `tree` as text.
pub open spec fn text_failure(tree: Tree) -> Option<DecodeFailure> {
    match tree {
        Tree::Pair(_, _) => Some(DecodeFailure::ExpectedAtom),
        Tree::Atom(bytes) => if valid_utf8(bytes) {
            None
        } else {
            Some(DecodeFailure::InvalidText(bytes))
        },
    }
}

/// Reads the bytes of an atom as text.
pub fn text_from_atom(bytes: &[u8]) -> (r: Result<String, FromKlvmError>)
    ensures
        match r {
            Ok(text) => valid_utf8(bytes@) && text@ == decode_utf8(bytes@),
            Err(e) => !valid_utf8(bytes@) && e@ == DecodeFailure::InvalidText(bytes@),
        },
{
    match text_from_utf8(slice_to_vec(bytes)) {
        Some(text) => Ok(text),
        None => Err(FromKlvmError::InvalidText(slice_to_vec(bytes))),
    }
}

impl<N> FromKlvm<N> for String {
    open spec fn failure(tree: Tree) -> Option<DecodeFailure> {
        text_failure(tree)
    }

    open spec fn decodes(tree: Tree, value: String) -> bool {
        tree matches Tree::Atom(bytes) && value@ == decode_utf8(bytes)
    }

    fn from_klvm<D: KlvmDecoder<Node = N>>(decoder: &D, node: N) -> (r: Result<
        String,
        FromKlvmError,
    >) {
        let bytes = decoder.decode_atom(&node)?;
        text_from_atom(bytes)
    }
}

} // verus!
