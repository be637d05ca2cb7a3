//! Writing native values as trees.

use vstd::prelude::*;
use vstd::utf8::encode_utf8;
use crate::error::ToKlvmError;
use crate::int_codec::{canonical_int, signed_atom, unsigned_atom};
use crate::klvm_encoder::{keeps, reported, KlvmEncoder};
use crate::tree::Tree;

verus! {

/// A value that can be written as a tree of nodes of type `N`.
///
/// `shape` says what writing means; it is for proofs and is never run.
pub trait ToKlvm<N> {
    /// The tree that this value is written as.
    spec fn shape(&self) -> Tree;

    /// Builds the tree of this value in `encoder` and returns its root.
    ///
    /// Only the backend can make this fail: what comes back is what the last
    /// request to the backend ended in.
    fn to_klvm<E: KlvmEncoder<Node = N>>(&self, encoder: &mut E) -> (r: Result<N, ToKlvmError>)
        ensures
            keeps(old(encoder), final(encoder)),
            r matches Ok(node) ==> final(encoder).holds(node) && final(encoder).tree(node)
                == self.shape(),
            E::total() ==> r is Ok,
            final(encoder).failure() == reported(r),
    ;
}

/// The trees of `items`, in order.
pub open spec fn shapes<N, T: ToKlvm<N>>(items: Seq<T>) -> Seq<Tree> {
    items.map_values(|item: T| item.shape())
}

/// The tree of an integer: the atom of its canonical bytes.
pub open spec fn int_shape(value: int) -> Tree {
    Tree::Atom(canonical_int(value))
}

/// Builds the canonical atom of a signed integer.
fn encode_signed<E: KlvmEncoder>(encoder: &mut E, value: i128) -> (r: Result<E::Node, ToKlvmError>)
    ensures
        keeps(old(encoder), final(encoder)),
        r matches Ok(node) ==> final(encoder).holds(node) && final(encoder).tree(node)
            == int_shape(value as int),
        E::total() ==> r is Ok,
        final(encoder).failure() == reported(r),
{
    let bytes = signed_atom(value);
    encoder.encode_atom(bytes.as_slice())
}

/// Builds the canonical atom of an unsigned integer.
fn encode_unsigned<E: KlvmEncoder>(encoder: &mut E, value: u128) -> (r: Result<
    E::Node,
    ToKlvmError,
>)
    ensures
        keeps(old(encoder), final(encoder)),
        r matches Ok(node) ==> final(encoder).holds(node) && final(encoder).tree(node)
            == int_shape(value as int),
        E::total() ==> r is Ok,
        final(encoder).failure() == reported(r),
{
    let bytes = unsigned_atom(value);
    encoder.encode_atom(bytes.as_slice())
}

impl<N> ToKlvm<N> for u8 {
    open spec fn shape(&self) -> Tree {
        int_shape(*self as int)
    }

    fn to_klvm<E: KlvmEncoder<Node = N>>(&self, encoder: &mut E) -> (r: Result<N, ToKlvmError>) {
        encode_unsigned(encoder, *self as u128)
    }
}

impl<N> ToKlvm<N> for i8 {
    open spec fn shape(&self) -> Tree {
        int_shape(*self as int)
    }

    fn to_klvm<E: KlvmEncoder<Node = N>>(&self, encoder: &mut E) -> (r: Result<N, ToKlvmError>) {
        encode_signed(encoder, *self as i128)
    }
}

impl<N> ToKlvm<N> for u16 {
    open spec fn shape(&self) -> Tree {
        int_shape(*self as int)
    }

    fn to_klvm<E: KlvmEncoder<Node = N>>(&self, encoder: &mut E) -> (r: Result<N, ToKlvmError>) {
        encode_unsigned(encoder, *self as u128)
    }
}

impl<N> ToKlvm<N> for i16 {
    open spec fn shape(&self) -> Tree {
        int_shape(*self as int)
    }

    fn to_klvm<E: KlvmEncoder<Node = N>>(&self, encoder: &mut E) -> (r: Result<N, ToKlvmError>) {
        encode_signed(encoder, *self as i128)
    }
}

impl<N> ToKlvm<N> for u32 {
    open spec fn shape(&self) -> Tree {
        int_shape(*self as int)
    }

    fn to_klvm<E: KlvmEncoder<Node = N>>(&self, encoder: &mut E) -> (r: Result<N, ToKlvmError>) {
        encode_unsigned(encoder, *self as u128)
    }
}

impl<N> ToKlvm<N> for i32 {
    open spec fn shape(&self) -> Tree {
        int_shape(*self as int)
    }

    fn to_klvm<E: KlvmEncoder<Node = N>>(&self, encoder: &mut E) -> (r: Result<N, ToKlvmError>) {
        encode_signed(encoder, *self as i128)
    }
}

impl<N> ToKlvm<N> for u64 {
    open spec fn shape(&self) -> Tree {
        int_shape(*self as int)
    }

    fn to_klvm<E: KlvmEncoder<Node = N>>(&self, encoder: &mut E) -> (r: Result<N, ToKlvmError>) {
        encode_unsigned(encoder, *self as u128)
    }
}

impl<N> ToKlvm<N> for i64 {
    open spec fn shape(&self) -> Tree {
        int_shape(*self as int)
    }

    fn to_klvm<E: KlvmEncoder<Node = N>>(&self, encoder: &mut E) -> (r: Result<N, ToKlvmError>) {
        encode_signed(encoder, *self as i128)
    }
}

impl<N> ToKlvm<N> for u128 {
    open spec fn shape(&self) -> Tree {
        int_shape(*self as int)
    }

    fn to_klvm<E: KlvmEncoder<Node = N>>(&self, encoder: &mut E) -> (r: Result<N, ToKlvmError>) {
        encode_unsigned(encoder, *self)
    }
}

impl<N> ToKlvm<N> for i128 {
    open spec fn shape(&self) -> Tree {
        int_shape(*self as int)
    }

    fn to_klvm<E: KlvmEncoder<Node = N>>(&self, encoder: &mut E) -> (r: Result<N, ToKlvmError>) {
        encode_signed(encoder, *self)
    }
}

impl<N> ToKlvm<N> for usize {
    open spec fn shape(&self) -> Tree {
        int_shape(*self as int)
    }

    fn to_klvm<E: KlvmEncoder<Node = N>>(&self, encoder: &mut E) -> (r: Result<N, ToKlvmError>) {
        encode_unsigned(encoder, *self as u128)
    }
}

impl<N> ToKlvm<N> for isize {
    open spec fn shape(&self) -> Tree {
        int_shape(*self as int)
    }

    fn to_klvm<E: KlvmEncoder<Node = N>>(&self, encoder: &mut E) -> (r: Result<N, ToKlvmError>) {
        encode_signed(encoder, *self as i128)
    }
}

impl<N, T: ToKlvm<N>> ToKlvm<N> for &T {
    open spec fn shape(&self) -> Tree {
        (**self).shape()
    }

    fn to_klvm<E: KlvmEncoder<Node = N>>(&self, encoder: &mut E) -> (r: Result<N, ToKlvmError>) {
        (**self).to_klvm(encoder)
    }
}

impl<N, A: ToKlvm<N>, B: ToKlvm<N>> ToKlvm<N> for (A, B) {
    open spec fn shape(&self) -> Tree {
        Tree::pair(self.0.shape(), self.1.shape())
    }

    fn to_klvm<E: KlvmEncoder<Node = N>>(&self, encoder: &mut E) -> (r: Result<N, ToKlvmError>) {
        let first = self.0.to_klvm(encoder)?;
        let rest = self.1.to_klvm(encoder)?;
        encoder.encode_pair(first, rest)
    }
}

impl<N> ToKlvm<N> for () {
    open spec fn shape(&self) -> Tree {
        Tree::nil()
    }

    fn to_klvm<E: KlvmEncoder<Node = N>>(&self, encoder: &mut E) -> (r: Result<N, ToKlvmError>) {
        let empty: [u8; 0] = [];
        assert(empty@ == Seq::<u8>::empty());
        encoder.encode_atom(empty.as_slice())
    }
}

/// A list is its first item paired with the list of the others.
pub proof fn lemma_list_unfold(items: Seq<Tree>, from: int)
    requires
        0 <= from < items.len(),
    ensures
        Tree::list(items.subrange(from, items.len() as int)) == Tree::pair(
            items[from],
            Tree::list(items.subrange(from + 1, items.len() as int)),
        ),
{
    let tail = items.subrange(from, items.len() as int);
    assert(tail.drop_first() == items.subrange(from + 1, items.len() as int));
}

impl<N, T: ToKlvm<N>> ToKlvm<N> for &[T] {
    open spec fn shape(&self) -> Tree {
        Tree::list(shapes::<N, T>(self@))
    }

    fn to_klvm<E: KlvmEncoder<Node = N>>(&self, encoder: &mut E) -> (r: Result<N, ToKlvmError>) {
        let ghost trees = shapes::<N, T>(self@);
        let empty: [u8; 0] = [];
        assert(empty@ == Seq::<u8>::empty());
        let mut result = encoder.encode_atom(empty.as_slice())?;
        let mut i: usize = self.len();
        assert(trees.subrange(i as int, trees.len() as int) == Seq::<Tree>::empty());
        while i > 0
            invariant
                i <= self.len(),
                trees == shapes::<N, T>(self@),
                keeps(old(encoder), encoder),
                encoder.failure() is None,
                encoder.holds(result),
                encoder.tree(result) == Tree::list(trees.subrange(i as int, trees.len() as int)),
            decreases i,
        {
            i = i - 1;
            let value = self[i].to_klvm(encoder)?;
            result = encoder.encode_pair(value, result)?;
            proof {
                lemma_list_unfold(trees, i as int);
            }
        }
        assert(trees.subrange(0, trees.len() as int) == trees);
        Ok(result)
    }
}

impl<N, T: ToKlvm<N>, const LEN: usize> ToKlvm<N> for [T; LEN] {
    open spec fn shape(&self) -> Tree {
        Tree::list(shapes::<N, T>(self@))
    }

    fn to_klvm<E: KlvmEncoder<Node = N>>(&self, encoder: &mut E) -> (r: Result<N, ToKlvmError>) {
        self.as_slice().to_klvm(encoder)
    }
}

impl<N, T: ToKlvm<N>> ToKlvm<N> for Vec<T> {
    open spec fn shape(&self) -> Tree {
        Tree::list(shapes::<N, T>(self@))
    }

    fn to_klvm<E: KlvmEncoder<Node = N>>(&self, encoder: &mut E) -> (r: Result<N, ToKlvmError>) {
        self.as_slice().to_klvm(encoder)
    }
}

impl<N, T: ToKlvm<N>> ToKlvm<N> for Option<T> {
    open spec fn shape(&self) -> Tree {
        match self {
            Some(value) => value.shape(),
            None => Tree::nil(),
        }
    }

    fn to_klvm<E: KlvmEncoder<Node = N>>(&self, encoder: &mut E) -> (r: Result<N, ToKlvmError>) {
        match self {
            Some(value) => value.to_klvm(encoder),
            None => {
                let empty: [u8; 0] = [];
                assert(empty@ == Seq::<u8>::empty());
                encoder.encode_atom(empty.as_slice())
            },
        }
    }
}

impl<N> ToKlvm<N> for &str {
    open spec fn shape(&self) -> Tree {
        Tree::Atom(encode_utf8(self@))
    }

    fn to_klvm<E: KlvmEncoder<Node = N>>(&self, encoder: &mut E) -> (r: Result<N, ToKlvmError>) {
        encoder.encode_atom(self.as_bytes())
    }
}

impl<N> ToKlvm<N> for String {
    open spec fn shape(&self) -> Tree {
        Tree::Atom(encode_utf8(self@))
    }

    fn to_klvm<E: KlvmEncoder<Node = N>>(&self, encoder: &mut E) -> (r: Result<N, ToKlvmError>) {
        self.as_str().to_klvm(encoder)
    }
}

} // verus!
