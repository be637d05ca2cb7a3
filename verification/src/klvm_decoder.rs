//! What a backend must offer so that trees can be read.

use vstd::prelude::*;
use crate::error::{DecodeFailure, FromKlvmError};
use crate::tree::Tree;

verus! {

/// A backend from which nodes can be read.
///
/// Every live handle stands for exactly one [`Tree`]: an atom or a pair, never
/// both. The two probes below agree with that tree and change nothing, so a
/// caller may try one and fall back to the other.
///
/// `holds`, `tree` and `lemma_clone_same` are for proofs and are never run.
pub trait KlvmDecoder {
    type Node: Clone;

    /// Whether `node` is a handle that this backend gave out and still knows.
    spec fn holds(&self, node: Self::Node) -> bool;

    /// The tree that `node` stands for.
    spec fn tree(&self, node: Self::Node) -> Tree;

    /// A clone of a live handle is a live handle to the same tree.
    proof fn lemma_clone_same(&self, node: Self::Node, copy: Self::Node)
        requires
            self.holds(node),
            cloned(node, copy),
        ensures
            self.holds(copy),
            self.tree(copy) == self.tree(node),
    ;

    /// The bytes of `node` where it is an atom, `ExpectedAtom` where it is a pair.
    fn decode_atom(&self, node: &Self::Node) -> (r: Result<&[u8], FromKlvmError>)
        requires
            self.holds(*node),
        ensures
            match self.tree(*node) {
                Tree::Atom(bytes) => r matches Ok(found) && found@ == bytes,
                Tree::Pair(_, _) => r matches Err(e) && e@ == DecodeFailure::ExpectedAtom,
            },
    ;

    /// The two children of `node` where it is a pair, `ExpectedPair` where it is an atom.
    fn decode_pair(&self, node: &Self::Node) -> (r: Result<(Self::Node, Self::Node), FromKlvmError>)
        requires
            self.holds(*node),
        ensures
            match self.tree(*node) {
                Tree::Atom(_) => r matches Err(e) && e@ == DecodeFailure::ExpectedPair,
                Tree::Pair(first, rest) => r matches Ok(children) && self.holds(children.0)
                    && self.holds(children.1) && self.tree(children.0) == *first && self.tree(
                    children.1,
                ) == *rest,
            },
    ;

    /// Another handle to the node of `node`.
    fn clone_node(&self, node: &Self::Node) -> (r: Self::Node)
        requires
            self.holds(*node),
        ensures
            self.holds(r),
            self.tree(r) == self.tree(*node),
    {
        let copy = node.clone();
        proof {
            self.lemma_clone_same(*node, copy);
        }
        copy
    }
}

} // verus!
