//! What a backend must offer so that trees can be built.

use vstd::prelude::*;
use crate::error::ToKlvmError;
use crate::tree::Tree;

verus! {

/// A backend in which nodes can be built.
///
/// Building a node may fail, and never disturbs the nodes built before. Two
/// nodes built from the same bytes need not be the same handle; they stand
/// for the same tree.
///
/// `holds`, `tree`, `total`, `failure` and `lemma_clone_same` are for proofs
/// and are never run.
pub trait KlvmEncoder {
    type Node: Clone;

    /// Whether `node` is a handle that this backend gave out and still knows.
    spec fn holds(&self, node: Self::Node) -> bool;

    /// The tree that `node` stands for.
    spec fn tree(&self, node: Self::Node) -> Tree;

    /// Whether this kind of backend builds every node it is asked for.
    spec fn total() -> bool;

    /// The failure that the last request to build a node ended in, or `None`
    /// where that node was built.
    spec fn failure(&self) -> Option<ToKlvmError>;

    /// A clone of a live handle is a live handle to the same tree.
    proof fn lemma_clone_same(&self, node: Self::Node, copy: Self::Node)
        requires
            self.holds(node),
            cloned(node, copy),
        ensures
            self.holds(copy),
            self.tree(copy) == self.tree(node),
    ;

    /// A node for the atom of `bytes`.
    fn encode_atom(&mut self, bytes: &[u8]) -> (r: Result<Self::Node, ToKlvmError>)
        ensures
            forall|kept: Self::Node| #[trigger]
                old(self).holds(kept) ==> final(self).holds(kept) && final(self).tree(kept) == old(
                    self,
                ).tree(kept),
            r matches Ok(node) ==> final(self).holds(node) && final(self).tree(node) == Tree::Atom(
                bytes@,
            ),
            Self::total() ==> r is Ok,
            final(self).failure() == reported(r),
    ;

    /// A node for the pair of `first` and `rest`.
    fn encode_pair(&mut self, first: Self::Node, rest: Self::Node) -> (r: Result<
        Self::Node,
        ToKlvmError,
    >)
        requires
            old(self).holds(first),
            old(self).holds(rest),
        ensures
            forall|kept: Self::Node| #[trigger]
                old(self).holds(kept) ==> final(self).holds(kept) && final(self).tree(kept) == old(
                    self,
                ).tree(kept),
            r matches Ok(node) ==> final(self).holds(node) && final(self).tree(node) == Tree::pair(
                old(self).tree(first),
                old(self).tree(rest),
            ),
            Self::total() ==> r is Ok,
            final(self).failure() == reported(r),
    ;

    /// Another handle to the node of `node`.
    fn clone_node(&self, node: &Self::Node) -> (r: Self::Node)
        requires
            self.holds(*node),
        ensures
            self.holds(r),
            self.tree(r) == self.tree(*node),
    {
        let copy = node.clone();
        proof {
            self.lemma_clone_same(*node, copy);
        }
        copy
    }
}

/// The failure that a result reports, or `None` where it is a node.
pub open spec fn reported<N>(r: Result<N, ToKlvmError>) -> Option<ToKlvmError> {
    match r {
        Ok(_) => None,
        Err(e) => Some(e),
    }
}

/// Every handle that `before` holds, `after` holds too, for the same tree.
pub open spec fn keeps<E: KlvmEncoder + ?Sized>(before: &E, after: &E) -> bool {
    forall|node: E::Node| #[trigger]
        before.holds(node) ==> after.holds(node) && after.tree(node) == before.tree(node)
}

} // verus!
