//! A backend that keeps its nodes in memory.

use vstd::prelude::*;
use vstd::slice::slice_to_vec;
use crate::error::{FromKlvmError, ToKlvmError};
use crate::klvm_decoder::KlvmDecoder;
use crate::klvm_encoder::KlvmEncoder;
use crate::tree::Tree;

verus! {

/// A handle to a node of a [`TreeArena`]: the place of an atom or of a pair.
#[derive(Clone, Copy, Debug, PartialEq, Eq)]
pub enum NodePtr {
    Atom(usize),
    Pair(usize),
}

/// Nodes kept in two growing tables, one of atoms and one of pairs.
///
/// A pair refers only to atoms and to pairs made before it, so every handle
/// stands for a finite tree. Nodes are never removed.
pub struct TreeArena {
    atoms: Vec<Vec<u8>>,
    pairs: Vec<(NodePtr, NodePtr)>,
}

/// How late a node was made: zero for an atom, its place plus one for a pair.
pub open spec fn rank(node: NodePtr) -> nat {
    match node {
        NodePtr::Atom(_) => 0,
        NodePtr::Pair(place) => (place + 1) as nat,
    }
}

impl TreeArena {
    /// Whether `node` and all that lies under it is in the tables.
    pub closed spec fn has(&self, node: NodePtr) -> bool
        decreases rank(node),
    {
        match node {
            NodePtr::Atom(place) => place < self.atoms@.len(),
            NodePtr::Pair(place) => {
                &&& place < self.pairs@.len()
                &&& rank(self.pairs@[place as int].0) <= place
                &&& rank(self.pairs@[place as int].1) <= place
                &&& self.has(self.pairs@[place as int].0)
                &&& self.has(self.pairs@[place as int].1)
            },
        }
    }

    /// The tree under `node`.
    pub closed spec fn tree_of(&self, node: NodePtr) -> Tree
        decreases rank(node),
    {
        match node {
            NodePtr::Atom(place) => if place < self.atoms@.len() {
                Tree::Atom(self.atoms@[place as int]@)
            } else {
                Tree::nil()
            },
            NodePtr::Pair(place) => if place < self.pairs@.len() && rank(
                self.pairs@[place as int].0,
            ) <= place && rank(self.pairs@[place as int].1) <= place {
                Tree::pair(
                    self.tree_of(self.pairs@[place as int].0),
                    self.tree_of(self.pairs@[place as int].1),
                )
            } else {
                Tree::nil()
            },
        }
    }

    /// Whether `later` holds all the entries of `self`, at the same places.
    spec fn grows_to(&self, later: &TreeArena) -> bool {
        &&& self.atoms@.len() <= later.atoms@.len()
        &&& self.pairs@.len() <= later.pairs@.len()
        &&& forall|i: int| 0 <= i < self.atoms@.len() ==> later.atoms@[i] == self.atoms@[i]
        &&& forall|i: int| 0 <= i < self.pairs@.len() ==> later.pairs@[i] == self.pairs@[i]
    }

    /// A node of an arena is the same node in an arena that grew from it.
    proof fn lemma_grows_keeps(&self, later: &TreeArena, node: NodePtr)
        requires
            self.grows_to(later),
            self.has(node),
        ensures
            later.has(node),
            later.tree_of(node) == self.tree_of(node),
        decreases rank(node),
    {
        match node {
            NodePtr::Atom(_) => {},
            NodePtr::Pair(place) => {
                self.lemma_grows_keeps(later, self.pairs@[place as int].0);
                self.lemma_grows_keeps(later, self.pairs@[place as int].1);
            },
        }
    }

    /// An arena without nodes.
    pub fn new() -> (arena: TreeArena)
        ensures
            forall|node: NodePtr| !arena.has(node),
    {
        TreeArena { atoms: Vec::new(), pairs: Vec::new() }
    }
}

impl KlvmEncoder for TreeArena {
    type Node = NodePtr;

    open spec fn holds(&self, node: NodePtr) -> bool {
        self.has(node)
    }

    open spec fn tree(&self, node: NodePtr) -> Tree {
        self.tree_of(node)
    }

    open spec fn total() -> bool {
        true
    }

    open spec fn failure(&self) -> Option<ToKlvmError> {
        None
    }

    proof fn lemma_clone_same(&self, node: NodePtr, copy: NodePtr) {
        assert(call_ensures(NodePtr::clone, (&node,), copy) ==> node == copy);
    }

    fn encode_atom(&mut self, bytes: &[u8]) -> (r: Result<NodePtr, ToKlvmError>) {
        let place = self.atoms.len();
        self.atoms.push(slice_to_vec(bytes));
        proof {
            assert forall|kept: NodePtr| #[trigger] old(self).has(kept) implies self.has(kept)
                && self.tree_of(kept) == old(self).tree_of(kept) by {
                old(self).lemma_grows_keeps(self, kept);
            }
        }
        Ok(NodePtr::Atom(place))
    }

    fn encode_pair(&mut self, first: NodePtr, rest: NodePtr) -> (r: Result<NodePtr, ToKlvmError>) {
        let place = self.pairs.len();
        self.pairs.push((first, rest));
        proof {
            assert forall|kept: NodePtr| #[trigger] old(self).has(kept) implies self.has(kept)
                && self.tree_of(kept) == old(self).tree_of(kept) by {
                old(self).lemma_grows_keeps(self, kept);
            }
        }
        Ok(NodePtr::Pair(place))
    }
}

impl KlvmDecoder for TreeArena {
    type Node = NodePtr;

    open spec fn holds(&self, node: NodePtr) -> bool {
        self.has(node)
    }

    open spec fn tree(&self, node: NodePtr) -> Tree {
        self.tree_of(node)
    }

    proof fn lemma_clone_same(&self, node: NodePtr, copy: NodePtr) {
        assert(call_ensures(NodePtr::clone, (&node,), copy) ==> node == copy);
    }

    fn decode_atom(&self, node: &NodePtr) -> (r: Result<&[u8], FromKlvmError>) {
        match node {
            NodePtr::Atom(place) => Ok(self.atoms[*place].as_slice()),
            NodePtr::Pair(_) => Err(FromKlvmError::ExpectedAtom),
        }
    }

    fn decode_pair(&self, node: &NodePtr) -> (r: Result<(NodePtr, NodePtr), FromKlvmError>) {
        match node {
            NodePtr::Atom(_) => Err(FromKlvmError::ExpectedPair),
            NodePtr::Pair(place) => Ok(self.pairs[*place]),
        }
    }
}

} // verus!
