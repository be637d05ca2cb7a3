//! The mathematical model of a node: an atom or a pair.

use vstd::prelude::*;

verus! {

/// What a node handle stands for: a byte string, or two trees in order.
pub ghost enum Tree {
    Atom(Seq<u8>),
    Pair(Box<Tree>, Box<Tree>),
}

impl Tree {
    /// The empty atom, which stands for nil, absence, zero and the end of a list.
    pub open spec fn nil() -> Tree {
        Tree::Atom(Seq::empty())
    }

    /// Whether this tree is the empty atom.
    pub open spec fn is_nil(self) -> bool {
        self matches Tree::Atom(bytes) && bytes.len() == 0
    }

    /// The pair of two trees.
    pub open spec fn pair(first: Tree, rest: Tree) -> Tree {
        Tree::Pair(Box::new(first), Box::new(rest))
    }

    /// The right-nested list of `items`, ended by the empty atom.
    pub open spec fn list(items: Seq<Tree>) -> Tree
        decreases items.len(),
    {
        if items.len() == 0 {
            Tree::nil()
        } else {
            Tree::pair(items[0], Tree::list(items.drop_first()))
        }
    }

    /// The number of pairs on the longest path from this node down to an atom.
    pub open spec fn height(self) -> nat
        decreases self,
    {
        match self {
            Tree::Atom(_) => 0,
            Tree::Pair(first, rest) => {
                let a = first.height();
                let b = rest.height();
                if a >= b { a + 1 } else { b + 1 }
            },
        }
    }
}

/// Two empty atoms are the same tree.
pub proof fn lemma_nil_unique(tree: Tree)
    requires
        tree.is_nil(),
    ensures
        tree == Tree::nil(),
{
    assert(tree->Atom_0 =~= Seq::<u8>::empty());
}

} // verus!
