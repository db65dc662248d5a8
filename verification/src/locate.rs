use crate::kind::SyntaxKind;
use crate::tree::SyntaxNode;
use vstd::prelude::*;

verus! {

/// The first of `nodes`, from the left, in which a search for `kind` at
/// `offset` finds something, and what it finds there.
pub open spec fn find_first(nodes: Seq<SyntaxNode>, kind: SyntaxKind, offset: u32) -> Option<
    SyntaxNode,
>
    decreases nodes,
{
    if nodes.len() == 0 {
        None
    } else {
        match nodes[0].spec_find_enclosing(kind, offset) {
            Some(found) => Some(found),
            None => find_first(nodes.drop_first(), kind, offset),
        }
    }
}

impl SyntaxNode {
    /// Whether `other` is this node or lies below it.
    pub open spec fn has(self, other: SyntaxNode) -> bool
        decreases self,
    {
        self == other || self.has_below(other)
    }

    /// Whether `other` lies below this node.
    pub open spec fn has_below(self, other: SyntaxNode) -> bool
        decreases self, 0nat,
    {
        exists|i: int|
            0 <= i < self.children@.len() && (#[trigger] self.children@[i]).has(other)
    }

    /// Whether this node is of `kind` and the cursor at `offset` is on it.
    pub open spec fn matches_at(self, kind: SyntaxKind, offset: u32) -> bool {
        self.kind == kind && self.range.spec_touches(offset)
    }

    /// Whether this node matches and no node below it does.
    pub open spec fn innermost_at(self, kind: SyntaxKind, offset: u32) -> bool {
        &&& self.matches_at(kind, offset)
        &&& forall|below: SyntaxNode| #[trigger]
            self.has_below(below) ==> !below.matches_at(kind, offset)
    }

    /// The innermost node of `kind` in this subtree that the cursor at
    /// `offset` is on. Where the cursor stands between two such nodes, it is
    /// the left one.
    pub open spec fn spec_find_enclosing(self, kind: SyntaxKind, offset: u32) -> Option<
        SyntaxNode,
    >
        decreases self,
    {
        if !self.range.spec_touches(offset) {
            None
        } else {
            match find_first(self.children@, kind, offset) {
                Some(found) => Some(found),
                None => if self.kind == kind {
                    Some(self)
                } else {
                    None
                },
            }
        }
    }

    /// What a search of this subtree has to answer: a node of the subtree
    /// that matches and is innermost, or nothing where no node matches.
    pub open spec fn answers(self, found: Option<SyntaxNode>, kind: SyntaxKind, offset: u32) -> bool {
        match found {
            Some(node) => self.has(node) && node.innermost_at(kind, offset),
            None => forall|node: SyntaxNode| #[trigger]
                self.has(node) ==> !node.matches_at(kind, offset),
        }
    }

    /// Finds the innermost node of `kind` that the cursor at `offset` is on.
    #[verifier::loop_isolation(false)]
    pub fn find_enclosing(&self, kind: SyntaxKind, offset: u32) -> (found: Option<&SyntaxNode>)
        ensures
            match found {
                Some(node) => self.spec_find_enclosing(kind, offset) == Some(*node),
                None => self.spec_find_enclosing(kind, offset) is None,
            },
            self.wf() ==> self.answers(self.spec_find_enclosing(kind, offset), kind, offset),
        decreases self,
    {
        proof {
            if self.wf() {
                lemma_find_enclosing(*self, kind, offset);
            }
        }
        if !self.range.touches(offset) {
            return None;
        }
        let mut i: usize = 0;
        proof {
            assert(self.children@.skip(0) =~= self.children@);
        }
        while i < self.children.len()
            invariant
                i <= self.children@.len(),
                find_first(self.children@, kind, offset) == find_first(
                    self.children@.skip(i as int),
                    kind,
                    offset,
                ),
            decreases self.children@.len() - i,
        {
            let ghost rest = self.children@.skip(i as int);
            proof {
                assert(rest[0] == self.children@[i as int]);
                assert(rest.drop_first() =~= self.children@.skip(i + 1));
            }
            match self.children[i].find_enclosing(kind, offset) {
                Some(found) => {
                    return Some(found);
                },
                None => {},
            }
            i += 1;
        }
        if self.kind == kind {
            Some(self)
        } else {
            None
        }
    }
}

/// In a well-formed tree every node lies inside the span of the nodes above
/// it, and is well-formed itself.
pub proof fn lemma_has_inside(tree: SyntaxNode, node: SyntaxNode)
    requires
        tree.wf(),
        tree.has(node),
    ensures
        node.wf(),
        tree.range.spec_encloses(node.range),
    decreases tree,
{
    if tree != node {
        let i = choose|i: int|
            0 <= i < tree.children@.len() && (#[trigger] tree.children@[i]).has(node);
        lemma_has_inside(tree.children@[i], node);
    }
}

/// A search finds a node of the tree that is of the kind asked for, that the
/// cursor is on, and that has no such node below it; and it finds nothing
/// only where the tree has no node of that kind that the cursor is on.
pub proof fn lemma_find_enclosing(tree: SyntaxNode, kind: SyntaxKind, offset: u32)
    requires
        tree.wf(),
    ensures
        tree.answers(tree.spec_find_enclosing(kind, offset), kind, offset),
    decreases tree,
{
    if !tree.range.spec_touches(offset) {
        assert forall|node: SyntaxNode| #[trigger] tree.has(node) implies !node.matches_at(
            kind,
            offset,
        ) by {
            lemma_has_inside(tree, node);
        }
    } else {
        lemma_find_first(tree.children@, kind, offset);
        match find_first(tree.children@, kind, offset) {
            Some(found) => {
                assert(tree.has_below(found));
                assert(tree.has(found));
            },
            None => {
                assert forall|node: SyntaxNode| #[trigger] tree.has_below(node) implies !node.matches_at(
                    kind,
                    offset,
                ) by {
                    let i = choose|i: int|
                        0 <= i < tree.children@.len() && (#[trigger] tree.children@[i]).has(node);
                    assert(tree.children@[i].has(node));
                }
                if tree.kind == kind {
                    assert(tree.has(tree));
                    assert(tree.innermost_at(kind, offset));
                } else {
                    assert forall|node: SyntaxNode| #[trigger] tree.has(node) implies !node.matches_at(
                        kind,
                        offset,
                    ) by {
                        if node != tree {
                            assert(tree.has_below(node));
                        }
                    }
                }
            },
        }
    }
}

proof fn lemma_find_first(nodes: Seq<SyntaxNode>, kind: SyntaxKind, offset: u32)
    requires
        forall|i: int| 0 <= i < nodes.len() ==> (#[trigger] nodes[i]).wf(),
    ensures
        match find_first(nodes, kind, offset) {
            Some(found) => found.innermost_at(kind, offset) && exists|i: int|
                0 <= i < nodes.len() && (#[trigger] nodes[i]).has(found),
            None => forall|i: int, node: SyntaxNode|
                0 <= i < nodes.len() && (#[trigger] nodes[i].has(node)) ==> !node.matches_at(
                    kind,
                    offset,
                ),
        },
    decreases nodes,
{
    if nodes.len() > 0 {
        let rest = nodes.drop_first();
        lemma_find_enclosing(nodes[0], kind, offset);
        match nodes[0].spec_find_enclosing(kind, offset) {
            Some(found) => {
                assert(nodes[0].has(found));
            },
            None => {
                assert forall|i: int| 0 <= i < rest.len() implies (#[trigger] rest[i]).wf() by {
                    assert(rest[i] == nodes[i + 1]);
                }
                lemma_find_first(rest, kind, offset);
                match find_first(rest, kind, offset) {
                    Some(found) => {
                        let i = choose|i: int| 0 <= i < rest.len() && (#[trigger] rest[i]).has(found);
                        assert(nodes[i + 1] == rest[i]);
                        assert(nodes[i + 1].has(found));
                    },
                    None => {
                        assert forall|i: int, node: SyntaxNode|
                            0 <= i < nodes.len() && (#[trigger] nodes[i].has(
                                node,
                            )) implies !node.matches_at(kind, offset) by {
                            if i > 0 {
                                assert(rest[i - 1] == nodes[i]);
                                assert(rest[i - 1].has(node));
                            }
                        }
                    },
                }
            },
        }
    }
}

} // verus!
