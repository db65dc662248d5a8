use crate::kind::SyntaxKind;
use crate::range::fits_offsets;
use crate::semantic::{
    inferred_type, parsed_walk, single_file_database, source_text, syntax_walk, type_of_node,
};
use crate::tree::SyntaxNode;
use crate::types::ResolvedType;
use ra_ap_ide_db::RootDatabase;
use vstd::prelude::*;

verus! {

/// What an assist works on: one source file, parsed and known to the
/// semantic model, and the cursor in it.
pub struct AssistCtx {
    db: RootDatabase,
    tree: SyntaxNode,
    offset: u32,
}

impl AssistCtx {
    /// The text is short enough for its offsets, and the tree is the
    /// well-formed one that the parser's walk over the text is the walk of.
    #[verifier::type_invariant]
    spec fn holds_parsed_tree(self) -> bool {
        &&& fits_offsets(source_text(self.db))
        &&& self.tree.walks_as(parsed_walk(source_text(self.db)))
    }

    /// The text of the source file.
    pub closed spec fn text(self) -> Seq<char> {
        source_text(self.db)
    }

    /// The syntax tree of the source file.
    pub closed spec fn syntax(self) -> SyntaxNode {
        self.tree
    }

    /// The offset of the cursor.
    pub closed spec fn cursor(self) -> u32 {
        self.offset
    }

    /// What the semantic model answers for this file: the type of the
    /// expression that is the node with a given index.
    pub open spec fn type_at(self, index: nat) -> Option<ResolvedType> {
        inferred_type(self.text(), index)
    }

    /// Parses `text`, makes it known to the semantic model, and puts the
    /// cursor at `offset`. There is no context where the text has more than
    /// `u32::MAX` bytes, which is more than offsets can address, and where
    /// the parser's walk over the text is the walk of no well-formed tree.
    pub fn with_single_file(text: &str, offset: u32) -> (made: Option<AssistCtx>)
        ensures
            match made {
                Some(ctx) => {
                    &&& fits_offsets(text@)
                    &&& ctx.text() == text@
                    &&& ctx.cursor() == offset
                    &&& ctx.syntax().walks_as(parsed_walk(text@))
                },
                None => !fits_offsets(text@) || forall|tree: SyntaxNode|
                    !#[trigger] tree.walks_as(parsed_walk(text@)),
            },
    {
        if text.as_bytes().len() > u32::MAX as usize {
            return None;
        }
        let db = single_file_database(text);
        let walk = syntax_walk(&db);
        match SyntaxNode::from_walk(&walk) {
            Some(tree) => Some(AssistCtx { db, tree, offset }),
            None => None,
        }
    }

    /// The root of the syntax tree.
    pub fn root(&self) -> (tree: &SyntaxNode)
        ensures
            *tree == self.syntax(),
            tree.walks_as(parsed_walk(self.text())),
    {
        proof {
            use_type_invariant(self);
        }
        &self.tree
    }

    /// The offset of the cursor.
    pub fn offset(&self) -> (offset: u32)
        ensures
            offset == self.cursor(),
    {
        self.offset
    }

    /// Finds the innermost node of `kind` that the cursor is on.
    pub fn node_at_offset(&self, kind: SyntaxKind) -> (found: Option<&SyntaxNode>)
        ensures
            match found {
                Some(node) => self.syntax().spec_find_enclosing(kind, self.cursor()) == Some(*node),
                None => self.syntax().spec_find_enclosing(kind, self.cursor()) is None,
            },
            self.syntax().answers(
                self.syntax().spec_find_enclosing(kind, self.cursor()),
                kind,
                self.cursor(),
            ),
    {
        proof {
            use_type_invariant(self);
        }
        self.tree.find_enclosing(kind, self.offset)
    }

    /// Asks the semantic model for the type of the expression that is the
    /// node with the given index.
    pub fn type_of(&self, index: usize) -> (ty: Option<ResolvedType>)
        ensures
            ty == self.type_at(index as nat),
    {
        proof {
            use_type_invariant(self);
        }
        type_of_node(&self.db, index)
    }
}

} // verus!
