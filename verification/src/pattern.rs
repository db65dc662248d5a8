use crate::kind::{PatternKind, SyntaxKind};
use crate::range::SourceRange;
use crate::tree::SyntaxNode;
use vstd::prelude::*;

verus! {

/// What the children of a node are looked through for.
#[derive(Clone, Copy, Debug, PartialEq, Eq, Structural)]
pub enum Part {
    /// A pattern, of whatever shape.
    Pattern,
    /// The expression that gives a binding its value.
    Initializer,
    /// The name that a binding introduces.
    Name,
    /// The `:` in front of a type annotation.
    TypeSeparator,
}

impl SyntaxKind {
    /// Whether a child of this kind is the part looked for.
    pub open spec fn spec_is_part(self, part: Part) -> bool {
        match part {
            Part::Pattern => self is Pattern,
            Part::Initializer => self == SyntaxKind::Expression,
            Part::Name => self == SyntaxKind::Name,
            Part::TypeSeparator => self == SyntaxKind::Colon,
        }
    }

    #[verifier::when_used_as_spec(spec_is_part)]
    pub fn is_part(self, part: Part) -> (fits: bool)
        ensures
            fits == self.spec_is_part(part),
    {
        match part {
            Part::Pattern => match self {
                SyntaxKind::Pattern(_) => true,
                _ => false,
            },
            Part::Initializer => self == SyntaxKind::Expression,
            Part::Name => self == SyntaxKind::Name,
            Part::TypeSeparator => self == SyntaxKind::Colon,
        }
    }
}

/// The first of `nodes`, from the left, that is the part looked for.
pub open spec fn first_part(nodes: Seq<SyntaxNode>, part: Part) -> Option<SyntaxNode>
    decreases nodes.len(),
{
    if nodes.len() == 0 {
        None
    } else if nodes[0].kind.spec_is_part(part) {
        Some(nodes[0])
    } else {
        first_part(nodes.drop_first(), part)
    }
}

/// `first_part` gives the leftmost node that is the part, and nothing only
/// where no node is.
pub proof fn lemma_first_part(nodes: Seq<SyntaxNode>, part: Part)
    ensures
        match first_part(nodes, part) {
            Some(found) => exists|i: int|
                0 <= i < nodes.len() && #[trigger] nodes[i] == found && found.kind.spec_is_part(
                    part,
                ) && forall|j: int| 0 <= j < i ==> !(#[trigger] nodes[j]).kind.spec_is_part(part),
            None => forall|j: int|
                0 <= j < nodes.len() ==> !(#[trigger] nodes[j]).kind.spec_is_part(part),
        },
    decreases nodes.len(),
{
    if nodes.len() > 0 {
        let rest = nodes.drop_first();
        if nodes[0].kind.spec_is_part(part) {
            assert(nodes[0] == nodes[0]);
        } else {
            lemma_first_part(rest, part);
            match first_part(rest, part) {
                Some(found) => {
                    let i = choose|i: int|
                        0 <= i < rest.len() && #[trigger] rest[i] == found
                            && found.kind.spec_is_part(part) && forall|j: int|
                            0 <= j < i ==> !(#[trigger] rest[j]).kind.spec_is_part(part);
                    assert(nodes[i + 1] == found);
                    assert forall|j: int| 0 <= j < i + 1 implies !(#[trigger] nodes[j]).kind.spec_is_part(
                        part,
                    ) by {
                        if j > 0 {
                            assert(rest[j - 1] == nodes[j]);
                        }
                    }
                },
                None => {
                    assert forall|j: int|
                        0 <= j < nodes.len() implies !(#[trigger] nodes[j]).kind.spec_is_part(
                        part,
                    ) by {
                        if j > 0 {
                            assert(rest[j - 1] == nodes[j]);
                        }
                    }
                },
            }
        }
    }
}

impl SyntaxNode {
    /// The first child, from the left, that is the part looked for.
    pub open spec fn spec_first_child(self, part: Part) -> Option<SyntaxNode> {
        first_part(self.children@, part)
    }

    /// Finds the first child, from the left, that is the part looked for.
    pub fn first_child(&self, part: Part) -> (found: Option<&SyntaxNode>)
        ensures
            match found {
                Some(child) => self.spec_first_child(part) == Some(*child),
                None => self.spec_first_child(part) is None,
            },
    {
        let mut i: usize = 0;
        proof {
            assert(self.children@.skip(0) =~= self.children@);
        }
        while i < self.children.len()
            invariant
                i <= self.children@.len(),
                first_part(self.children@, part) == first_part(self.children@.skip(i as int), part),
            decreases self.children@.len() - i,
        {
            proof {
                let rest = self.children@.skip(i as int);
                assert(rest[0] == self.children@[i as int]);
                assert(rest.drop_first() =~= self.children@.skip(i + 1));
            }
            if self.children[i].kind.is_part(part) {
                return Some(&self.children[i]);
            }
            i += 1;
        }
        None
    }
}

/// The spans of a pattern that is a plain name binding: first that of the
/// name alone, after which a type is written, then that of the whole
/// pattern. Nothing for a pattern of any other shape, for a binding without
/// a name, and for a node that is no pattern.
pub open spec fn spec_classify(pattern: SyntaxNode) -> Option<(SourceRange, SourceRange)> {
    if pattern.kind == SyntaxKind::Pattern(PatternKind::Binding) {
        match pattern.spec_first_child(Part::Name) {
            Some(name) => Some((name.range, pattern.range)),
            None => None,
        }
    } else {
        None
    }
}

/// Tells a plain name binding from every other pattern, and gives its spans:
/// first that of the name alone, then that of the whole pattern.
pub fn classify(pattern: &SyntaxNode) -> (spans: Option<(SourceRange, SourceRange)>)
    ensures
        spans == spec_classify(*pattern),
{
    match pattern.kind {
        SyntaxKind::Pattern(shape) => match shape {
            PatternKind::Binding => match pattern.first_child(Part::Name) {
                Some(name) => Some((name.range, pattern.range)),
                None => None,
            },
            PatternKind::Boxed
            | PatternKind::ConstBlock
            | PatternKind::Literal
            | PatternKind::Macro
            | PatternKind::Or
            | PatternKind::Paren
            | PatternKind::Path
            | PatternKind::Range
            | PatternKind::Record
            | PatternKind::Reference
            | PatternKind::Rest
            | PatternKind::Slice
            | PatternKind::Tuple
            | PatternKind::TupleStruct
            | PatternKind::Wildcard => None,
        },
        SyntaxKind::LetStatement
        | SyntaxKind::Name
        | SyntaxKind::Colon
        | SyntaxKind::Expression
        | SyntaxKind::Other => None,
    }
}

} // verus!
