use vstd::prelude::*;

verus! {

/// The shapes a pattern can have.
#[derive(Clone, Copy, Debug, PartialEq, Eq, Structural)]
pub enum PatternKind {
    /// A plain name, with `ref` or `mut` in front of it or not: `a`, `mut a`.
    Binding,
    Boxed,
    ConstBlock,
    Literal,
    Macro,
    Or,
    Paren,
    Path,
    Range,
    /// A struct pattern with named fields: `S { a, b }`.
    Record,
    Reference,
    Rest,
    Slice,
    Tuple,
    TupleStruct,
    Wildcard,
}

/// What a node or token of the syntax tree is, as far as this assist tells
/// kinds apart.
#[derive(Clone, Copy, Debug, PartialEq, Eq, Structural)]
pub enum SyntaxKind {
    LetStatement,
    Pattern(PatternKind),
    /// The name that a binding introduces.
    Name,
    /// The `:` token, which separates a pattern from its type annotation.
    Colon,
    Expression,
    Other,
}

// The parser, `ra_ap_syntax` 0.0.326, numbers the kinds of its nodes and
// tokens. What follows are its numbers for the kinds told apart here.
pub const TAG_COLON: u16 = 29;
pub const TAG_LET_STATEMENT: u16 = 211;
pub const TAG_NAME: u16 = 233;

pub const TAG_BOX_PATTERN: u16 = 174;
pub const TAG_CONST_BLOCK_PATTERN: u16 = 181;
pub const TAG_BINDING_PATTERN: u16 = 201;
pub const TAG_LITERAL_PATTERN: u16 = 216;
pub const TAG_MACRO_PATTERN: u16 = 222;
pub const TAG_OR_PATTERN: u16 = 237;
pub const TAG_PAREN_PATTERN: u16 = 242;
pub const TAG_PATH_PATTERN: u16 = 246;
pub const TAG_RANGE_PATTERN: u16 = 252;
pub const TAG_RECORD_PATTERN: u16 = 258;
pub const TAG_REFERENCE_PATTERN: u16 = 262;
pub const TAG_REST_PATTERN: u16 = 265;
pub const TAG_SLICE_PATTERN: u16 = 270;
pub const TAG_TUPLE_PATTERN: u16 = 283;
pub const TAG_TUPLE_STRUCT_PATTERN: u16 = 284;
pub const TAG_WILDCARD_PATTERN: u16 = 304;

/// The numbers of the kinds that are expressions, in rising order.
pub const EXPRESSION_TAGS: [u16; 36] = [
    153, 158, 170, 171, 172, 173, 175, 176, 177, 178, 183, 190, 195, 197, 202, 205, 210, 215,
    217, 220, 228, 231, 236, 241, 245, 249, 251, 253, 261, 266, 279, 280, 292, 303, 305, 306,
];

/// The pattern shape that the parser numbers `tag`, if it is one.
pub open spec fn spec_pattern_kind(tag: u16) -> Option<PatternKind> {
    if tag == TAG_BINDING_PATTERN {
        Some(PatternKind::Binding)
    } else if tag == TAG_BOX_PATTERN {
        Some(PatternKind::Boxed)
    } else if tag == TAG_CONST_BLOCK_PATTERN {
        Some(PatternKind::ConstBlock)
    } else if tag == TAG_LITERAL_PATTERN {
        Some(PatternKind::Literal)
    } else if tag == TAG_MACRO_PATTERN {
        Some(PatternKind::Macro)
    } else if tag == TAG_OR_PATTERN {
        Some(PatternKind::Or)
    } else if tag == TAG_PAREN_PATTERN {
        Some(PatternKind::Paren)
    } else if tag == TAG_PATH_PATTERN {
        Some(PatternKind::Path)
    } else if tag == TAG_RANGE_PATTERN {
        Some(PatternKind::Range)
    } else if tag == TAG_RECORD_PATTERN {
        Some(PatternKind::Record)
    } else if tag == TAG_REFERENCE_PATTERN {
        Some(PatternKind::Reference)
    } else if tag == TAG_REST_PATTERN {
        Some(PatternKind::Rest)
    } else if tag == TAG_SLICE_PATTERN {
        Some(PatternKind::Slice)
    } else if tag == TAG_TUPLE_PATTERN {
        Some(PatternKind::Tuple)
    } else if tag == TAG_TUPLE_STRUCT_PATTERN {
        Some(PatternKind::TupleStruct)
    } else if tag == TAG_WILDCARD_PATTERN {
        Some(PatternKind::Wildcard)
    } else {
        None
    }
}

/// The kind that the parser numbers `tag`.
pub open spec fn spec_from_tag(tag: u16) -> SyntaxKind {
    if tag == TAG_LET_STATEMENT {
        SyntaxKind::LetStatement
    } else if tag == TAG_NAME {
        SyntaxKind::Name
    } else if tag == TAG_COLON {
        SyntaxKind::Colon
    } else if spec_pattern_kind(tag) is Some {
        SyntaxKind::Pattern(spec_pattern_kind(tag)->0)
    } else if EXPRESSION_TAGS@.contains(tag) {
        SyntaxKind::Expression
    } else {
        SyntaxKind::Other
    }
}

fn pattern_kind(tag: u16) -> (shape: Option<PatternKind>)
    ensures
        shape == spec_pattern_kind(tag),
{
    if tag == TAG_BINDING_PATTERN {
        Some(PatternKind::Binding)
    } else if tag == TAG_BOX_PATTERN {
        Some(PatternKind::Boxed)
    } else if tag == TAG_CONST_BLOCK_PATTERN {
        Some(PatternKind::ConstBlock)
    } else if tag == TAG_LITERAL_PATTERN {
        Some(PatternKind::Literal)
    } else if tag == TAG_MACRO_PATTERN {
        Some(PatternKind::Macro)
    } else if tag == TAG_OR_PATTERN {
        Some(PatternKind::Or)
    } else if tag == TAG_PAREN_PATTERN {
        Some(PatternKind::Paren)
    } else if tag == TAG_PATH_PATTERN {
        Some(PatternKind::Path)
    } else if tag == TAG_RANGE_PATTERN {
        Some(PatternKind::Range)
    } else if tag == TAG_RECORD_PATTERN {
        Some(PatternKind::Record)
    } else if tag == TAG_REFERENCE_PATTERN {
        Some(PatternKind::Reference)
    } else if tag == TAG_REST_PATTERN {
        Some(PatternKind::Rest)
    } else if tag == TAG_SLICE_PATTERN {
        Some(PatternKind::Slice)
    } else if tag == TAG_TUPLE_PATTERN {
        Some(PatternKind::Tuple)
    } else if tag == TAG_TUPLE_STRUCT_PATTERN {
        Some(PatternKind::TupleStruct)
    } else if tag == TAG_WILDCARD_PATTERN {
        Some(PatternKind::Wildcard)
    } else {
        None
    }
}

fn is_expression_tag(tag: u16) -> (found: bool)
    ensures
        found == EXPRESSION_TAGS@.contains(tag),
{
    let mut i: usize = 0;
    while i < EXPRESSION_TAGS.len()
        invariant
            i <= EXPRESSION_TAGS@.len(),
            forall|j: int| 0 <= j < i ==> EXPRESSION_TAGS@[j] != tag,
        decreases EXPRESSION_TAGS@.len() - i,
    {
        if EXPRESSION_TAGS[i] == tag {
            return true;
        }
        i += 1;
    }
    false
}

impl SyntaxKind {
    /// The kind that the parser numbers `tag`.
    pub fn from_tag(tag: u16) -> (kind: SyntaxKind)
        ensures
            kind == spec_from_tag(tag),
    {
        if tag == TAG_LET_STATEMENT {
            SyntaxKind::LetStatement
        } else if tag == TAG_NAME {
            SyntaxKind::Name
        } else if tag == TAG_COLON {
            SyntaxKind::Colon
        } else {
            match pattern_kind(tag) {
                Some(shape) => SyntaxKind::Pattern(shape),
                None => if is_expression_tag(tag) {
                    SyntaxKind::Expression
                } else {
                    SyntaxKind::Other
                },
            }
        }
    }
}

} // verus!
