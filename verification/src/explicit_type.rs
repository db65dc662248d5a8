use crate::assist::{Assist, AssistBuilder, AssistId, AssistView};
use crate::context::AssistCtx;
use crate::kind::{PatternKind, SyntaxKind};
use crate::locate::{lemma_find_enclosing, lemma_has_inside};
use crate::pattern::{classify, lemma_first_part, spec_classify, Part};
use crate::range::SourceRange;
use crate::tree::SyntaxNode;
use crate::types::{is_unknown, ResolvedType};
use vstd::prelude::*;
use vstd::string::StringExecFns;

verus! {

/// A binding that has passed every test on its syntax: where its initializer
/// stands in the tree, and the spans of its name and of its whole pattern.
#[derive(Clone, Copy, Debug, PartialEq, Eq, Structural)]
pub struct Candidate {
    /// The index of the initializer among the nodes of the tree.
    pub initializer: usize,
    pub name: SourceRange,
    pub pattern: SourceRange,
}

/// Whether a `:` stands directly below the statement, which is where a type
/// annotation begins.
pub open spec fn has_annotation(stmt: SyntaxNode) -> bool {
    exists|i: int|
        0 <= i < stmt.children@.len() && (#[trigger] stmt.children@[i]).kind == SyntaxKind::Colon
}

/// The binding of a `let` statement that can take a type annotation: the
/// statement has an initializer, its pattern is a plain name binding, and no
/// type annotation is there yet.
pub open spec fn spec_check_syntax(stmt: SyntaxNode) -> Option<Candidate> {
    match (stmt.spec_first_child(Part::Initializer), stmt.spec_first_child(Part::Pattern)) {
        (Some(initializer), Some(pattern)) => match spec_classify(pattern) {
            Some((name, whole)) => if has_annotation(stmt) {
                None
            } else {
                Some(Candidate { initializer: initializer.index, name, pattern: whole })
            },
            None => None,
        },
        _ => None,
    }
}

/// The type to write for a binding, with the spans of the binding's name and
/// pattern: there is one where the semantic model has a type for the
/// initializer and nothing in that type is unknown.
pub open spec fn spec_check_type(binding: Candidate, inferred: Option<ResolvedType>) -> Option<
    (ResolvedType, SourceRange, SourceRange),
> {
    match inferred {
        Some(ty) => if ty.spec_is_unknown() {
            None
        } else {
            Some((ty, binding.name, binding.pattern))
        },
        None => None,
    }
}

/// What the checks on a `let` statement give, where `types` is what the
/// semantic model answers for each node index. The model is asked only about
/// the initializer, and only once the syntax has passed.
pub open spec fn spec_check(stmt: SyntaxNode, types: spec_fn(nat) -> Option<ResolvedType>) -> Option<
    (ResolvedType, SourceRange, SourceRange),
> {
    match spec_check_syntax(stmt) {
        Some(binding) => spec_check_type(binding, types(binding.initializer as nat)),
        None => None,
    }
}

/// The assist that writes `ty` behind the name of a binding: one insertion,
/// at the end of the name, of `": "` and the type; the target is the whole
/// pattern.
pub open spec fn spec_assist(ty: ResolvedType, name: SourceRange, pattern: SourceRange) -> AssistView {
    AssistView {
        id: "add_explicit_type"@,
        label: "add explicit type"@,
        target: pattern,
        edit: seq![(name.end, ": "@ + ty.spec_format())],
    }
}

/// The assist for the cursor at `offset` in `tree`: the one for the
/// innermost `let` statement that the cursor is on, where that statement
/// passes the checks.
pub open spec fn spec_add_explicit_type(
    tree: SyntaxNode,
    offset: u32,
    types: spec_fn(nat) -> Option<ResolvedType>,
) -> Option<AssistView> {
    match tree.spec_find_enclosing(SyntaxKind::LetStatement, offset) {
        Some(stmt) => match spec_check(stmt, types) {
            Some((ty, name, pattern)) => Some(spec_assist(ty, name, pattern)),
            None => None,
        },
        None => None,
    }
}

/// Tests the syntax of a `let` statement: it must have an initializer, its
/// pattern must be a plain name binding, and it must not have a type
/// annotation yet.
pub fn check_syntax(stmt: &SyntaxNode) -> (binding: Option<Candidate>)
    ensures
        binding == spec_check_syntax(*stmt),
{
    let initializer = match stmt.first_child(Part::Initializer) {
        Some(initializer) => initializer,
        None => {
            return None;
        },
    };
    let pattern = match stmt.first_child(Part::Pattern) {
        Some(pattern) => pattern,
        None => {
            return None;
        },
    };
    let (name, whole) = match classify(pattern) {
        Some(spans) => spans,
        None => {
            return None;
        },
    };
    proof {
        lemma_first_part(stmt.children@, Part::TypeSeparator);
    }
    if stmt.first_child(Part::TypeSeparator).is_some() {
        return None;
    }
    Some(Candidate { initializer: initializer.index, name, pattern: whole })
}

/// Tests what the semantic model answered for the initializer of a binding:
/// there must be a type, and nothing in it may be unknown.
pub fn check_type(binding: &Candidate, inferred: Option<ResolvedType>) -> (checked: Option<
    (ResolvedType, SourceRange, SourceRange),
>)
    ensures
        checked == spec_check_type(*binding, inferred),
{
    match inferred {
        Some(ty) => {
            if is_unknown(&ty) {
                None
            } else {
                Some((ty, binding.name, binding.pattern))
            }
        },
        None => None,
    }
}

/// Runs every check on a `let` statement of the file: first its syntax,
/// then, only where that passes, the type that the semantic model infers
/// for its initializer.
pub fn check(ctx: &AssistCtx, stmt: &SyntaxNode) -> (checked: Option<
    (ResolvedType, SourceRange, SourceRange),
>)
    ensures
        checked == spec_check(*stmt, |index: nat| ctx.type_at(index)),
{
    match check_syntax(stmt) {
        Some(binding) => {
            let inferred = ctx.type_of(binding.initializer);
            check_type(&binding, inferred)
        },
        None => None,
    }
}

/// Builds the assist that writes `ty` behind the name of a binding.
pub fn annotate(ty: &ResolvedType, name: SourceRange, pattern: SourceRange) -> (built: Option<Assist>)
    ensures
        built matches Some(assist) && assist@ == spec_assist(*ty, name, pattern),
{
    let mut edit = AssistBuilder::empty();
    edit.target(pattern);
    edit.insert(name.end, String::from_str(": ").concat(crate::types::format(ty).as_str()));
    let built = edit.build(AssistId("add_explicit_type"), String::from_str("add explicit type"));
    proof {
        let assist = built->0;
        assert(assist@.edit =~= seq![(name.end, ": "@ + ty.spec_format())]);
    }
    built
}

/// Offers to write out the type of the binding that the cursor is on.
///
/// There is an assist where the innermost `let` statement that the cursor is
/// on has an initializer, binds a plain name, has no type annotation yet,
/// and the semantic model infers for the initializer a type with nothing
/// unknown in it.
pub fn add_explicit_type(ctx: &AssistCtx) -> (offered: Option<Assist>)
    ensures
        match offered {
            Some(assist) => spec_add_explicit_type(
                ctx.syntax(),
                ctx.cursor(),
                |index: nat| ctx.type_at(index),
            ) == Some(assist@),
            None => spec_add_explicit_type(
                ctx.syntax(),
                ctx.cursor(),
                |index: nat| ctx.type_at(index),
            ) is None,
        },
{
    let stmt = match ctx.node_at_offset(SyntaxKind::LetStatement) {
        Some(stmt) => stmt,
        None => {
            return None;
        },
    };
    match check(ctx, stmt) {
        Some((ty, name, pattern)) => annotate(&ty, name, pattern),
        None => None,
    }
}

/// A statement that has a type annotation already passes no check, whatever
/// its pattern, its initializer and the type inferred for it.
pub proof fn lemma_annotated_is_left_alone(
    stmt: SyntaxNode,
    types: spec_fn(nat) -> Option<ResolvedType>,
)
    requires
        has_annotation(stmt),
    ensures
        spec_check_syntax(stmt) is None,
        spec_check(stmt, types) is None,
{
}

/// A statement whose pattern is anything but a plain name binding passes no
/// check, however well the type of its initializer is known.
pub proof fn lemma_destructuring_is_left_alone(
    stmt: SyntaxNode,
    types: spec_fn(nat) -> Option<ResolvedType>,
)
    requires
        match stmt.spec_first_child(Part::Pattern) {
            Some(pattern) => pattern.kind != SyntaxKind::Pattern(PatternKind::Binding),
            None => true,
        },
    ensures
        spec_check_syntax(stmt) is None,
        spec_check(stmt, types) is None,
{
}

/// Where an assist is offered, it is for the innermost `let` statement that
/// the cursor is on; its one insertion stands at the end of the name of that
/// statement's binding, that is of the first name directly below its
/// pattern; and its target is the span of the whole pattern.
pub proof fn lemma_assist_spans(
    tree: SyntaxNode,
    offset: u32,
    types: spec_fn(nat) -> Option<ResolvedType>,
)
    requires
        spec_add_explicit_type(tree, offset, types) is Some,
    ensures
        ({
            let assist = spec_add_explicit_type(tree, offset, types)->0;
            let stmt = tree.spec_find_enclosing(SyntaxKind::LetStatement, offset);
            &&& stmt matches Some(stmt)
            &&& stmt.spec_first_child(Part::Pattern) matches Some(pattern)
            &&& pattern.spec_first_child(Part::Name) matches Some(name)
            &&& assist.edit.len() == 1
            &&& assist.edit[0].0 == name.range.end
            &&& assist.target == pattern.range
        }),
{
}

/// In a well-formed tree the edit stays where the binding is: the insertion
/// stands inside the target, the target inside the statement, and the
/// statement inside the tree.
pub proof fn lemma_assist_inside_statement(
    tree: SyntaxNode,
    offset: u32,
    types: spec_fn(nat) -> Option<ResolvedType>,
)
    requires
        tree.wf(),
        spec_add_explicit_type(tree, offset, types) is Some,
    ensures
        ({
            let assist = spec_add_explicit_type(tree, offset, types)->0;
            let stmt = tree.spec_find_enclosing(SyntaxKind::LetStatement, offset)->0;
            &&& assist.target.start <= assist.edit[0].0 <= assist.target.end
            &&& stmt.range.spec_encloses(assist.target)
            &&& stmt.range.spec_touches(offset)
            &&& tree.range.spec_encloses(stmt.range)
        }),
{
    let stmt = tree.spec_find_enclosing(SyntaxKind::LetStatement, offset)->0;
    let pattern = stmt.spec_first_child(Part::Pattern)->0;
    let name = pattern.spec_first_child(Part::Name)->0;
    lemma_find_enclosing(tree, SyntaxKind::LetStatement, offset);
    lemma_has_inside(tree, stmt);
    lemma_first_part(stmt.children@, Part::Pattern);
    lemma_first_part(pattern.children@, Part::Name);
    let i = choose|i: int| 0 <= i < stmt.children@.len() && #[trigger] stmt.children@[i] == pattern;
    assert(stmt.children@[i].wf());
    let j = choose|j: int| 0 <= j < pattern.children@.len() && #[trigger] pattern.children@[j] == name;
    assert(pattern.children@[j].wf());
}

} // verus!
