//! The parser and the semantic model behind the assist. Nothing in this file
//! is proved: each item states what the outside code is taken to do.

use crate::range::{fits_offsets, SourceRange};
use crate::tree::WalkStep;
use crate::types::ResolvedType;
use vstd::prelude::*;

verus! {

/// The semantic model's database, `ra_ap_ide_db::RootDatabase`.
#[verifier::external_type_specification]
#[verifier::external_body]
pub struct ExRootDatabase(ra_ap_ide_db::RootDatabase);

/// `ra_ap_base_db::CrateGraphBuilder`, which lists the crates of a database.
#[verifier::external_type_specification]
#[verifier::external_body]
pub struct ExCrateGraphBuilder(ra_ap_base_db::CrateGraphBuilder);

/// A type as the semantic model holds it, `ra_ap_hir::Type`.
#[verifier::external_type_specification]
#[verifier::external_body]
pub struct ExType<'db>(ra_ap_hir::Type<'db>);

/// `ra_ap_hir::DisplayTarget`, the crate for whose reader a type is rendered.
#[verifier::external_type_specification]
#[verifier::external_body]
pub struct ExDisplayTarget(ra_ap_hir::DisplayTarget);

/// The text of the one source file that a database made by
/// `single_file_database` holds. What the items below say of a database is
/// said of one made that way; the library makes no other.
pub uninterp spec fn source_text(db: ra_ap_ide_db::RootDatabase) -> Seq<char>;

/// The walk over the syntax tree that the parser builds for a text.
pub uninterp spec fn parsed_walk(text: Seq<char>) -> Seq<WalkStep>;

/// The type that the semantic model infers for the expression that is the
/// node with the given index in the syntax tree of a text; nothing where
/// that node is no expression or the model has no type for it.
pub uninterp spec fn inferred_type(text: Seq<char>, index: nat) -> Option<ResolvedType>;

/// Lists one local crate of the current edition whose root is file zero:
/// one call of `CrateGraphBuilder::add_crate_root` on an empty list, with no
/// name, no version, no cfg options, no environment, no dependencies and no
/// target data. The directory that the call wants for running proc macros,
/// of which there are none, is the root directory: `/`, or `C:/` where `/`
/// is no absolute path.
#[verifier::external_body]
pub(crate) fn single_crate_graph() -> ra_ap_base_db::CrateGraphBuilder {
    let root = ra_ap_vfs::AbsPathBuf::try_from("/").or(ra_ap_vfs::AbsPathBuf::try_from("C:/"));
    let mut graph = ra_ap_base_db::CrateGraphBuilder::default();
    graph.add_crate_root(
        ra_ap_vfs::FileId::from_raw(0), ra_ap_syntax::Edition::CURRENT, None, None,
        Default::default(), None, Default::default(),
        ra_ap_base_db::CrateOrigin::Local { repo: None, name: None }, Vec::new(), false,
        root.unwrap().into(),
        ra_ap_base_db::CrateWorkspaceData { target: Err("".into()), toolchain: None }.into(),
    );
    graph
}

/// Makes a database that holds `text` as file zero, `/main.rs`, the root of
/// its one crate: `RootDatabase::apply_change` on a new database, with a
/// change that sets the file set (`FileSet::insert`), the file's text and
/// the crate graph. The claim is that the database then holds this text.
#[verifier::external_body]
pub(crate) fn single_file_database(text: &str) -> (db: ra_ap_ide_db::RootDatabase)
    ensures
        source_text(db) == text@,
{
    let mut files = ra_ap_vfs::file_set::FileSet::default();
    let path = ra_ap_vfs::VfsPath::new_virtual_path("/main.rs".to_owned());
    files.insert(ra_ap_vfs::FileId::from_raw(0), path);
    let mut change = ra_ap_hir::ChangeWithProcMacros::default();
    change.set_roots(vec![ra_ap_base_db::SourceRoot::new_local(files)]);
    change.change_file(ra_ap_vfs::FileId::from_raw(0), Some(text.to_owned()));
    change.set_crate_graph(single_crate_graph());
    let mut db = ra_ap_ide_db::RootDatabase::default();
    db.apply_change(change);
    db
}

/// Parses file zero (`Semantics::parse_guess_edition`) and walks its syntax
/// tree with rowan's `preorder_with_tokens`, which enters each node and
/// token before its children and leaves it after them. Each step is handed
/// on with the number of the kind and the span of what is entered. The claim is that the
/// walk depends on the file's text alone. The parser keeps offsets in 32
/// bits and fails on a longer text, which is left out.
#[verifier::external_body]
pub(crate) fn syntax_walk(db: &ra_ap_ide_db::RootDatabase) -> (walk: Vec<WalkStep>)
    requires
        fits_offsets(source_text(*db)),
    ensures
        walk@ == parsed_walk(source_text(*db)),
{
    let file = ra_ap_hir::Semantics::new(db).parse_guess_edition(ra_ap_vfs::FileId::from_raw(0));
    ra_ap_syntax::AstNode::syntax(&file).preorder_with_tokens().map(|event| match event {
        ra_ap_syntax::WalkEvent::Enter(element) => WalkStep::Enter {
            tag: element.kind().into(),
            range: SourceRange {
                start: element.text_range().start().into(),
                end: element.text_range().end().into(),
            },
        },
        ra_ap_syntax::WalkEvent::Leave(_) => WalkStep::Leave,
    }).collect()
}

/// Turns a type of the semantic model into a `ResolvedType`. The error type
/// (`Type::is_unknown`, the model's method) becomes `Unknown`. Every other
/// type becomes `Applied`, with the text of `HirDisplay::display` and, as
/// parameters, the types that `Type::walk` visits in it: every type that
/// stands anywhere inside, each once, after the type itself, which comes
/// first and is left out. Each of them is handed on as it is alone: the
/// error type as `Unknown`, any other as `Other` with its own text.
#[verifier::external_body]
pub(crate) fn lower_type(
    db: &ra_ap_ide_db::RootDatabase,
    ty: &ra_ap_hir::Type<'_>,
    reader: ra_ap_hir::DisplayTarget,
) -> ResolvedType {
    if ty.is_unknown() {
        return ResolvedType::Unknown;
    }
    let mut inside = Vec::new();
    ty.walk(db, |part| inside.push(match part.is_unknown() {
        true => ResolvedType::Unknown,
        false => ResolvedType::Other {
            rendered: ra_ap_hir::HirDisplay::display(&part, db, reader).to_string(),
        },
    }));
    let rendered = ra_ap_hir::HirDisplay::display(ty, db, reader).to_string();
    ResolvedType::Applied { rendered, parameters: inside.into_iter().skip(1).collect() }
}

/// Asks the semantic model for the type of the expression that is the node
/// with the given index in the syntax tree of file zero
/// (`Semantics::type_of_expr`, the type before any adjustment), rendered for
/// a reader in the file's crate. The model reads its database from a
/// thread-local that `attach_db_allow_change` sets for the length of one
/// closure, whatever was attached before, so the calls stand in one. The
/// claim is that the answer depends on the file's text and the index alone.
/// The file is parsed on the way, so a text too long for 32-bit offsets is
/// left out.
#[verifier::external_body]
pub(crate) fn type_of_node(db: &ra_ap_ide_db::RootDatabase, index: usize) -> (ty: Option<
    ResolvedType,
>)
    requires
        fits_offsets(source_text(*db)),
    ensures
        ty == inferred_type(source_text(*db), index as nat),
{
    ra_ap_hir::attach_db_allow_change(db, || {
        let sema = ra_ap_hir::Semantics::new(db);
        let file = sema.parse_guess_edition(ra_ap_vfs::FileId::from_raw(0));
        let tree = ra_ap_syntax::AstNode::syntax(&file);
        let node = tree.descendants_with_tokens().nth(index)?.into_node()?;
        let expr = <ra_ap_syntax::ast::Expr as ra_ap_syntax::AstNode>::cast(node)?;
        let reader = sema.first_crate(ra_ap_vfs::FileId::from_raw(0))?.to_display_target(db);
        Some(lower_type(db, &sema.type_of_expr(&expr)?.original, reader))
    })
}

} // verus!
