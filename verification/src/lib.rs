//! An editor assist that writes out the inferred type of a `let` binding.
//!
//! With the cursor on `let a = 1;` the assist offers to insert `: i32`
//! behind `a`. It is offered for the innermost `let` statement that the
//! cursor is on, where that statement has an initializer, binds a plain
//! name, has no type annotation yet, and the type inferred for the
//! initializer has nothing unknown in it.
//!
//! The source is parsed and its types are inferred by rust-analyzer's
//! crates, behind the items of [`semantic`]. The syntax tree is rebuilt from
//! the parser's walk over it ([`tree`]); the search for the statement
//! ([`locate`]), the tests on its pattern ([`pattern`]) and on the inferred
//! type ([`types`]), and the edit ([`assist`], [`explicit_type`]) work on
//! that tree and are verified.

pub mod assist;
pub mod context;
pub mod explicit_type;
pub mod kind;
pub mod locate;
pub mod pattern;
pub mod range;
pub mod semantic;
pub mod tree;
pub mod types;

pub use crate::assist::{Assist, AssistBuilder, AssistId, Insertion, TextEdit};
pub use crate::context::AssistCtx;
pub use crate::explicit_type::add_explicit_type;
pub use crate::types::{is_unknown, ResolvedType};
