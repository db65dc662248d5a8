use ra_assists::{add_explicit_type, Assist, AssistCtx};

const CURSOR_MARKER: &str = "<|>";

/// Splits a fixture into the offset of its cursor marker and the text
/// without the marker.
fn extract_offset(fixture: &str) -> (u32, String) {
    let at = fixture.find(CURSOR_MARKER).expect("the fixture has no cursor marker");
    let mut text = String::with_capacity(fixture.len() - CURSOR_MARKER.len());
    text.push_str(&fixture[..at]);
    text.push_str(&fixture[at + CURSOR_MARKER.len()..]);
    (at as u32, text)
}

fn add_cursor(text: &str, offset: u32) -> String {
    let at = offset as usize;
    let mut with_cursor = String::with_capacity(text.len() + CURSOR_MARKER.len());
    with_cursor.push_str(&text[..at]);
    with_cursor.push_str(CURSOR_MARKER);
    with_cursor.push_str(&text[at..]);
    with_cursor
}

/// Applies the insertions of an assist to the text they were made for.
fn apply(assist: &Assist, text: &str) -> String {
    let mut insertions: Vec<(usize, &str)> = Vec::new();
    for insertion in &assist.edit.insertions {
        insertions.push((insertion.offset as usize, insertion.text.as_str()));
    }
    insertions.sort_by_key(|insertion| insertion.0);
    let mut edited = String::new();
    let mut done = 0;
    for (offset, inserted) in insertions {
        edited.push_str(&text[done..offset]);
        edited.push_str(inserted);
        done = offset;
    }
    edited.push_str(&text[done..]);
    edited
}

/// Where a cursor at `offset` stands once the insertions are made: behind
/// every text inserted in front of it.
fn apply_to_offset(assist: &Assist, offset: u32) -> u32 {
    let mut moved = offset;
    for insertion in &assist.edit.insertions {
        if insertion.offset < offset {
            moved += insertion.text.len() as u32;
        }
    }
    moved
}

fn run(fixture: &str) -> (u32, String, Option<Assist>) {
    let (offset, text) = extract_offset(fixture);
    let ctx = AssistCtx::with_single_file(&text, offset).expect("the parser's walk is no tree");
    let offered = add_explicit_type(&ctx);
    (offset, text, offered)
}

fn check_assist(before: &str, after: &str) {
    let (offset, text, offered) = run(before);
    let assist = offered.expect("the assist is not applicable");
    let edited = apply(&assist, &text);
    let actual = add_cursor(&edited, apply_to_offset(&assist, offset));
    assert_eq!(after, actual);
}

fn check_assist_target(before: &str, target: &str) {
    let (_, text, offered) = run(before);
    let assist = offered.expect("the assist is not applicable");
    let range = assist.target;
    assert_eq!(&text[range.start as usize..range.end as usize], target);
}

fn check_assist_not_applicable(before: &str) {
    let (_, _, offered) = run(before);
    assert!(offered.is_none());
}

#[test]
fn add_explicit_type_target() {
    check_assist_target("fn f() { let a<|> = 1; }", "a");
}

#[test]
fn add_explicit_type_works_for_simple_expr() {
    check_assist("fn f() { let a<|> = 1; }", "fn f() { let a<|>: i32 = 1; }");
}

#[test]
fn add_explicit_type_not_applicable_if_ty_not_inferred() {
    check_assist_not_applicable("fn f() { let a<|> = None; }");
}

#[test]
fn add_explicit_type_not_applicable_if_ty_already_specified() {
    check_assist_not_applicable("fn f() { let a<|>: i32 = 1; }");
}

#[test]
fn add_explicit_type_not_applicable_if_specified_ty_is_tuple() {
    check_assist_not_applicable("fn f() { let a<|>: (i32, i32) = (3, 4); }");
}

#[test]
fn assist_is_not_offered_for_what_it_wrote() {
    let (offset, text, offered) = run("fn f() { let a<|> = 1; }");
    let edited = apply(&offered.unwrap(), &text);
    assert_eq!(edited, "fn f() { let a: i32 = 1; }");
    let ctx = AssistCtx::with_single_file(&edited, offset).unwrap();
    assert!(add_explicit_type(&ctx).is_none());
}

#[test]
fn assist_has_its_name_and_label() {
    let (_, _, offered) = run("fn f() { let a<|> = 1; }");
    let assist = offered.unwrap();
    assert_eq!(assist.id.0, "add_explicit_type");
    assert_eq!(assist.label, "add explicit type");
}

#[test]
fn assist_inserts_once_at_the_end_of_the_name() {
    let (_, text, offered) = run("fn f() { let a<|> = 1; }");
    let assist = offered.unwrap();
    assert_eq!(assist.edit.insertions.len(), 1);
    let insertion = &assist.edit.insertions[0];
    assert_eq!(insertion.offset, 14);
    assert_eq!(insertion.text, ": i32");
    assert_eq!(&text[13..14], "a");
    assert_eq!((assist.target.start, assist.target.end), (13, 14));
}

#[test]
fn mutable_binding_is_annotated_behind_its_name() {
    check_assist("fn f() { let mut a<|> = 1u8; }", "fn f() { let mut a<|>: u8 = 1u8; }");
    check_assist_target("fn f() { let mut a<|> = 1u8; }", "mut a");
}

#[test]
fn binding_with_subpattern_is_annotated_behind_its_name() {
    let (_, _, offered) = run("fn f() { let a<|> @ _ = 1; }");
    let assist = offered.unwrap();
    assert_eq!(assist.edit.insertions[0].offset, 14);
    assert_eq!((assist.target.start, assist.target.end), (13, 18));
}

#[test]
fn cursor_anywhere_on_the_statement_counts() {
    check_assist("fn f() { <|>let a = true; }", "fn f() { <|>let a: bool = true; }");
    check_assist("fn f() { let a = 'x<|>'; }", "fn f() { let a: char = 'x<|>'; }");
    check_assist("fn f() { let a = 1.5;<|> }", "fn f() { let a: f64 = 1.5;<|> }");
}

#[test]
fn cursor_outside_of_any_statement_gives_nothing() {
    check_assist_not_applicable("fn f<|>() { let a = 1; }");
    check_assist_not_applicable("fn f() { let a = 1; } <|>");
    check_assist_not_applicable("<|>");
}

#[test]
fn innermost_statement_is_taken() {
    check_assist(
        "fn f() { let a = { let b<|> = 2u16; b }; }",
        "fn f() { let a = { let b<|>: u16 = 2u16; b }; }",
    );
    check_assist(
        "fn f() { let a<|> = { let b = 2u16; b }; }",
        "fn f() { let a<|>: u16 = { let b = 2u16; b }; }",
    );
}

#[test]
fn statement_without_initializer_gives_nothing() {
    check_assist_not_applicable("fn f() { let a<|>; a = 1; }");
}

#[test]
fn destructuring_patterns_give_nothing() {
    check_assist_not_applicable("fn f() { let (a<|>, b) = (1, 2); }");
    check_assist_not_applicable("struct S { a: i32 } fn f(s: S) { let S { a<|> } = s; }");
    check_assist_not_applicable("fn f() { let _<|> = 1; }");
    check_assist_not_applicable("fn f() { let [a<|>, b] = [1, 2]; }");
}

#[test]
fn unknown_parameter_at_any_depth_gives_nothing() {
    check_assist_not_applicable("fn f() { let a<|> = (1, None); }");
    check_assist_not_applicable("fn f() { let a<|> = ((1, 2), (3, (4, None))); }");
    check_assist_not_applicable("fn f() { let a<|> = [None]; }");
    check_assist_not_applicable("fn f() { let a<|> = &None; }");
    check_assist_not_applicable("fn f(g: fn(u8) -> u8) { let a<|> = (g, None); }");
    check_assist_not_applicable("fn f<const N: usize>() { let a<|> = [None; N]; }");
    check_assist_not_applicable("fn f() { let a<|> = |x: u8| None; }");
}

#[test]
fn short_text_has_a_context_whatever_the_cursor() {
    assert!(AssistCtx::with_single_file("", u32::MAX).is_some());
    assert!(AssistCtx::with_single_file("fn f() {}", u32::MAX).is_some());
}

#[test]
fn nested_concrete_types_are_written_out() {
    check_assist(
        "fn f() { let a<|> = ((1u8, true), 'c'); }",
        "fn f() { let a<|>: ((u8, bool), char) = ((1u8, true), 'c'); }",
    );
    check_assist(
        "struct W<T>(T); fn f() { let a<|> = W(W(1i64)); }",
        "struct W<T>(T); fn f() { let a<|>: W<W<i64>> = W(W(1i64)); }",
    );
    check_assist("fn f() { let a<|> = &1u32; }", "fn f() { let a<|>: &u32 = &1u32; }");
    check_assist("fn f() { let a<|> = [1u8, 2]; }", "fn f() { let a<|>: [u8; 2] = [1u8, 2]; }");
}

#[test]
fn text_before_the_statement_shifts_the_offsets() {
    let (_, _, offered) = run("// ä\nfn f() {\n    let name<|> = 1;\n}\n");
    let assist = offered.unwrap();
    assert_eq!(assist.edit.insertions[0].offset, 27);
    assert_eq!((assist.target.start, assist.target.end), (23, 27));
}

#[test]
fn context_keeps_the_cursor_and_the_tree() {
    let ctx = AssistCtx::with_single_file("fn f() {}", 3).unwrap();
    assert_eq!(ctx.offset(), 3);
    let root = ctx.root();
    assert_eq!(root.index, 0);
    assert_eq!((root.range.start, root.range.end), (0, 9));
}
