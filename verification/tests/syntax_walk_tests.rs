use amber_shield_scan::syntax::{count_branch_points, Grammar};

const BRANCH_KINDS: &[&str] = &[
    "if_expression",
    "match_expression",
    "for_expression",
    "while_expression",
    "loop_expression",
    "if_statement",
    "for_statement",
    "for_in_statement",
    "while_statement",
    "switch_statement",
    "ternary_expression",
];

/// Counts branching nodes by walking the tree with a cursor: down to the
/// first child, across to siblings, back up to parents.
fn cursor_walk_count(source: &str, language: tree_sitter::Language) -> u32 {
    let mut parser = tree_sitter::Parser::new();
    parser.set_language(&language).unwrap();
    let tree = parser.parse(source, None).unwrap();
    let mut count = 0u32;
    let mut cursor = tree.walk();
    let mut visited_children = false;
    loop {
        if !visited_children && BRANCH_KINDS.contains(&cursor.node().kind()) {
            count += 1;
        }
        if !visited_children && cursor.goto_first_child() {
            continue;
        }
        visited_children = false;
        if cursor.goto_next_sibling() {
            continue;
        }
        if !cursor.goto_parent() {
            break;
        }
        visited_children = true;
    }
    count
}

#[test]
fn preorder_count_matches_cursor_walk_rust() {
    let sources = [
        "",
        "fn f() {}",
        "fn f(x: i32) -> i32 { if x > 0 { x } else if x < 0 { -x } else { 0 } }",
        "fn g(v: Vec<i32>) { for a in v { while a > 0 { loop { break; } } match a { 1 => {}, _ => if true {} } } }",
        "struct S; impl S { fn h(&self) { let _ = if let Some(x) = None::<u8> { x } else { 0 }; } }",
        "fn broken( { if",
    ];
    for src in sources.iter() {
        assert_eq!(
            count_branch_points(src, Grammar::Rust),
            Some(cursor_walk_count(src, tree_sitter_rust::language())),
            "{src}"
        );
    }
}

#[test]
fn preorder_count_matches_cursor_walk_javascript() {
    let sources = [
        "",
        "function f() { return 1; }",
        "if (a) { b(); } else if (c) { d(); } for (let i = 0; i < 3; i++) { while (x) { x--; } }",
        "for (const k in o) { switch (k) { case 'a': break; default: y = k ? 1 : 2; } }",
        "const f = (x) => x > 0 ? (x > 10 ? 'big' : 'small') : 'neg';",
        "if (",
    ];
    for src in sources.iter() {
        assert_eq!(
            count_branch_points(src, Grammar::JavaScript),
            Some(cursor_walk_count(src, tree_sitter_javascript::language())),
            "{src}"
        );
    }
}
