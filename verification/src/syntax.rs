//! Branch counting on tree-sitter syntax trees. The grammar is picked from
//! the file's extension; the tree is built by tree-sitter and read node by
//! node in preorder, and every node whose kind is a branching construct
//! (if/match/for/while/loop/switch/ternary) counts once.
//!
//! What tree-sitter computes is named here, not restated: for a source text
//! and a grammar, whether it parses, how many nodes its tree has, and the
//! kind of each node in preorder. Each name is a function of the source and
//! the grammar alone, since a parse without timeout or cancellation is
//! deterministic.

use vstd::prelude::*;
use crate::paths::{extension_of, path_extension};
use crate::text::{chars_of, chars_eq, vecs_view};

verus! {

broadcast use vstd::string::group_string_axioms;

/// `tree_sitter::Tree`, carried through as an opaque value.
#[verifier::external_type_specification]
#[verifier::external_body]
pub struct ExTree(tree_sitter::Tree);

/// `tree_sitter::TreeCursor`, carried through as an opaque value.
#[verifier::external_type_specification]
#[verifier::external_body]
pub struct ExTreeCursor<'a>(tree_sitter::TreeCursor<'a>);

/// The grammars wired up for scoring.
#[derive(Clone, Copy, Debug, PartialEq, Eq, Structural)]
pub enum Grammar {
    Rust,
    JavaScript,
}

/// Whether tree-sitter parses `source` with `grammar` (the grammar loads
/// into the parser and `Parser::parse` hands back a tree).
pub uninterp spec fn syntax_parses(source: Seq<char>, grammar: Grammar) -> bool;

/// The number of nodes in the tree of `source` under `grammar`, the root
/// included (`Node::descendant_count` of the root).
pub uninterp spec fn syntax_node_count(source: Seq<char>, grammar: Grammar) -> nat;

/// The kind of the `index`-th node, in preorder, of the tree of `source`
/// under `grammar`.
pub uninterp spec fn syntax_node_kind(source: Seq<char>, grammar: Grammar, index: int) -> Seq<
    char,
>;

/// A tree-sitter tree together with the text and grammar it was parsed from.
pub struct SyntaxTree<'s> {
    tree: tree_sitter::Tree,
    source: &'s str,
    grammar: Grammar,
}

impl<'s> View for SyntaxTree<'s> {
    type V = (Seq<char>, Grammar);

    closed spec fn view(&self) -> (Seq<char>, Grammar) {
        (self.source@, self.grammar)
    }
}

/// A tree-sitter cursor that starts at the root of a `SyntaxTree`.
pub struct SyntaxCursor<'t, 's> {
    tree: &'t SyntaxTree<'s>,
    cursor: tree_sitter::TreeCursor<'t>,
}

impl<'t, 's> View for SyntaxCursor<'t, 's> {
    type V = (Seq<char>, Grammar);

    closed spec fn view(&self) -> (Seq<char>, Grammar) {
        self.tree@
    }
}

/// Parses `source` with the Rust grammar: `tree_sitter::Parser::new`,
/// `Parser::set_language` with `tree_sitter_rust::language()`, then
/// `Parser::parse`. Claimed: a tree comes back exactly when
/// `syntax_parses(source, Rust)`, and it is the tree of `source`.
#[verifier::external_body]
fn parse_rust<'s>(source: &'s str) -> (r: Option<SyntaxTree<'s>>)
    ensures
        (r is Some) == syntax_parses(source@, Grammar::Rust),
        r matches Some(t) ==> t@ == (source@, Grammar::Rust),
{
    let mut parser = tree_sitter::Parser::new();
    parser.set_language(&tree_sitter_rust::language()).ok()?;
    let tree = parser.parse(source, None)?;
    Some(SyntaxTree { tree, source, grammar: Grammar::Rust })
}

/// Parses `source` with the JavaScript grammar: `tree_sitter::Parser::new`,
/// `Parser::set_language` with `tree_sitter_javascript::language()`, then
/// `Parser::parse`. Claimed: a tree comes back exactly when
/// `syntax_parses(source, JavaScript)`, and it is the tree of `source`.
#[verifier::external_body]
fn parse_javascript<'s>(source: &'s str) -> (r: Option<SyntaxTree<'s>>)
    ensures
        (r is Some) == syntax_parses(source@, Grammar::JavaScript),
        r matches Some(t) ==> t@ == (source@, Grammar::JavaScript),
{
    let mut parser = tree_sitter::Parser::new();
    parser.set_language(&tree_sitter_javascript::language()).ok()?;
    let tree = parser.parse(source, None)?;
    Some(SyntaxTree { tree, source, grammar: Grammar::JavaScript })
}

/// `Node::descendant_count` of the tree's root: the number of nodes of the
/// tree. Claimed: it is `syntax_node_count` of the tree's text and grammar.
#[verifier::external_body]
fn node_count(t: &SyntaxTree) -> (r: usize)
    ensures
        r == syntax_node_count(t@.0, t@.1),
{
    t.tree.root_node().descendant_count()
}

/// `Tree::walk`: a cursor on the tree's root. Claimed: the cursor belongs
/// to `t`.
#[verifier::external_body]
fn walk<'t, 's>(t: &'t SyntaxTree<'s>) -> (r: SyntaxCursor<'t, 's>)
    ensures
        r@ == t@,
{
    SyntaxCursor { tree: t, cursor: t.tree.walk() }
}

/// `TreeCursor::goto_descendant(index)` followed by `Node::kind` of the
/// cursor's node: the kind of the `index`-th node of the tree in preorder
/// (index 0 is the root). Claimed: it is `syntax_node_kind` at `index`, and
/// the cursor still belongs to the same tree.
#[verifier::external_body]
fn node_kind_at(c: &mut SyntaxCursor, index: usize) -> (r: &'static str)
    requires
        index < syntax_node_count(old(c)@.0, old(c)@.1),
    ensures
        final(c)@ == old(c)@,
        r@ == syntax_node_kind(old(c)@.0, old(c)@.1, index as int),
{
    c.cursor.goto_descendant(index);
    c.cursor.node().kind()
}

/// The node kinds counted as branching, across both grammars.
pub open spec fn branch_kinds() -> Seq<Seq<char>> {
    seq![
        "if_expression"@,
        "match_expression"@,
        "for_expression"@,
        "while_expression"@,
        "loop_expression"@,
        "if_statement"@,
        "for_statement"@,
        "for_in_statement"@,
        "while_statement"@,
        "switch_statement"@,
        "ternary_expression"@,
    ]
}

/// Whether a node kind is a branching construct.
pub open spec fn is_branch_kind(kind: Seq<char>) -> bool {
    branch_kinds().contains(kind)
}

/// How many of the first `n` nodes (in preorder) of the tree of `source`
/// under `grammar` are branching constructs.
pub open spec fn branch_count_below(source: Seq<char>, grammar: Grammar, n: nat) -> nat
    decreases n,
{
    if n == 0 {
        0
    } else {
        branch_count_below(source, grammar, (n - 1) as nat) + if is_branch_kind(
            syntax_node_kind(source, grammar, n - 1),
        ) {
            1nat
        } else {
            0nat
        }
    }
}

/// The number of branching nodes in the tree of `source` under `grammar`.
pub open spec fn syntax_branch_count(source: Seq<char>, grammar: Grammar) -> nat {
    branch_count_below(source, grammar, syntax_node_count(source, grammar))
}

/// The branch-point count of `source`: present when the source parses and
/// the count fits in 32 bits.
pub open spec fn branch_points(source: Seq<char>, grammar: Grammar) -> Option<u32> {
    if syntax_parses(source, grammar) && syntax_branch_count(source, grammar) <= u32::MAX {
        Some(syntax_branch_count(source, grammar) as u32)
    } else {
        None
    }
}

fn branch_kind_names() -> (r: Vec<Vec<char>>)
    ensures
        vecs_view(r@) == branch_kinds(),
{
    let mut v: Vec<Vec<char>> = Vec::new();
    v.push(chars_of("if_expression"));
    v.push(chars_of("match_expression"));
    v.push(chars_of("for_expression"));
    v.push(chars_of("while_expression"));
    v.push(chars_of("loop_expression"));
    v.push(chars_of("if_statement"));
    v.push(chars_of("for_statement"));
    v.push(chars_of("for_in_statement"));
    v.push(chars_of("while_statement"));
    v.push(chars_of("switch_statement"));
    v.push(chars_of("ternary_expression"));
    assert(vecs_view(v@) =~= branch_kinds());
    v
}

fn is_branch(kind: &str, names: &Vec<Vec<char>>) -> (r: bool)
    requires
        vecs_view(names@) == branch_kinds(),
    ensures
        r == is_branch_kind(kind@),
{
    let k = chars_of(kind);
    let mut i: usize = 0;
    while i < names.len()
        invariant
            vecs_view(names@) == branch_kinds(),
            k@ == kind@,
            0 <= i <= names@.len(),
            forall|j: int| 0 <= j < i ==> branch_kinds()[j] != kind@,
        decreases names@.len() - i,
    {
        assert(names@[i as int]@ == vecs_view(names@)[i as int]);
        if chars_eq(&names[i], &k) {
            assert(branch_kinds()[i as int] == kind@);
            return true;
        }
        i = i + 1;
    }
    assert(names@.len() == branch_kinds().len()) by {
        assert(vecs_view(names@).len() == names@.len());
    }
    false
}

/// Counts the branching constructs in `source` under `grammar`: `None` when
/// the source does not parse, or when the count does not fit in 32 bits.
pub fn count_branch_points(source: &str, grammar: Grammar) -> (r: Option<u32>)
    ensures
        r == branch_points(source@, grammar),
{
    let parsed = match grammar {
        Grammar::Rust => parse_rust(source),
        Grammar::JavaScript => parse_javascript(source),
    };
    let tree = match parsed {
        Some(t) => t,
        None => return None,
    };
    let names = branch_kind_names();
    let total = node_count(&tree);
    let mut cursor = walk(&tree);
    let mut count: u32 = 0;
    let mut i: usize = 0;
    while i < total
        invariant
            vecs_view(names@) == branch_kinds(),
            cursor@ == (source@, grammar),
            total == syntax_node_count(source@, grammar),
            0 <= i <= total,
            count == branch_count_below(source@, grammar, i as nat),
        decreases total - i,
    {
        let kind = node_kind_at(&mut cursor, i);
        if is_branch(kind, &names) {
            if count == u32::MAX {
                proof {
                    lemma_branch_count_monotone(source@, grammar, (i + 1) as nat, total as nat);
                }
                return None;
            }
            count = count + 1;
        }
        i = i + 1;
    }
    Some(count)
}

/// Counting more nodes never lowers the branch count.
pub proof fn lemma_branch_count_monotone(source: Seq<char>, grammar: Grammar, m: nat, n: nat)
    requires
        m <= n,
    ensures
        branch_count_below(source, grammar, m) <= branch_count_below(source, grammar, n),
    decreases n - m,
{
    if m < n {
        lemma_branch_count_monotone(source, grammar, m, (n - 1) as nat);
    }
}

/// The grammar for a file, by the extension of the name it ends in:
/// "rs" is Rust; "js", "jsx", "mjs", "ts" and "tsx" are JavaScript.
pub open spec fn grammar_for_spec(path: Seq<char>) -> Option<Grammar> {
    match path_extension(path) {
        Some(e) => if e == "rs"@ {
            Some(Grammar::Rust)
        } else if e == "js"@ || e == "jsx"@ || e == "mjs"@ || e == "ts"@ || e == "tsx"@ {
            Some(Grammar::JavaScript)
        } else {
            None
        },
        None => None,
    }
}

/// The grammar that scores the file at `path`, if any.
pub fn grammar_for(path: &str) -> (r: Option<Grammar>)
    ensures
        r == grammar_for_spec(path@),
{
    let ext = match extension_of(path) {
        Some(e) => e,
        None => return None,
    };
    if chars_eq(&ext, &chars_of("rs")) {
        Some(Grammar::Rust)
    } else if chars_eq(&ext, &chars_of("js")) || chars_eq(&ext, &chars_of("jsx")) || chars_eq(
        &ext,
        &chars_of("mjs"),
    ) || chars_eq(&ext, &chars_of("ts")) || chars_eq(&ext, &chars_of("tsx")) {
        Some(Grammar::JavaScript)
    } else {
        None
    }
}

} // verus!
