use amber_shield_scan::codemap::{build_heatmap, score_file, HeatCategory, SourceFile};
use amber_shield_scan::security::{SecretFinding, Vulnerability};
use amber_shield_scan::syntax::{count_branch_points, grammar_for, Grammar};
use amber_shield_scan::text::count_todo_markers;

fn vuln(target: &str, severity: &str) -> Vulnerability {
    Vulnerability {
        id: "CVE-1".to_string(),
        pkg_name: "pkg".to_string(),
        installed_version: "1.0".to_string(),
        fixed_version: None,
        severity: severity.to_string(),
        title: None,
        target: target.to_string(),
    }
}

fn secret(file: &str, line: u32) -> SecretFinding {
    SecretFinding {
        rule_id: "aws-key".to_string(),
        file: file.to_string(),
        start_line: line,
        commit: None,
        description: None,
    }
}

fn file(path: &str, source: &str) -> SourceFile {
    SourceFile { path: path.to_string(), source: source.to_string() }
}

#[test]
fn scores_branch_points_and_todos() {
    let source = "fn f(x: i32) -> i32 {\n    // TODO: handle negatives\n    if x > 0 { x } else { -x }\n}\n";
    let heat = score_file("sample.rs", source, 0).unwrap();
    assert_eq!(heat.branch_points, 1);
    assert_eq!(heat.todo_markers, 1);
    assert_eq!(heat.category, HeatCategory::Stale);
}

#[test]
fn scanner_findings_force_vulnerable_category() {
    let heat = score_file("clean.rs", "fn f() -> i32 { 1 }", 2).unwrap();
    assert_eq!(heat.category, HeatCategory::Vulnerable);
    assert!(heat.score >= 20);
}

#[test]
fn score_is_weighted_sum() {
    let source = "// TODO a\n// FIXME b\nfn f(x: i32) { if x > 0 {} }\n";
    let heat = score_file("src/lib.rs", source, 3).unwrap();
    assert_eq!(heat.branch_points, 1);
    assert_eq!(heat.todo_markers, 2);
    assert_eq!(heat.scanner_findings, 3);
    assert_eq!(heat.score, 1 + 2 * 2 + 10 * 3);
    assert_eq!(heat.path, "src/lib.rs");
}

#[test]
fn clean_file_is_stable() {
    let heat = score_file("clean.rs", "fn f() -> i32 { 1 }", 0).unwrap();
    assert_eq!(heat.category, HeatCategory::Stable);
    assert_eq!(heat.score, 0);
}

#[test]
fn many_branches_make_a_file_stale() {
    let mut source = String::from("fn f(x: i32) {\n");
    for _ in 0..16 {
        source.push_str("    if x > 0 {}\n");
    }
    source.push_str("}\n");
    let heat = score_file("many.rs", &source, 0).unwrap();
    assert_eq!(heat.branch_points, 16);
    assert_eq!(heat.category, HeatCategory::Stale);
    let mut fifteen = String::from("fn f(x: i32) {\n");
    for _ in 0..15 {
        fifteen.push_str("    if x > 0 {}\n");
    }
    fifteen.push_str("}\n");
    let heat = score_file("fifteen.rs", &fifteen, 0).unwrap();
    assert_eq!(heat.branch_points, 15);
    assert_eq!(heat.category, HeatCategory::Stable);
}

#[test]
fn unknown_extension_has_no_branch_points() {
    let heat = score_file("notes.txt", "if x { } TODO", 0).unwrap();
    assert_eq!(heat.branch_points, 0);
    assert_eq!(heat.todo_markers, 1);
}

#[test]
fn todo_markers_count_lines() {
    assert_eq!(count_todo_markers(""), 0);
    assert_eq!(count_todo_markers("TODO"), 1);
    assert_eq!(count_todo_markers("a\nFIXME b\r\nXXX\nHACK"), 3);
    assert_eq!(count_todo_markers("TODO FIXME XXX HACK\n"), 1);
    assert_eq!(count_todo_markers("todo\nTOD O\n"), 0);
    assert_eq!(count_todo_markers("\n\nHACK\n\n"), 1);
}

#[test]
fn rust_branch_points() {
    let src = "fn f(x: i32) { if x > 0 {} match x { _ => {} } for _i in 0..1 {} while false {} loop { break } }";
    assert_eq!(count_branch_points(src, Grammar::Rust), Some(5));
    assert_eq!(count_branch_points("fn f() {}", Grammar::Rust), Some(0));
}

#[test]
fn javascript_branch_points() {
    let src = "if (a) {} for (;;) {} for (const k in o) {} while (x) {} switch (x) {} let y = a ? b : c;";
    assert_eq!(count_branch_points(src, Grammar::JavaScript), Some(6));
}

#[test]
fn grammar_by_extension() {
    assert_eq!(grammar_for("src/main.rs"), Some(Grammar::Rust));
    assert_eq!(grammar_for("web/app.tsx"), Some(Grammar::JavaScript));
    assert_eq!(grammar_for("a.mjs"), Some(Grammar::JavaScript));
    assert_eq!(grammar_for("a.jsx"), Some(Grammar::JavaScript));
    assert_eq!(grammar_for("a.ts"), Some(Grammar::JavaScript));
    assert_eq!(grammar_for("a.js"), Some(Grammar::JavaScript));
    assert_eq!(grammar_for(".rs"), None);
    assert_eq!(grammar_for("dir/a.rs/"), Some(Grammar::Rust));
    assert_eq!(grammar_for("Makefile"), None);
    assert_eq!(grammar_for("a.rs/.."), None);
    assert_eq!(grammar_for("a.RS"), None);
    assert_eq!(grammar_for("x.tar.rs"), Some(Grammar::Rust));
}

#[test]
fn heatmap_sorts_by_score_and_flags_findings() {
    let files = vec![
        file("/repo/src/a.rs", "fn a() {}"),
        file("/repo/src/b.rs", "// TODO\nfn b() {}"),
        file("/repo/src/c.rs", "fn c() {}"),
    ];
    let vulns = vec![vuln("src/c.rs", "HIGH")];
    let secrets = vec![secret("/repo/src/c.rs", 3)];
    let heatmap = build_heatmap(&files, &vulns, &secrets);
    assert_eq!(heatmap.len(), 3);
    // Both the Trivy target and the GitLeaks file name c.rs.
    assert_eq!(heatmap[0].path, "/repo/src/c.rs");
    assert_eq!(heatmap[0].scanner_findings, 2);
    assert_eq!(heatmap[0].score, 20);
    assert_eq!(heatmap[0].category, HeatCategory::Vulnerable);
    assert_eq!(heatmap[1].path, "/repo/src/b.rs");
    assert_eq!(heatmap[1].category, HeatCategory::Stale);
    assert_eq!(heatmap[2].path, "/repo/src/a.rs");
    assert_eq!(heatmap[2].category, HeatCategory::Stable);
}

#[test]
fn heatmap_counts_every_attributed_finding() {
    let files = vec![file("proj/lib.rs", "fn f() {}")];
    let vulns = vec![vuln("lib.rs", "LOW"), vuln("./lib.rs", "LOW")];
    let secrets = vec![secret("lib.rs", 0)];
    let heatmap = build_heatmap(&files, &vulns, &secrets);
    assert_eq!(heatmap[0].scanner_findings, 2);
    assert_eq!(heatmap[0].score, 20);
}

#[test]
fn heatmap_keeps_ties_in_order() {
    let files = vec![
        file("x.rs", "fn x() {}"),
        file("y.rs", "fn y() {}"),
        file("z.rs", "// TODO\n"),
        file("w.rs", "fn w() {}"),
    ];
    let heatmap = build_heatmap(&files, &[], &[]);
    let order: Vec<&str> = heatmap.iter().map(|h| h.path.as_str()).collect();
    assert_eq!(order, vec!["z.rs", "x.rs", "y.rs", "w.rs"]);
}

#[test]
fn heatmap_matches_whole_components_only() {
    let files = vec![file("src/mylib.rs", "fn f() {}")];
    let vulns = vec![vuln("lib.rs", "LOW")];
    let heatmap = build_heatmap(&files, &vulns, &[]);
    assert_eq!(heatmap[0].scanner_findings, 0);
    assert_eq!(heatmap[0].category, HeatCategory::Stable);
}

#[test]
fn empty_target_matches_no_file() {
    let files = vec![file("a.rs", ""), file("b/c.rs", "")];
    let vulns = vec![vuln("", "LOW")];
    let heatmap = build_heatmap(&files, &vulns, &[]);
    assert_eq!(heatmap.len(), 2);
    assert!(heatmap.iter().all(|h| h.scanner_findings == 0 && h.category != HeatCategory::Vulnerable));
}

#[test]
fn findings_from_both_scanners_add_up() {
    let files = vec![file("r/src/app.js", "if (a) { b(); }
// TODO
")];
    let vulns = vec![vuln("src/app.js", "HIGH")];
    let secrets = vec![secret("app.js", 2)];
    let heatmap = build_heatmap(&files, &vulns, &secrets);
    assert_eq!(heatmap.len(), 1);
    let h = &heatmap[0];
    assert_eq!(h.scanner_findings, 2);
    assert_eq!(h.branch_points, 1);
    assert_eq!(h.todo_markers, 1);
    assert_eq!(h.score, h.branch_points + 2 * h.todo_markers + 20);
    assert_eq!(h.category, HeatCategory::Vulnerable);
}

#[test]
fn unrelated_files_get_no_findings() {
    let files = vec![file("r/src/app.js", ""), file("r/lib/util.js", "")];
    let vulns = vec![vuln("src/app.js", "HIGH")];
    let heatmap = build_heatmap(&files, &vulns, &[]);
    let util = heatmap.iter().find(|h| h.path == "r/lib/util.js").unwrap();
    assert_eq!(util.scanner_findings, 0);
    let app = heatmap.iter().find(|h| h.path == "r/src/app.js").unwrap();
    assert_eq!(app.scanner_findings, 1);
}
