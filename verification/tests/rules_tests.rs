use amber_shield_scan::cli::{parse_args, ArgsError, Format, Invocation};
use amber_shield_scan::codemap::{FileHeat, HeatCategory};
use amber_shield_scan::paths::path_ends_with;
use amber_shield_scan::report::{count_vulnerable, top_flagged};
use amber_shield_scan::sarif::sarif_results;
use amber_shield_scan::security::{trivy_findings, SecretFinding, TrivyResult, TrivyVuln, Vulnerability};
use amber_shield_scan::severity::{
    sarif_severity_level, secret_severity, should_fail, trivy_severity, worst_severity, Severity,
};
use amber_shield_scan::walk::{classify_entry, EntryAction, EntryKind, SourceWalk, WalkError};
use std::path::Path;

fn vuln(id: &str, severity: &str, title: Option<&str>, target: &str) -> Vulnerability {
    Vulnerability {
        id: id.to_string(),
        pkg_name: "openssl".to_string(),
        installed_version: "1.0".to_string(),
        fixed_version: Some("1.1".to_string()),
        severity: severity.to_string(),
        title: title.map(|t| t.to_string()),
        target: target.to_string(),
    }
}

fn secret(line: u32, description: Option<&str>) -> SecretFinding {
    SecretFinding {
        rule_id: "generic-api-key".to_string(),
        file: "config/.env".to_string(),
        start_line: line,
        commit: None,
        description: description.map(|d| d.to_string()),
    }
}

fn args(list: &[&str]) -> Vec<String> {
    list.iter().map(|s| s.to_string()).collect()
}

#[test]
fn ends_with_agrees_with_std_paths() {
    let paths = [
        "", ".", "..", "/", "a", "a/b", "a//b", "a/./b", "./a/b", "/a/b", "a/b/", "b", "./b",
        "a/../b", "../b", "/b", "//a/b", "a/b/.", "./", "x/a/b", "ab", "b/",
    ];
    for a in paths.iter() {
        for b in paths.iter() {
            assert_eq!(
                path_ends_with(a, b),
                Path::new(a).ends_with(Path::new(b)),
                "ends_with({:?}, {:?})",
                a,
                b
            );
        }
    }
}

#[test]
fn severity_names() {
    assert_eq!(Severity::parse("HIGH"), Some(Severity::High));
    assert_eq!(Severity::parse("Critical"), Some(Severity::Critical));
    assert_eq!(Severity::parse("unknown"), Some(Severity::Medium));
    assert_eq!(Severity::parse("MEDIUM"), Some(Severity::Medium));
    assert_eq!(Severity::parse("low"), Some(Severity::Low));
    assert_eq!(Severity::parse("None"), Some(Severity::Nothing));
    assert_eq!(Severity::parse("bogus"), None);
    assert_eq!(Severity::parse(""), None);
    assert_eq!(Severity::parse("highh"), None);
}

#[test]
fn trivy_and_secret_severities() {
    assert_eq!(trivy_severity(&vuln("A", "LOW", None, "x")), Severity::Low);
    assert_eq!(trivy_severity(&vuln("A", "weird", None, "x")), Severity::Medium);
    assert_eq!(secret_severity(&secret(1, None)), Severity::Critical);
}

#[test]
fn worst_severity_of_scan() {
    assert_eq!(worst_severity(&[], &[]), Severity::Nothing);
    let vulns = vec![vuln("A", "LOW", None, "x"), vuln("B", "HIGH", None, "y"), vuln("C", "?", None, "z")];
    assert_eq!(worst_severity(&vulns, &[]), Severity::High);
    assert_eq!(worst_severity(&vulns, &[secret(2, None)]), Severity::Critical);
    assert_eq!(worst_severity(&[], &[secret(2, None)]), Severity::Critical);
}

#[test]
fn worst_severity_never_falls_when_findings_are_added() {
    let base = vec![vuln("A", "MEDIUM", None, "x")];
    let more = vec![vuln("B", "LOW", None, "y"), vuln("A", "MEDIUM", None, "x"), vuln("C", "HIGH", None, "z")];
    assert!(worst_severity(&more, &[]) >= worst_severity(&base, &[]));
    let reordered = vec![more[2].clone(), more[0].clone(), more[1].clone()];
    assert_eq!(worst_severity(&reordered, &[]), worst_severity(&more, &[]));
    assert_eq!(worst_severity(&base, &[secret(1, None)]), Severity::Critical);
}

#[test]
fn fail_threshold() {
    assert!(should_fail(Severity::High, Severity::High));
    assert!(should_fail(Severity::Critical, Severity::Low));
    assert!(!should_fail(Severity::Medium, Severity::High));
    assert!(!should_fail(Severity::Critical, Severity::Nothing));
    assert!(!should_fail(Severity::Nothing, Severity::Low));
}

#[test]
fn sarif_levels() {
    assert_eq!(sarif_severity_level(Severity::Critical), "error");
    assert_eq!(sarif_severity_level(Severity::High), "error");
    assert_eq!(sarif_severity_level(Severity::Medium), "warning");
    assert_eq!(sarif_severity_level(Severity::Low), "note");
    assert_eq!(sarif_severity_level(Severity::Nothing), "note");
}

#[test]
fn sarif_result_fields() {
    let vulns = vec![
        vuln("CVE-1", "LOW", Some("bad thing"), "Cargo.lock"),
        vuln("CVE-2", "CRITICAL", None, "package.json"),
    ];
    let secrets = vec![secret(0, None), secret(7, Some("AWS key"))];
    let results = sarif_results(&vulns, &secrets);
    assert_eq!(results.len(), 4);
    assert_eq!(results[0].rule_id, "CVE-1");
    assert_eq!(results[0].level, "note");
    assert_eq!(results[0].message, "bad thing");
    assert_eq!(results[0].uri, "Cargo.lock");
    assert_eq!(results[0].start_line, None);
    assert_eq!(results[1].level, "error");
    assert_eq!(results[1].message, "CVE-2 in openssl");
    assert_eq!(results[2].rule_id, "generic-api-key");
    assert_eq!(results[2].level, "error");
    assert_eq!(results[2].message, "potential secret detected");
    assert_eq!(results[2].uri, "config/.env");
    assert_eq!(results[2].start_line, Some(1));
    assert_eq!(results[3].message, "AWS key");
    assert_eq!(results[3].start_line, Some(7));
}

fn tv(id: &str) -> TrivyVuln {
    TrivyVuln {
        id: id.to_string(),
        pkg_name: "p".to_string(),
        installed_version: "1".to_string(),
        fixed_version: None,
        severity: "HIGH".to_string(),
        title: None,
    }
}

#[test]
fn trivy_results_flatten_with_targets() {
    let results = vec![
        TrivyResult { target: "Cargo.lock".to_string(), vulnerabilities: vec![tv("A"), tv("B")] },
        TrivyResult { target: "empty".to_string(), vulnerabilities: vec![] },
        TrivyResult { target: "package-lock.json".to_string(), vulnerabilities: vec![tv("C")] },
    ];
    let findings = trivy_findings(results);
    let got: Vec<(String, String)> = findings.iter().map(|v| (v.id.clone(), v.target.clone())).collect();
    assert_eq!(
        got,
        vec![
            ("A".to_string(), "Cargo.lock".to_string()),
            ("B".to_string(), "Cargo.lock".to_string()),
            ("C".to_string(), "package-lock.json".to_string()),
        ]
    );
    assert_eq!(findings[0].severity, "HIGH");
}

#[test]
fn cli_defaults() {
    match parse_args(&args(&[])).unwrap() {
        Invocation::Scan(a) => {
            assert_eq!(a.path, ".");
            assert_eq!(a.fail_on, Severity::Critical);
            assert_eq!(a.format, Format::Json);
            assert_eq!(a.report_path, "amber-shield-report.json");
        }
        Invocation::Help => panic!("unexpected help"),
    }
}

#[test]
fn cli_flags_and_positionals() {
    match parse_args(&args(&["repo", "--fail-on", "HIGH", "--format", "SARIF"])).unwrap() {
        Invocation::Scan(a) => {
            assert_eq!(a.path, "repo");
            assert_eq!(a.fail_on, Severity::High);
            assert_eq!(a.format, Format::Sarif);
            assert_eq!(a.report_path, "amber-shield-report.sarif");
        }
        Invocation::Help => panic!("unexpected help"),
    }
    match parse_args(&args(&["", "", "sarif", "--report-path", "out.sarif"])).unwrap() {
        Invocation::Scan(a) => {
            assert_eq!(a.path, ".");
            assert_eq!(a.fail_on, Severity::Critical);
            assert_eq!(a.format, Format::Sarif);
            assert_eq!(a.report_path, "out.sarif");
        }
        Invocation::Help => panic!("unexpected help"),
    }
    match parse_args(&args(&["src", "low", "", "--report-path", ""])).unwrap() {
        Invocation::Scan(a) => {
            assert_eq!(a.path, "src");
            assert_eq!(a.fail_on, Severity::Low);
            assert_eq!(a.format, Format::Json);
            assert_eq!(a.report_path, "amber-shield-report.json");
        }
        Invocation::Help => panic!("unexpected help"),
    }
}

#[test]
fn cli_help_anywhere() {
    assert!(matches!(parse_args(&args(&["--format", "-h"])), Ok(Invocation::Help)));
    assert!(matches!(parse_args(&args(&["a", "b", "c", "d", "--help"])), Ok(Invocation::Help)));
}

#[test]
fn cli_errors() {
    assert_eq!(parse_args(&args(&["--fail-on"])).unwrap_err(), ArgsError::MissingFailOnValue);
    assert_eq!(parse_args(&args(&["--fail-on", "bad"])).unwrap_err(), ArgsError::InvalidFailOnValue(1));
    assert_eq!(parse_args(&args(&["--format"])).unwrap_err(), ArgsError::MissingFormatValue);
    assert_eq!(parse_args(&args(&["x", "--format", "xml"])).unwrap_err(), ArgsError::InvalidFormatValue(2));
    assert_eq!(parse_args(&args(&["--report-path"])).unwrap_err(), ArgsError::MissingReportPathValue);
    assert_eq!(parse_args(&args(&["p", "bad"])).unwrap_err(), ArgsError::InvalidPositionalFailOn(1));
    assert_eq!(parse_args(&args(&["p", "high", "xml"])).unwrap_err(), ArgsError::InvalidPositionalFormat(2));
    assert_eq!(parse_args(&args(&["p", "high", "json", "extra"])).unwrap_err(), ArgsError::UnexpectedArgument(3));
}

#[test]
fn walk_entry_decisions() {
    assert_eq!(classify_entry(".git", "r/.git", EntryKind::Directory), EntryAction::Skip);
    assert_eq!(classify_entry("node_modules", "r/node_modules", EntryKind::Directory), EntryAction::Skip);
    assert_eq!(classify_entry("target", "r/target", EntryKind::Directory), EntryAction::Skip);
    assert_eq!(classify_entry("src", "r/src", EntryKind::Directory), EntryAction::Descend);
    assert_eq!(classify_entry("main.rs", "r/main.rs", EntryKind::File), EntryAction::Consider);
    assert_eq!(classify_entry("main.rs", "r/main.rs", EntryKind::Symlink), EntryAction::Skip);
    assert_eq!(classify_entry("README.md", "r/README.md", EntryKind::File), EntryAction::Skip);
    assert_eq!(classify_entry(".hidden.rs", "r/.hidden.rs", EntryKind::File), EntryAction::Skip);
    assert_eq!(classify_entry("app.js", "r/app.js", EntryKind::Other), EntryAction::Skip);
}

#[test]
fn walk_is_a_stack_with_limits() {
    let mut walk = SourceWalk::new("root".to_string());
    assert_eq!(walk.next_dir(), Ok(Some(("root".to_string(), 0))));
    walk.add_dir("root/a".to_string(), 0);
    walk.add_dir("root/b".to_string(), 0);
    assert_eq!(walk.add_file("root/x.rs".to_string(), 10), Ok(()));
    assert_eq!(walk.add_file("root/big.rs".to_string(), 2 * 1024 * 1024 + 1), Ok(()));
    assert_eq!(walk.add_file("root/edge.rs".to_string(), 2 * 1024 * 1024), Ok(()));
    assert_eq!(walk.next_dir(), Ok(Some(("root/b".to_string(), 1))));
    assert_eq!(walk.next_dir(), Ok(Some(("root/a".to_string(), 1))));
    assert_eq!(walk.next_dir(), Ok(None));
    assert_eq!(walk.into_files(), vec!["root/x.rs".to_string(), "root/edge.rs".to_string()]);

    let mut deep = SourceWalk::new("d".to_string());
    let mut depth = 0;
    loop {
        match deep.next_dir() {
            Ok(Some((dir, d))) => {
                depth = d;
                deep.add_dir(format!("{dir}/x"), d);
            }
            Ok(None) => panic!("walk ended early"),
            Err(e) => {
                assert_eq!(e, WalkError::DepthExceeded);
                break;
            }
        }
    }
    assert_eq!(depth, 32);

    let mut many = SourceWalk::new("m".to_string());
    for i in 0..10000 {
        assert_eq!(many.add_file(format!("m/{i}.rs"), 1), Ok(()));
    }
    assert_eq!(many.add_file("m/last.rs".to_string(), 1), Err(WalkError::TooManyFiles));
}

fn heat(path: &str, score: u32, category: HeatCategory) -> FileHeat {
    FileHeat {
        path: path.to_string(),
        score,
        category,
        branch_points: 0,
        todo_markers: 0,
        scanner_findings: 0,
    }
}

#[test]
fn summary_counts() {
    let mut heatmap = vec![
        heat("a", 30, HeatCategory::Vulnerable),
        heat("b", 12, HeatCategory::Vulnerable),
        heat("c", 3, HeatCategory::Stale),
    ];
    for i in 0..12 {
        heatmap.push(heat(&format!("f{i}"), if i % 2 == 0 { 1 } else { 0 }, HeatCategory::Stable));
    }
    assert_eq!(count_vulnerable(&heatmap), 2);
    let top = top_flagged(&heatmap);
    assert_eq!(top, vec![0, 1, 2, 3, 5, 7, 9, 11, 13]);
    heatmap.push(heat("g", 4, HeatCategory::Stale));
    heatmap.push(heat("h", 4, HeatCategory::Stale));
    assert_eq!(top_flagged(&heatmap).len(), 10);
    assert_eq!(top_flagged(&heatmap)[9], 15);
}
