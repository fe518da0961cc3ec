//! The findings of a scan as SARIF 2.1.0 results: enough for
//! `github/codeql-action/upload-sarif` to render them in a repository's
//! Security tab. Writing the SARIF document itself happens outside this
//! library; what each result says is decided here.

use vstd::prelude::*;
use vstd::string::StringExecFns;
use crate::security::{SecretFinding, Vulnerability};
use crate::severity::{
    Severity, parse_severity_spec, sarif_level_spec, sarif_severity_level, trivy_severity,
    trivy_severity_spec,
};

verus! {

broadcast use vstd::string::group_string_axioms;

/// One SARIF result: the rule that fired, its level, a message, the file
/// it points at and, for secrets, the line where it starts.
#[derive(Debug)]
pub struct SarifResult {
    pub rule_id: String,
    pub level: String,
    pub message: String,
    pub uri: String,
    pub start_line: Option<u32>,
}

/// A `SarifResult` as plain values.
pub struct SarifResultView {
    pub rule_id: Seq<char>,
    pub level: Seq<char>,
    pub message: Seq<char>,
    pub uri: Seq<char>,
    pub start_line: Option<u32>,
}

impl View for SarifResult {
    type V = SarifResultView;

    open spec fn view(&self) -> SarifResultView {
        SarifResultView {
            rule_id: self.rule_id@,
            level: self.level@,
            message: self.message@,
            uri: self.uri@,
            start_line: self.start_line,
        }
    }
}

/// The result for a Trivy finding: its id as rule, the level of its
/// severity, its title (or "<id> in <package>"), and its target file.
pub open spec fn vulnerability_result(v: Vulnerability) -> SarifResultView {
    SarifResultView {
        rule_id: v.id@,
        level: sarif_level_spec(trivy_severity_spec(v)),
        message: match v.title {
            Some(t) => t@,
            None => v.id@ + " in "@ + v.pkg_name@,
        },
        uri: v.target@,
        start_line: None,
    }
}

/// The result for a leaked secret: always an error, its description (or
/// "potential secret detected"), its file, and its start line, at least 1.
pub open spec fn secret_result(s: SecretFinding) -> SarifResultView {
    SarifResultView {
        rule_id: s.rule_id@,
        level: "error"@,
        message: match s.description {
            Some(d) => d@,
            None => "potential secret detected"@,
        },
        uri: s.file@,
        start_line: Some(
            if s.start_line >= 1 {
                s.start_line
            } else {
                1u32
            },
        ),
    }
}

/// All results of a scan: Trivy findings first, then secrets.
pub open spec fn sarif_results_spec(vulns: Seq<Vulnerability>, secrets: Seq<SecretFinding>) -> Seq<
    SarifResultView,
> {
    vulns.map_values(|v: Vulnerability| vulnerability_result(v)) + secrets.map_values(
        |s: SecretFinding| secret_result(s),
    )
}

fn result_for_vulnerability(v: &Vulnerability) -> (r: SarifResult)
    ensures
        r@ == vulnerability_result(*v),
{
    let message = match &v.title {
        Some(t) => t.clone(),
        None => {
            let mut m = v.id.clone();
            m.append(" in ");
            m.append(v.pkg_name.as_str());
            m
        },
    };
    let level = sarif_severity_level(trivy_severity(v)).to_owned();
    SarifResult {
        rule_id: v.id.clone(),
        level,
        message,
        uri: v.target.clone(),
        start_line: None,
    }
}

fn result_for_secret(s: &SecretFinding) -> (r: SarifResult)
    ensures
        r@ == secret_result(*s),
{
    let message = match &s.description {
        Some(d) => d.clone(),
        None => "potential secret detected".to_owned(),
    };
    let line = if s.start_line >= 1 {
        s.start_line
    } else {
        1
    };
    SarifResult {
        rule_id: s.rule_id.clone(),
        level: "error".to_owned(),
        message,
        uri: s.file.clone(),
        start_line: Some(line),
    }
}

/// The SARIF results for the findings of a scan.
pub fn sarif_results(vulns: &[Vulnerability], secrets: &[SecretFinding]) -> (r: Vec<SarifResult>)
    ensures
        r@.map_values(|x: SarifResult| x@) == sarif_results_spec(vulns@, secrets@),
{
    let mut out: Vec<SarifResult> = Vec::new();
    let mut i: usize = 0;
    while i < vulns.len()
        invariant
            0 <= i <= vulns@.len(),
            out@.map_values(|x: SarifResult| x@) == vulns@.take(i as int).map_values(
                |v: Vulnerability| vulnerability_result(v),
            ),
        decreases vulns@.len() - i,
    {
        let ghost before = out@;
        out.push(result_for_vulnerability(&vulns[i]));
        assert(out@.map_values(|x: SarifResult| x@) =~= before.map_values(|x: SarifResult| x@).push(
            vulnerability_result(vulns@[i as int]),
        ));
        assert(vulns@.take(i + 1).map_values(|v: Vulnerability| vulnerability_result(v))
            =~= vulns@.take(i as int).map_values(|v: Vulnerability| vulnerability_result(v)).push(
            vulnerability_result(vulns@[i as int]),
        ));
        i = i + 1;
    }
    assert(vulns@.take(vulns@.len() as int) == vulns@);
    let ghost first = out@.map_values(|x: SarifResult| x@);
    let mut j: usize = 0;
    while j < secrets.len()
        invariant
            0 <= j <= secrets@.len(),
            first.len() <= out@.len(),
            out@.map_values(|x: SarifResult| x@) == first + secrets@.take(j as int).map_values(
                |s: SecretFinding| secret_result(s),
            ),
        decreases secrets@.len() - j,
    {
        let ghost before = out@;
        out.push(result_for_secret(&secrets[j]));
        assert(out@.map_values(|x: SarifResult| x@) =~= before.map_values(|x: SarifResult| x@).push(
            secret_result(secrets@[j as int]),
        ));
        assert(secrets@.take(j + 1).map_values(|s: SecretFinding| secret_result(s))
            =~= secrets@.take(j as int).map_values(|s: SecretFinding| secret_result(s)).push(
            secret_result(secrets@[j as int]),
        ));
        j = j + 1;
    }
    assert(secrets@.take(secrets@.len() as int) == secrets@);
    out
}

/// What the SARIF results of a scan say, entry by entry: one result per
/// Trivy finding, in order, then one per secret. A finding's result carries
/// its id, its target, its title (or "<id> in <package>"), no line, and the
/// level its severity name calls for: "error" for high and critical,
/// "warning" for medium, unknown or unrecognised names, "note" for low and
/// none. A secret's result is always an error, with its rule, its file, its
/// description (or "potential secret detected") and its start line, at least 1.
pub proof fn lemma_sarif_results_content(vulns: Seq<Vulnerability>, secrets: Seq<SecretFinding>)
    ensures
        sarif_results_spec(vulns, secrets).len() == vulns.len() + secrets.len(),
        forall|i: int|
            #![trigger sarif_results_spec(vulns, secrets)[i]]
            0 <= i < vulns.len() ==> {
                let r = sarif_results_spec(vulns, secrets)[i];
                let v = vulns[i];
                &&& r.rule_id == v.id@
                &&& r.uri == v.target@
                &&& r.start_line is None
                &&& r.message == match v.title {
                    Some(t) => t@,
                    None => v.id@ + " in "@ + v.pkg_name@,
                }
                &&& r.level == match parse_severity_spec(v.severity@) {
                    Some(Severity::High) | Some(Severity::Critical) => "error"@,
                    Some(Severity::Low) | Some(Severity::Nothing) => "note"@,
                    _ => "warning"@,
                }
            },
        forall|j: int|
            #![trigger sarif_results_spec(vulns, secrets)[vulns.len() + j]]
            0 <= j < secrets.len() ==> {
                let r = sarif_results_spec(vulns, secrets)[vulns.len() + j];
                let s = secrets[j];
                &&& r.rule_id == s.rule_id@
                &&& r.uri == s.file@
                &&& r.level == "error"@
                &&& r.message == match s.description {
                    Some(d) => d@,
                    None => "potential secret detected"@,
                }
                &&& r.start_line == Some(if s.start_line == 0 { 1u32 } else { s.start_line })
            },
{
    let all = sarif_results_spec(vulns, secrets);
    assert forall|i: int| 0 <= i < vulns.len() implies #[trigger] all[i] == vulnerability_result(
        vulns[i],
    ) by {}
    assert forall|j: int| 0 <= j < secrets.len() implies #[trigger] all[vulns.len() + j]
        == secret_result(secrets[j]) by {}
}

} // verus!
