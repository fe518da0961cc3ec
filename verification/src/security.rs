//! What the Trivy and GitLeaks scanners report, reduced to the fields the
//! heatmap and the reports need. Running the scanners and decoding their
//! JSON happens outside this library; turning Trivy's per-target result
//! lists into one flat list of findings happens here.

use vstd::prelude::*;

verus! {

/// A dependency or configuration finding reported by Trivy.
#[derive(Debug, Clone)]
pub struct Vulnerability {
    pub id: String,
    pub pkg_name: String,
    pub installed_version: String,
    pub fixed_version: Option<String>,
    pub severity: String,
    pub title: Option<String>,
    /// File the vulnerable dependency/config was found in, when Trivy
    /// reports one - this is what lets the heatmap cross-reference a
    /// finding back onto a specific file.
    pub target: String,
}

/// A leaked secret reported by GitLeaks.
#[derive(Debug, Clone)]
pub struct SecretFinding {
    pub rule_id: String,
    pub file: String,
    pub start_line: u32,
    pub commit: Option<String>,
    pub description: Option<String>,
}

/// One vulnerability as Trivy lists it under a result.
#[derive(Debug)]
pub struct TrivyVuln {
    pub id: String,
    pub pkg_name: String,
    pub installed_version: String,
    pub fixed_version: Option<String>,
    pub severity: String,
    pub title: Option<String>,
}

/// One Trivy result: a scanned target and the vulnerabilities found in it.
#[derive(Debug)]
pub struct TrivyResult {
    pub target: String,
    pub vulnerabilities: Vec<TrivyVuln>,
}

/// The finding for vulnerability `v` of the result for `target`.
pub open spec fn trivy_vulnerability(v: TrivyVuln, target: String) -> Vulnerability {
    Vulnerability {
        id: v.id,
        pkg_name: v.pkg_name,
        installed_version: v.installed_version,
        fixed_version: v.fixed_version,
        severity: v.severity,
        title: v.title,
        target: target,
    }
}

/// All findings of `results`: each result's vulnerabilities in order,
/// tagged with that result's target, results one after another.
pub open spec fn trivy_findings_spec(results: Seq<TrivyResult>) -> Seq<Vulnerability>
    decreases results.len(),
{
    if results.len() == 0 {
        Seq::empty()
    } else {
        trivy_findings_spec(results.drop_last()) + results.last().vulnerabilities@.map_values(
            |v: TrivyVuln| trivy_vulnerability(v, results.last().target),
        )
    }
}

/// Flattens Trivy's per-target results into one list of findings.
pub fn trivy_findings(results: Vec<TrivyResult>) -> (r: Vec<Vulnerability>)
    ensures
        r@ == trivy_findings_spec(results@),
{
    let ghost all = results@;
    let mut findings: Vec<Vulnerability> = Vec::new();
    let mut rest = results;
    let ghost done_count: int = 0;
    while rest.len() > 0
        invariant
            0 <= done_count <= all.len(),
            rest@ == all.skip(done_count),
            findings@ == trivy_findings_spec(all.take(done_count)),
        decreases rest@.len(),
    {
        let result = rest.remove(0);
        assert(result == all[done_count]);
        let target = result.target;
        let mut vulns = result.vulnerabilities;
        let ghost vs = vulns@;
        let ghost base = findings@;
        let ghost mut k: int = 0;
        while vulns.len() > 0
            invariant
                0 <= k <= vs.len(),
                vulns@ == vs.skip(k),
                findings@ == base + vs.take(k).map_values(
                    |v: TrivyVuln| trivy_vulnerability(v, target),
                ),
            decreases vulns@.len(),
        {
            let v = vulns.remove(0);
            assert(v == vs[k]);
            let ghost before = findings@;
            findings.push(
                Vulnerability {
                    id: v.id,
                    pkg_name: v.pkg_name,
                    installed_version: v.installed_version,
                    fixed_version: v.fixed_version,
                    severity: v.severity,
                    title: v.title,
                    target: target.clone(),
                },
            );
            proof {
                assert(vs.take(k + 1) == vs.take(k).push(vs[k]));
                assert(vs.take(k + 1).map_values(|v: TrivyVuln| trivy_vulnerability(v, target))
                    == vs.take(k).map_values(|v: TrivyVuln| trivy_vulnerability(v, target)).push(
                    trivy_vulnerability(vs[k], target),
                ));
                k = k + 1;
                assert(vs.skip(k) =~= vs.skip(k - 1).drop_first());
            }
        }
        proof {
            assert(vs.take(k) == vs);
            assert(all.take(done_count + 1).drop_last() == all.take(done_count));
            assert(all.take(done_count + 1).last() == all[done_count]);
            done_count = done_count + 1;
            assert(all.skip(done_count) =~= all.skip(done_count - 1).drop_first());
        }
    }
    assert(all.take(done_count) == all);
    findings
}

/// The number of vulnerabilities listed under `results`.
pub open spec fn vulnerability_count(results: Seq<TrivyResult>) -> nat
    decreases results.len(),
{
    if results.len() == 0 {
        0
    } else {
        vulnerability_count(results.drop_last()) + results.last().vulnerabilities@.len()
    }
}

/// Flattening keeps every Trivy vulnerability with its fields: there is one
/// finding per vulnerability, results in order, and the finding for the
/// `j`-th vulnerability `v` of result `r` (after those of the results
/// before `r`) has `v`'s id, package, installed and fixed versions,
/// severity and title, and `r`'s target.
pub proof fn lemma_trivy_findings_fields(results: Seq<TrivyResult>)
    ensures
        trivy_findings_spec(results).len() == vulnerability_count(results),
        forall|r: int|
            0 <= r < results.len() ==> vulnerability_count(results.take(r))
                + #[trigger] results[r].vulnerabilities@.len() <= vulnerability_count(results),
        forall|r: int, j: int|
            0 <= r < results.len() && 0 <= j < results[r].vulnerabilities@.len() ==> {
                let f = #[trigger] trivy_findings_spec(results)[vulnerability_count(results.take(r)) + j];
                let v = results[r].vulnerabilities@[j];
                &&& f.id == v.id
                &&& f.pkg_name == v.pkg_name
                &&& f.installed_version == v.installed_version
                &&& f.fixed_version == v.fixed_version
                &&& f.severity == v.severity
                &&& f.title == v.title
                &&& f.target == results[r].target
            },
    decreases results.len(),
{
    if results.len() > 0 {
        let rest = results.drop_last();
        lemma_trivy_findings_fields(rest);
        let last = results.last();
        let n = results.len() - 1;
        assert(results.take(n) == rest);
        assert forall|r: int| 0 <= r < n implies results.take(r) == rest.take(r) && results[r]
            == rest[r] by {}
        assert forall|r: int|
            0 <= r < results.len() implies vulnerability_count(results.take(r))
            + #[trigger] results[r].vulnerabilities@.len() <= vulnerability_count(results) by {
            if r < n {
                assert(results.take(r) == rest.take(r) && results[r] == rest[r]);
            }
        }
        let all = trivy_findings_spec(results);
        assert forall|r: int, j: int|
            0 <= r < results.len() && 0 <= j < results[r].vulnerabilities@.len() implies {
            let f = #[trigger] all[vulnerability_count(results.take(r)) + j];
            let v = results[r].vulnerabilities@[j];
            &&& f.id == v.id
            &&& f.pkg_name == v.pkg_name
            &&& f.installed_version == v.installed_version
            &&& f.fixed_version == v.fixed_version
            &&& f.severity == v.severity
            &&& f.title == v.title
            &&& f.target == results[r].target
        } by {
            if r < n {
                assert(results.take(r) == rest.take(r) && results[r] == rest[r]);
                assert(all[vulnerability_count(results.take(r)) + j] == trivy_findings_spec(
                    rest,
                )[vulnerability_count(rest.take(r)) + j]);
            } else {
                assert(r == n);
                assert(all[vulnerability_count(results.take(r)) + j] == trivy_vulnerability(
                    last.vulnerabilities@[j],
                    last.target,
                ));
            }
        }
    }
}

} // verus!
