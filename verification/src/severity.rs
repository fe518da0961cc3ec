//! Finding severities: reading them from scanner output and from the
//! command line, ranking them, and deciding from the worst one whether the
//! scan fails.

use vstd::prelude::*;
use crate::security::{SecretFinding, Vulnerability};
use crate::text::{ascii_lowercase_is, chars_of, lowercase_matches};

verus! {

broadcast use vstd::string::group_string_axioms;

/// Severity of a finding, from none to critical.
#[derive(Debug, Clone, Copy, PartialEq, Eq, PartialOrd, Ord, Structural)]
pub enum Severity {
    Nothing,
    Low,
    Medium,
    High,
    Critical,
}

/// The place of a severity in the order None < Low < Medium < High < Critical.
pub open spec fn severity_rank(s: Severity) -> nat {
    match s {
        Severity::Nothing => 0,
        Severity::Low => 1,
        Severity::Medium => 2,
        Severity::High => 3,
        Severity::Critical => 4,
    }
}

/// The more severe of two severities.
pub open spec fn max_severity(a: Severity, b: Severity) -> Severity {
    if severity_rank(a) >= severity_rank(b) {
        a
    } else {
        b
    }
}

/// What a severity name means, compared without regard to ASCII case:
/// "unknown" counts as medium, any other unknown name means nothing.
pub open spec fn parse_severity_spec(s: Seq<char>) -> Option<Severity> {
    if ascii_lowercase_is(s, "none"@) {
        Some(Severity::Nothing)
    } else if ascii_lowercase_is(s, "low"@) {
        Some(Severity::Low)
    } else if ascii_lowercase_is(s, "medium"@) || ascii_lowercase_is(s, "unknown"@) {
        Some(Severity::Medium)
    } else if ascii_lowercase_is(s, "high"@) {
        Some(Severity::High)
    } else if ascii_lowercase_is(s, "critical"@) {
        Some(Severity::Critical)
    } else {
        None
    }
}

/// The severity of a Trivy finding: its severity name, medium when the
/// name means nothing.
pub open spec fn trivy_severity_spec(v: Vulnerability) -> Severity {
    match parse_severity_spec(v.severity@) {
        Some(s) => s,
        None => Severity::Medium,
    }
}

/// The worst severity among Trivy findings, none when there are none.
pub open spec fn worst_vulnerability_severity(vulns: Seq<Vulnerability>) -> Severity
    decreases vulns.len(),
{
    if vulns.len() == 0 {
        Severity::Nothing
    } else {
        max_severity(
            worst_vulnerability_severity(vulns.drop_last()),
            trivy_severity_spec(vulns.last()),
        )
    }
}

/// The worst severity of a scan: every leaked secret is critical.
pub open spec fn worst_severity_spec(vulns: Seq<Vulnerability>, secrets: Seq<SecretFinding>) -> Severity {
    let worst_secret = if secrets.len() > 0 {
        Severity::Critical
    } else {
        Severity::Nothing
    };
    max_severity(worst_vulnerability_severity(vulns), worst_secret)
}

/// The SARIF level for a severity.
pub open spec fn sarif_level_spec(sev: Severity) -> Seq<char> {
    match sev {
        Severity::Critical | Severity::High => "error"@,
        Severity::Medium => "warning"@,
        Severity::Low | Severity::Nothing => "note"@,
    }
}

/// Whether a scan whose worst finding is `worst` fails under `fail_on`:
/// `fail_on` is not none, some finding exists, and it is at least as
/// severe as `fail_on`.
pub open spec fn should_fail_spec(worst: Severity, fail_on: Severity) -> bool {
    fail_on != Severity::Nothing && severity_rank(worst) >= severity_rank(fail_on) && worst
        != Severity::Nothing
}

impl Severity {
    /// Reads a severity name, without regard to ASCII case.
    pub fn parse(s: &str) -> (r: Option<Severity>)
        ensures
            r == parse_severity_spec(s@),
    {
        let c = chars_of(s);
        if lowercase_matches(&c, "none") {
            Some(Severity::Nothing)
        } else if lowercase_matches(&c, "low") {
            Some(Severity::Low)
        } else if lowercase_matches(&c, "medium") || lowercase_matches(&c, "unknown") {
            Some(Severity::Medium)
        } else if lowercase_matches(&c, "high") {
            Some(Severity::High)
        } else if lowercase_matches(&c, "critical") {
            Some(Severity::Critical)
        } else {
            None
        }
    }

    /// The place of this severity in the order None < Low < ... < Critical.
    pub fn rank(self) -> (r: u8)
        ensures
            r == severity_rank(self),
    {
        match self {
            Severity::Nothing => 0,
            Severity::Low => 1,
            Severity::Medium => 2,
            Severity::High => 3,
            Severity::Critical => 4,
        }
    }
}

/// The severity of a Trivy finding; medium when its name means nothing.
pub fn trivy_severity(v: &Vulnerability) -> (r: Severity)
    ensures
        r == trivy_severity_spec(*v),
{
    match Severity::parse(v.severity.as_str()) {
        Some(s) => s,
        None => Severity::Medium,
    }
}

/// A leaked secret is treated as Critical regardless of what GitLeaks'
/// rule metadata says - there is no "low severity" live credential.
pub fn secret_severity(_s: &SecretFinding) -> (r: Severity)
    ensures
        r == Severity::Critical,
{
    Severity::Critical
}

fn more_severe(a: Severity, b: Severity) -> (r: Severity)
    ensures
        r == max_severity(a, b),
{
    if a.rank() >= b.rank() {
        a
    } else {
        b
    }
}

/// The worst severity among the findings of a scan.
pub fn worst_severity(vulns: &[Vulnerability], secrets: &[SecretFinding]) -> (r: Severity)
    ensures
        r == worst_severity_spec(vulns@, secrets@),
{
    let mut worst_vuln = Severity::Nothing;
    let mut i: usize = 0;
    while i < vulns.len()
        invariant
            0 <= i <= vulns@.len(),
            worst_vuln == worst_vulnerability_severity(vulns@.take(i as int)),
        decreases vulns@.len() - i,
    {
        assert(vulns@.take(i + 1).drop_last() == vulns@.take(i as int));
        worst_vuln = more_severe(worst_vuln, trivy_severity(&vulns[i]));
        i = i + 1;
    }
    assert(vulns@.take(vulns@.len() as int) == vulns@);
    let mut worst_secret = Severity::Nothing;
    let mut j: usize = 0;
    while j < secrets.len()
        invariant
            0 <= j <= secrets@.len(),
            worst_secret == (if j > 0 {
                Severity::Critical
            } else {
                Severity::Nothing
            }),
        decreases secrets@.len() - j,
    {
        worst_secret = more_severe(worst_secret, secret_severity(&secrets[j]));
        j = j + 1;
    }
    more_severe(worst_vuln, worst_secret)
}

/// The SARIF level under which a finding of this severity is reported.
pub fn sarif_severity_level(sev: Severity) -> (r: &'static str)
    ensures
        r@ == sarif_level_spec(sev),
{
    match sev {
        Severity::Critical | Severity::High => "error",
        Severity::Medium => "warning",
        Severity::Low | Severity::Nothing => "note",
    }
}

/// Whether the scan fails: its worst finding is at or above `fail_on`,
/// and `fail_on` is not none.
pub fn should_fail(worst: Severity, fail_on: Severity) -> (r: bool)
    ensures
        r == should_fail_spec(worst, fail_on),
        r == (fail_on != Severity::Nothing && severity_rank(worst) >= severity_rank(fail_on)),
{
    fail_on != Severity::Nothing && worst.rank() >= fail_on.rank() && worst != Severity::Nothing
}

/// The fail decision is exactly the threshold test: with a threshold other
/// than none, the scan fails precisely when its worst finding ranks at or
/// above the threshold (so a low finding fails a low threshold); with the
/// threshold none it never fails.
pub proof fn lemma_should_fail_threshold(worst: Severity, fail_on: Severity)
    ensures
        should_fail_spec(worst, fail_on) <==> (fail_on != Severity::Nothing && severity_rank(worst)
            >= severity_rank(fail_on)),
        fail_on == Severity::Nothing ==> !should_fail_spec(worst, fail_on),
        worst == fail_on && fail_on != Severity::Nothing ==> should_fail_spec(worst, fail_on),
{
}

/// Raising the threshold never turns a passing scan into a failing one.
pub proof fn lemma_should_fail_monotone(worst: Severity, lower: Severity, higher: Severity)
    requires
        lower != Severity::Nothing,
        severity_rank(lower) <= severity_rank(higher),
        should_fail_spec(worst, higher),
    ensures
        should_fail_spec(worst, lower),
{
}

/// A scan with any leaked secret fails under every threshold but none.
pub proof fn lemma_secret_fails_scan(
    vulns: Seq<Vulnerability>,
    secrets: Seq<SecretFinding>,
    fail_on: Severity,
)
    requires
        secrets.len() > 0,
        fail_on != Severity::Nothing,
    ensures
        worst_severity_spec(vulns, secrets) == Severity::Critical,
        should_fail_spec(worst_severity_spec(vulns, secrets), fail_on),
{
}

/// A scan with no findings never fails.
pub proof fn lemma_clean_scan_passes(fail_on: Severity)
    ensures
        worst_severity_spec(Seq::empty(), Seq::empty()) == Severity::Nothing,
        !should_fail_spec(worst_severity_spec(Seq::empty(), Seq::empty()), fail_on),
{
}

/// The worst severity among Trivy findings is at least that of each of them,
/// and is none or the severity of one of them.
proof fn lemma_worst_vulnerability_bounds(vulns: Seq<Vulnerability>)
    ensures
        forall|i: int|
            0 <= i < vulns.len() ==> severity_rank(trivy_severity_spec(#[trigger] vulns[i]))
                <= severity_rank(worst_vulnerability_severity(vulns)),
        worst_vulnerability_severity(vulns) == Severity::Nothing || exists|i: int|
            0 <= i < vulns.len() && worst_vulnerability_severity(vulns) == trivy_severity_spec(
                #[trigger] vulns[i],
            ),
    decreases vulns.len(),
{
    if vulns.len() > 0 {
        let rest = vulns.drop_last();
        lemma_worst_vulnerability_bounds(rest);
        assert forall|i: int| 0 <= i < vulns.len() implies severity_rank(
            trivy_severity_spec(#[trigger] vulns[i]),
        ) <= severity_rank(worst_vulnerability_severity(vulns)) by {
            if i < vulns.len() - 1 {
                assert(vulns[i] == rest[i]);
            }
        }
        if worst_vulnerability_severity(vulns) != Severity::Nothing {
            if worst_vulnerability_severity(vulns) == trivy_severity_spec(vulns.last()) {
                assert(worst_vulnerability_severity(vulns) == trivy_severity_spec(
                    vulns[vulns.len() - 1],
                ));
            } else {
                let i = choose|i: int|
                    0 <= i < rest.len() && worst_vulnerability_severity(rest)
                        == trivy_severity_spec(#[trigger] rest[i]);
                assert(vulns[i] == rest[i]);
            }
        }
    }
}

/// Adding findings never lowers the worst severity of a scan: when the
/// findings of one scan are among those of another (counted with their
/// multiplicity), its worst severity is at most the other's.
pub proof fn lemma_worst_severity_monotone(
    vulns: Seq<Vulnerability>,
    secrets: Seq<SecretFinding>,
    more_vulns: Seq<Vulnerability>,
    more_secrets: Seq<SecretFinding>,
)
    requires
        vulns.to_multiset().subset_of(more_vulns.to_multiset()),
        secrets.to_multiset().subset_of(more_secrets.to_multiset()),
    ensures
        severity_rank(worst_severity_spec(vulns, secrets)) <= severity_rank(
            worst_severity_spec(more_vulns, more_secrets),
        ),
{
    broadcast use vstd::seq_lib::group_to_multiset_ensures;

    lemma_worst_vulnerability_bounds(vulns);
    lemma_worst_vulnerability_bounds(more_vulns);
    if worst_vulnerability_severity(vulns) != Severity::Nothing {
        let i = choose|i: int|
            0 <= i < vulns.len() && worst_vulnerability_severity(vulns) == trivy_severity_spec(
                #[trigger] vulns[i],
            );
        assert(vulns.contains(vulns[i]));
        assert(vulns.to_multiset().count(vulns[i]) > 0);
        assert(more_vulns.to_multiset().count(vulns[i]) > 0);
        assert(more_vulns.contains(vulns[i]));
        let j = choose|j: int| 0 <= j < more_vulns.len() && more_vulns[j] == vulns[i];
        assert(severity_rank(trivy_severity_spec(more_vulns[j])) <= severity_rank(
            worst_vulnerability_severity(more_vulns),
        ));
    }
    if secrets.len() > 0 {
        assert(secrets.contains(secrets[0]));
        assert(secrets.to_multiset().count(secrets[0]) > 0);
        assert(more_secrets.to_multiset().count(secrets[0]) > 0);
        assert(more_secrets.contains(secrets[0]));
    }
}

/// Reordering the findings of a scan leaves its worst severity unchanged.
pub proof fn lemma_worst_severity_permutation(
    vulns: Seq<Vulnerability>,
    secrets: Seq<SecretFinding>,
    other_vulns: Seq<Vulnerability>,
    other_secrets: Seq<SecretFinding>,
)
    requires
        vulns.to_multiset() == other_vulns.to_multiset(),
        secrets.to_multiset() == other_secrets.to_multiset(),
    ensures
        worst_severity_spec(vulns, secrets) == worst_severity_spec(other_vulns, other_secrets),
{
    broadcast use vstd::multiset::group_multiset_axioms;

    assert(vulns.to_multiset().subset_of(other_vulns.to_multiset()));
    assert(other_vulns.to_multiset().subset_of(vulns.to_multiset()));
    assert(secrets.to_multiset().subset_of(other_secrets.to_multiset()));
    assert(other_secrets.to_multiset().subset_of(secrets.to_multiset()));
    lemma_worst_severity_monotone(vulns, secrets, other_vulns, other_secrets);
    lemma_worst_severity_monotone(other_vulns, other_secrets, vulns, secrets);
}

} // verus!
