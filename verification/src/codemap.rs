//! The vulnerability heatmap: scores each source file and cross-references
//! Trivy/GitLeaks findings so the report can flag which files actually
//! deserve attention.
//!
//! The score is a proxy for "this file is worth a human's attention", not
//! a rigorous complexity metric:
//! - +1 per branching construct (if/match/for/while/loop) as a cheap
//!   cyclomatic-complexity stand-in
//! - +2 per line with a TODO/FIXME/XXX/HACK marker
//! - +10 per Trivy/GitLeaks finding attributed to the file
//!
//! A finding is attributed to a file when its path names a file (has at
//! least one component) and the file's path ends with the finding's path
//! or the other way round (whole components compared). A file's finding
//! count is the number of findings attributed to it.

use vstd::prelude::*;
use crate::paths::{components_end_with, components_end_with_exec, components_of, path_components};
use crate::security::{SecretFinding, Vulnerability};
use crate::syntax::{branch_points, count_branch_points, grammar_for, grammar_for_spec};
use crate::text::{count_todo_markers, todo_marker_count, vecs_view};

verus! {

broadcast use vstd::string::group_string_axioms;

/// How much attention a file deserves.
#[derive(Debug, Clone, Copy, PartialEq, Eq, Structural)]
pub enum HeatCategory {
    Stable,
    Stale,
    Vulnerable,
}

/// The score of one source file and what it is made of.
#[derive(Debug, Clone)]
pub struct FileHeat {
    pub path: String,
    pub score: u32,
    pub category: HeatCategory,
    pub branch_points: u32,
    pub todo_markers: u32,
    pub scanner_findings: u32,
}

/// A `FileHeat` with its path as characters.
pub struct FileHeatView {
    pub path: Seq<char>,
    pub score: u32,
    pub category: HeatCategory,
    pub branch_points: u32,
    pub todo_markers: u32,
    pub scanner_findings: u32,
}

impl View for FileHeat {
    type V = FileHeatView;

    open spec fn view(&self) -> FileHeatView {
        FileHeatView {
            path: self.path@,
            score: self.score,
            category: self.category,
            branch_points: self.branch_points,
            todo_markers: self.todo_markers,
            scanner_findings: self.scanner_findings,
        }
    }
}

/// The views of a list of file scores.
pub open spec fn heat_views(v: Seq<FileHeat>) -> Seq<FileHeatView> {
    v.map_values(|h: FileHeat| h@)
}

/// A source file that was read for scoring: its path and its text.
#[derive(Debug)]
pub struct SourceFile {
    pub path: String,
    pub source: String,
}

/// The category of a file: any scanner finding makes it vulnerable;
/// otherwise a marker or more than 15 branch points make it stale.
pub open spec fn heat_category(branch_points: u32, todo_markers: u32, findings: u32) -> HeatCategory {
    if findings > 0 {
        HeatCategory::Vulnerable
    } else if todo_markers > 0 || branch_points > 15 {
        HeatCategory::Stale
    } else {
        HeatCategory::Stable
    }
}

/// The score of a file: one per branch point, two per marked line, ten per
/// scanner finding.
pub open spec fn heat_score(branch_points: u32, todo_markers: u32, findings: u32) -> int {
    branch_points + 2 * todo_markers + 10 * findings
}

/// The branch points of a file: counted under the grammar its extension
/// picks; zero without a grammar or when the text does not parse.
pub open spec fn file_branch_points(path: Seq<char>, source: Seq<char>) -> u32 {
    match grammar_for_spec(path) {
        Some(g) => match branch_points(source, g) {
            Some(n) => n,
            None => 0,
        },
        None => 0,
    }
}

/// The score of the file at `path` with text `source` and `findings`
/// scanner findings; nothing when the score does not fit in 32 bits.
pub open spec fn score_file_spec(path: Seq<char>, source: Seq<char>, findings: u32) -> Option<
    FileHeatView,
> {
    let b = file_branch_points(path, source);
    let t = todo_marker_count(source) as u32;
    if heat_score(b, t, findings) <= u32::MAX {
        Some(
            FileHeatView {
                path: path,
                score: heat_score(b, t, findings) as u32,
                category: heat_category(b, t, findings),
                branch_points: b,
                todo_markers: t,
                scanner_findings: findings,
            },
        )
    } else {
        None
    }
}

/// Scores one file from its path, its text, and the number of scanner
/// findings attributed to it.
pub fn score_file(path: &str, source: &str, findings_for_file: u32) -> (r: Option<FileHeat>)
    ensures
        match r {
            Some(h) => score_file_spec(path@, source@, findings_for_file) == Some(h@),
            None => score_file_spec(path@, source@, findings_for_file) is None,
        },
{
    let branch_points: u32 = match grammar_for(path) {
        Some(g) => match count_branch_points(source, g) {
            Some(n) => n,
            None => 0,
        },
        None => 0,
    };
    let todo_markers = count_todo_markers(source);
    let wide: u64 = branch_points as u64 + todo_markers as u64 * 2 + findings_for_file as u64 * 10;
    if wide > u32::MAX as u64 {
        return None;
    }
    let score = wide as u32;
    let category = if findings_for_file > 0 {
        HeatCategory::Vulnerable
    } else if todo_markers > 0 || branch_points > 15 {
        HeatCategory::Stale
    } else {
        HeatCategory::Stable
    };
    let path_text = path.to_owned();
    Some(
        FileHeat {
            path: path_text,
            score,
            category,
            branch_points,
            todo_markers,
            scanner_findings: findings_for_file,
        },
    )
}

// ---------------------------------------------------------------------------
// Attributing findings to files
/// The paths of all findings: Trivy targets, then GitLeaks files.
pub open spec fn finding_paths(vulns: Seq<Vulnerability>, secrets: Seq<SecretFinding>) -> Seq<
    Seq<char>,
> {
    vulns.map_values(|v: Vulnerability| v.target@) + secrets.map_values(
        |s: SecretFinding| s.file@,
    )
}

/// Whether one of two component sequences ends the other.
pub open spec fn paths_related(a: Seq<Seq<char>>, b: Seq<Seq<char>>) -> bool {
    components_end_with(a, b) || components_end_with(b, a)
}

/// Whether a finding reported at path `finding` is attributed to the file
/// at `file`: the finding names a file (its path has a component), and one
/// of the two paths ends the other.
pub open spec fn attributed(finding: Seq<char>, file: Seq<char>) -> bool {
    path_components(finding).len() > 0 && paths_related(
        path_components(file),
        path_components(finding),
    )
}

/// The number of findings, among those reported at `paths`, that are
/// attributed to the file at `path`.
pub open spec fn findings_for_path(paths: Seq<Seq<char>>, path: Seq<char>) -> nat
    decreases paths.len(),
{
    if paths.len() == 0 {
        0
    } else {
        findings_for_path(paths.drop_last(), path) + if attributed(paths.last(), path) {
            1nat
        } else {
            0nat
        }
    }
}

/// The views of a list of component lists.
pub open spec fn components_list_view(v: Seq<Vec<Vec<char>>>) -> Seq<Seq<Seq<char>>> {
    v.map_values(|x: Vec<Vec<char>>| vecs_view(x@))
}

/// The components of each of `paths`.
pub open spec fn components_of_all(paths: Seq<Seq<char>>) -> Seq<Seq<Seq<char>>> {
    paths.map_values(|p: Seq<char>| path_components(p))
}

/// Counts the findings, whose paths have the components `findings`, that
/// are attributed to the file at `path`.
fn count_findings_for(findings: &Vec<Vec<Vec<char>>>, path: &str, Ghost(paths): Ghost<
    Seq<Seq<char>>,
>) -> (r: u32)
    requires
        components_list_view(findings@) == components_of_all(paths),
        paths.len() <= u32::MAX,
    ensures
        r == findings_for_path(paths, path@),
{
    let c = components_of(path);
    let mut count: u32 = 0;
    let mut j: usize = 0;
    while j < findings.len()
        invariant
            components_list_view(findings@) == components_of_all(paths),
            paths.len() <= u32::MAX,
            vecs_view(c@) == path_components(path@),
            0 <= j <= findings@.len(),
            count <= j,
            count == findings_for_path(paths.take(j as int), path@),
        decreases findings@.len() - j,
    {
        proof {
            assert(findings@.len() == paths.len()) by {
                assert(components_list_view(findings@).len() == findings@.len());
            }
            assert(vecs_view(findings@[j as int]@) == components_list_view(findings@)[j as int]);
            assert(paths.take(j + 1).drop_last() == paths.take(j as int));
            assert(paths.take(j + 1).last() == paths[j as int]);
        }
        let f = &findings[j];
        let related = f.len() > 0 && (components_end_with_exec(&c, f) || components_end_with_exec(
            f,
            &c,
        ));
        proof {
            assert(vecs_view(f@).len() == f@.len());
        }
        if related {
            count = count + 1;
        }
        j = j + 1;
    }
    proof {
        assert(findings@.len() == paths.len()) by {
            assert(components_list_view(findings@).len() == findings@.len());
        }
        assert(paths.take(paths.len() as int) == paths);
    }
    count
}

// ---------------------------------------------------------------------------
// Ordering by score
/// `x` placed into `sorted` (highest score first) after every entry that
/// scores at least as high.
pub open spec fn insert_by_score(sorted: Seq<FileHeatView>, x: FileHeatView) -> Seq<FileHeatView>
    decreases sorted.len(),
{
    if sorted.len() == 0 {
        seq![x]
    } else if sorted.last().score >= x.score {
        sorted.push(x)
    } else {
        insert_by_score(sorted.drop_last(), x).push(sorted.last())
    }
}

/// `s` ordered by score, highest first, equal scores in the order they
/// had in `s` (a stable sort).
pub open spec fn sort_by_score_desc(s: Seq<FileHeatView>) -> Seq<FileHeatView>
    decreases s.len(),
{
    if s.len() == 0 {
        s
    } else {
        insert_by_score(sort_by_score_desc(s.drop_last()), s.last())
    }
}

fn insert_heat(sorted: &mut Vec<FileHeat>, h: FileHeat)
    ensures
        heat_views(final(sorted)@) == insert_by_score(heat_views(old(sorted)@), h@),
{
    let ghost s = heat_views(sorted@);
    let ghost x = h@;
    let mut j = sorted.len();
    assert(s.take(j as int) == s);
    assert(s.skip(j as int) == Seq::<FileHeatView>::empty());
    while j > 0 && sorted[j - 1].score < h.score
        invariant
            s == heat_views(sorted@),
            x == h@,
            0 <= j <= sorted@.len(),
            insert_by_score(s, x) == insert_by_score(s.take(j as int), x) + s.skip(j as int),
        decreases j,
    {
        proof {
            assert(s[j - 1] == sorted@[j - 1]@);
            let t = s.take(j as int);
            assert(t.drop_last() == s.take(j - 1));
            assert(t.last() == s[j - 1]);
            assert(s.skip(j - 1) == seq![s[j - 1]] + s.skip(j as int));
            assert(insert_by_score(s.take(j - 1), x).push(s[j - 1]) + s.skip(j as int)
                == insert_by_score(s.take(j - 1), x) + s.skip(j - 1));
        }
        j = j - 1;
    }
    proof {
        if j > 0 {
            assert(s[j - 1] == sorted@[j - 1]@);
            assert(s.take(j as int).last() == s[j - 1]);
        } else {
            assert(s.take(0) == Seq::<FileHeatView>::empty());
        }
    }
    let ghost before = sorted@;
    sorted.insert(j, h);
    assert(heat_views(sorted@) == s.take(j as int).push(x) + s.skip(j as int)) by {
        assert(sorted@ == before.insert(j as int, h));
        assert(heat_views(sorted@) =~= s.take(j as int).push(x) + s.skip(j as int));
    }
}

// ---------------------------------------------------------------------------
// The heatmap
/// The scores of `files`, in the order given, files whose score does not
/// fit in 32 bits left out.
pub open spec fn scored_files(files: Seq<SourceFile>, paths: Seq<Seq<char>>) -> Seq<FileHeatView>
    decreases files.len(),
{
    if files.len() == 0 {
        Seq::empty()
    } else {
        let rest = scored_files(files.drop_last(), paths);
        let f = files.last();
        match score_file_spec(f.path@, f.source@, findings_for_path(paths, f.path@) as u32) {
            Some(h) => rest.push(h),
            None => rest,
        }
    }
}

/// The heatmap of `files`: every file scored with the findings attributed
/// to it, highest score first, ties in the order of `files`.
pub open spec fn heatmap_spec(
    files: Seq<SourceFile>,
    vulns: Seq<Vulnerability>,
    secrets: Seq<SecretFinding>,
) -> Seq<FileHeatView> {
    sort_by_score_desc(scored_files(files, finding_paths(vulns, secrets)))
}

/// Scores every source file, folding in scanner findings so files
/// Trivy/GitLeaks flagged come back red regardless of their own
/// branch/TODO count, and orders them by score, highest first.
pub fn build_heatmap(
    files: &[SourceFile],
    vulnerabilities: &[Vulnerability],
    secrets: &[SecretFinding],
) -> (r: Vec<FileHeat>)
    requires
        vulnerabilities@.len() + secrets@.len() <= u32::MAX,
    ensures
        heat_views(r@) == heatmap_spec(files@, vulnerabilities@, secrets@),
{
    let ghost paths = finding_paths(vulnerabilities@, secrets@);
    let mut findings: Vec<Vec<Vec<char>>> = Vec::new();
    let mut i: usize = 0;
    while i < vulnerabilities.len()
        invariant
            0 <= i <= vulnerabilities@.len(),
            components_list_view(findings@) == components_of_all(
                vulnerabilities@.take(i as int).map_values(|v: Vulnerability| v.target@),
            ),
        decreases vulnerabilities@.len() - i,
    {
        let ghost before = findings@;
        findings.push(components_of(vulnerabilities[i].target.as_str()));
        assert(components_list_view(findings@) =~= components_of_all(
            vulnerabilities@.take(i + 1).map_values(|v: Vulnerability| v.target@),
        )) by {
            assert(components_list_view(findings@) =~= components_list_view(before).push(
                path_components(vulnerabilities@[i as int].target@),
            ));
        }
        i = i + 1;
    }
    assert(vulnerabilities@.take(i as int) == vulnerabilities@);
    let ghost vpaths = vulnerabilities@.map_values(|v: Vulnerability| v.target@);
    let mut j: usize = 0;
    while j < secrets.len()
        invariant
            0 <= j <= secrets@.len(),
            components_list_view(findings@) == components_of_all(
                vpaths + secrets@.take(j as int).map_values(|s: SecretFinding| s.file@),
            ),
        decreases secrets@.len() - j,
    {
        let ghost before = findings@;
        findings.push(components_of(secrets[j].file.as_str()));
        assert(components_list_view(findings@) =~= components_of_all(
            vpaths + secrets@.take(j + 1).map_values(|s: SecretFinding| s.file@),
        )) by {
            assert(components_list_view(findings@) =~= components_list_view(before).push(
                path_components(secrets@[j as int].file@),
            ));
        }
        j = j + 1;
    }
    assert(secrets@.take(j as int) == secrets@);
    assert(vpaths + secrets@.map_values(|s: SecretFinding| s.file@) == paths);
    let mut heatmap: Vec<FileHeat> = Vec::new();
    let mut k: usize = 0;
    while k < files.len()
        invariant
            components_list_view(findings@) == components_of_all(paths),
            paths.len() <= u32::MAX,
            0 <= k <= files@.len(),
            heat_views(heatmap@) == sort_by_score_desc(scored_files(files@.take(k as int), paths)),
        decreases files@.len() - k,
    {
        let file = &files[k];
        let count = count_findings_for(&findings, file.path.as_str(), Ghost(paths));
        proof {
            lemma_findings_bound(paths, file.path@);
            assert(files@.take(k + 1).drop_last() == files@.take(k as int));
            assert(files@.take(k + 1).last() == files@[k as int]);
        }
        let ghost prev = scored_files(files@.take(k as int), paths);
        match score_file(file.path.as_str(), file.source.as_str(), count) {
            Some(h) => {
                assert(scored_files(files@.take(k + 1), paths) == prev.push(h@));
                assert(prev.push(h@).drop_last() == prev);
                insert_heat(&mut heatmap, h);
            },
            None => {
                assert(scored_files(files@.take(k + 1), paths) == prev);
            },
        }
        k = k + 1;
    }
    assert(files@.take(files@.len() as int) == files@);
    heatmap
}

/// A file never gets more findings than there are.
proof fn lemma_findings_bound(paths: Seq<Seq<char>>, path: Seq<char>)
    ensures
        findings_for_path(paths, path) <= paths.len(),
    decreases paths.len(),
{
    if paths.len() > 0 {
        lemma_findings_bound(paths.drop_last(), path);
    }
}

// ---------------------------------------------------------------------------
// Laws of the ordering
/// Whether `s` is ordered by score, highest first.
pub open spec fn sorted_by_score_desc(s: Seq<FileHeatView>) -> bool {
    forall|i: int, j: int| 0 <= i < j < s.len() ==> s[i].score >= s[j].score
}

/// The entries of `s` that score exactly `k`, in order.
pub open spec fn with_score(s: Seq<FileHeatView>, k: u32) -> Seq<FileHeatView>
    decreases s.len(),
{
    if s.len() == 0 {
        s
    } else if s.last().score == k {
        with_score(s.drop_last(), k).push(s.last())
    } else {
        with_score(s.drop_last(), k)
    }
}

proof fn lemma_insert_sorted(s: Seq<FileHeatView>, x: FileHeatView)
    requires
        sorted_by_score_desc(s),
    ensures
        sorted_by_score_desc(insert_by_score(s, x)),
        insert_by_score(s, x).len() == s.len() + 1,
        forall|i: int|
            0 <= i < insert_by_score(s, x).len() ==> #[trigger] insert_by_score(s, x)[i].score
                >= x.score || insert_by_score(s, x)[i].score >= (if s.len() > 0 {
                s[s.len() - 1].score
            } else {
                0
            }),
    decreases s.len(),
{
    if s.len() > 0 && s.last().score < x.score {
        let t = s.drop_last();
        assert(sorted_by_score_desc(t));
        lemma_insert_sorted(t, x);
        let u = insert_by_score(t, x);
        let r = u.push(s.last());
        assert forall|i: int, j: int| 0 <= i < j < r.len() implies r[i].score >= r[j].score by {
            if j == r.len() - 1 {
                assert(u[i].score >= x.score || u[i].score >= (if t.len() > 0 {
                    t[t.len() - 1].score
                } else {
                    0
                }));
                if t.len() > 0 {
                    assert(t[t.len() - 1].score >= s.last().score);
                }
            }
        }
    }
}

/// The ordering yields entries by score, highest first.
pub proof fn lemma_sort_sorted(s: Seq<FileHeatView>)
    ensures
        sorted_by_score_desc(sort_by_score_desc(s)),
        sort_by_score_desc(s).len() == s.len(),
    decreases s.len(),
{
    if s.len() > 0 {
        lemma_sort_sorted(s.drop_last());
        lemma_insert_sorted(sort_by_score_desc(s.drop_last()), s.last());
    }
}

proof fn lemma_insert_multiset(s: Seq<FileHeatView>, x: FileHeatView)
    ensures
        insert_by_score(s, x).to_multiset() =~= s.to_multiset().insert(x),
    decreases s.len(),
{
    broadcast use vstd::seq_lib::group_to_multiset_ensures;
    broadcast use vstd::multiset::group_multiset_axioms;

    if s.len() > 0 {
        if s.last().score < x.score {
            lemma_insert_multiset(s.drop_last(), x);
            assert(s == s.drop_last().push(s.last()));
        }
    } else {
        assert(seq![x] == Seq::<FileHeatView>::empty().push(x));
    }
}

/// The ordering keeps every entry, and adds none: it is a permutation.
pub proof fn lemma_sort_permutation(s: Seq<FileHeatView>)
    ensures
        sort_by_score_desc(s).to_multiset() =~= s.to_multiset(),
    decreases s.len(),
{
    broadcast use vstd::seq_lib::group_to_multiset_ensures;

    if s.len() > 0 {
        lemma_sort_permutation(s.drop_last());
        lemma_insert_multiset(sort_by_score_desc(s.drop_last()), s.last());
        assert(s == s.drop_last().push(s.last()));
    }
}

proof fn lemma_insert_with_score(s: Seq<FileHeatView>, x: FileHeatView, k: u32)
    requires
        sorted_by_score_desc(s),
    ensures
        with_score(insert_by_score(s, x), k) == if x.score == k {
            with_score(s, k).push(x)
        } else {
            with_score(s, k)
        },
    decreases s.len(),
{
    if s.len() == 0 {
        assert(seq![x].drop_last() == s);
    } else if s.last().score >= x.score {
        assert(s.push(x).drop_last() == s);
    } else {
        let t = s.drop_last();
        assert(sorted_by_score_desc(t));
        lemma_insert_with_score(t, x, k);
        let u = insert_by_score(t, x);
        assert(u.push(s.last()).drop_last() == u);
    }
}

/// The ordering is stable: the entries of any one score keep the order
/// they had.
pub proof fn lemma_sort_stable(s: Seq<FileHeatView>, k: u32)
    ensures
        with_score(sort_by_score_desc(s), k) == with_score(s, k),
    decreases s.len(),
{
    if s.len() > 0 {
        lemma_sort_stable(s.drop_last(), k);
        lemma_sort_sorted(s.drop_last());
        lemma_insert_with_score(sort_by_score_desc(s.drop_last()), s.last(), k);
    }
}

// ---------------------------------------------------------------------------
// Laws of finding attribution
/// A file gets findings exactly when some finding is attributed to it:
/// a finding that names a file, whose path ends the file's path or the
/// other way round (whole components compared).
pub proof fn lemma_findings_iff_related(paths: Seq<Seq<char>>, path: Seq<char>)
    ensures
        findings_for_path(paths, path) > 0 <==> exists|i: int|
            0 <= i < paths.len() && attributed(#[trigger] paths[i], path),
    decreases paths.len(),
{
    if paths.len() > 0 {
        let rest = paths.drop_last();
        lemma_findings_iff_related(rest, path);
        if exists|i: int| 0 <= i < rest.len() && attributed(#[trigger] rest[i], path) {
            let i = choose|i: int| 0 <= i < rest.len() && attributed(#[trigger] rest[i], path);
            assert(paths[i] == rest[i]);
        }
        if exists|i: int| 0 <= i < paths.len() && attributed(#[trigger] paths[i], path) {
            let i = choose|i: int| 0 <= i < paths.len() && attributed(#[trigger] paths[i], path);
            if i < paths.len() - 1 {
                assert(rest[i] == paths[i]);
            }
        }
    }
}

/// A finding whose path names no file (no components, such as an empty
/// Trivy target) is attributed to no file.
pub proof fn lemma_pathless_finding_ignored(paths: Seq<Seq<char>>, finding: Seq<char>, path: Seq<char>)
    requires
        path_components(finding).len() == 0,
    ensures
        findings_for_path(paths.push(finding), path) == findings_for_path(paths, path),
{
    assert(paths.push(finding).drop_last() == paths);
}

/// Each finding counts once for every file it is attributed to: adding a
/// finding adds one to the count of each file it is attributed to, and
/// nothing to the others.
pub proof fn lemma_finding_adds_one(paths: Seq<Seq<char>>, finding: Seq<char>, path: Seq<char>)
    ensures
        findings_for_path(paths.push(finding), path) == findings_for_path(paths, path) + if attributed(
            finding,
            path,
        ) {
            1nat
        } else {
            0nat
        },
{
    assert(paths.push(finding).drop_last() == paths);
}

// ---------------------------------------------------------------------------
// Laws of the heatmap
/// Whether `h` is the score of a file from its own counts and the findings
/// that `paths` attribute to it.
pub open spec fn heat_consistent(h: FileHeatView, paths: Seq<Seq<char>>) -> bool {
    &&& h.scanner_findings == findings_for_path(paths, h.path)
    &&& h.score == heat_score(h.branch_points, h.todo_markers, h.scanner_findings)
    &&& h.category == heat_category(h.branch_points, h.todo_markers, h.scanner_findings)
}

proof fn lemma_scored_consistent(files: Seq<SourceFile>, paths: Seq<Seq<char>>)
    requires
        paths.len() <= u32::MAX,
    ensures
        forall|i: int|
            0 <= i < scored_files(files, paths).len() ==> heat_consistent(
                #[trigger] scored_files(files, paths)[i],
                paths,
            ),
    decreases files.len(),
{
    if files.len() > 0 {
        lemma_scored_consistent(files.drop_last(), paths);
        let f = files.last();
        lemma_findings_bound(paths, f.path@);
        let n = findings_for_path(paths, f.path@);
        let rest = scored_files(files.drop_last(), paths);
        match score_file_spec(f.path@, f.source@, n as u32) {
            Some(h) => {
                assert(h.path == f.path@);
                assert(h.scanner_findings == n);
                assert(heat_consistent(h, paths));
                assert forall|i: int| 0 <= i < rest.push(h).len() implies heat_consistent(
                    #[trigger] rest.push(h)[i],
                    paths,
                ) by {
                    if i < rest.len() {
                        assert(rest.push(h)[i] == rest[i]);
                    }
                }
            },
            None => {},
        }
    }
}

/// In the heatmap, every entry is scored from its own branch points,
/// marked lines and attributed findings; an entry is vulnerable exactly
/// when some finding's path is related to the file's path, whatever its
/// branch and marker counts.
pub proof fn lemma_heatmap_entries(
    files: Seq<SourceFile>,
    vulns: Seq<Vulnerability>,
    secrets: Seq<SecretFinding>,
    i: int,
)
    requires
        vulns.len() + secrets.len() <= u32::MAX,
        0 <= i < heatmap_spec(files, vulns, secrets).len(),
    ensures
        heat_consistent(heatmap_spec(files, vulns, secrets)[i], finding_paths(vulns, secrets)),
        heatmap_spec(files, vulns, secrets)[i].score == heat_score(
            heatmap_spec(files, vulns, secrets)[i].branch_points,
            heatmap_spec(files, vulns, secrets)[i].todo_markers,
            heatmap_spec(files, vulns, secrets)[i].scanner_findings,
        ),
        (heatmap_spec(files, vulns, secrets)[i].category == HeatCategory::Vulnerable) <==> exists|
            p: int,
        |
            0 <= p < finding_paths(vulns, secrets).len() && attributed(
                #[trigger] finding_paths(vulns, secrets)[p],
                heatmap_spec(files, vulns, secrets)[i].path,
            ),
{
    broadcast use vstd::seq_lib::group_to_multiset_ensures;

    let paths = finding_paths(vulns, secrets);
    let scored = scored_files(files, paths);
    let h = heatmap_spec(files, vulns, secrets)[i];
    lemma_sort_permutation(scored);
    assert(sort_by_score_desc(scored).contains(h));
    assert(sort_by_score_desc(scored).to_multiset().count(h) > 0);
    assert(scored.contains(h));
    let m = choose|m: int| 0 <= m < scored.len() && scored[m] == h;
    lemma_scored_consistent(files, paths);
    assert(heat_consistent(scored[m], paths));
    lemma_findings_iff_related(paths, h.path);
}

/// Attribution goes both ways: when a Trivy target or a GitLeaks file has
/// at least one path component, and either its components end the
/// components of a heatmap entry's path or the entry's components end its
/// components, that entry counts at least one finding and is vulnerable.
/// When no finding path is so related to the entry's path, the entry counts
/// no finding and is not vulnerable.
pub proof fn lemma_heatmap_attribution(
    files: Seq<SourceFile>,
    vulns: Seq<Vulnerability>,
    secrets: Seq<SecretFinding>,
    i: int,
)
    requires
        vulns.len() + secrets.len() <= u32::MAX,
        0 <= i < heatmap_spec(files, vulns, secrets).len(),
    ensures
        forall|q: Seq<char>|
            #![trigger path_components(q)]
            (exists|k: int|
                (0 <= k < vulns.len() && q == vulns[k].target@) || (0 <= k < secrets.len() && q
                    == secrets[k].file@)) && path_components(q).len() > 0 && (components_end_with(
                path_components(q),
                path_components(heatmap_spec(files, vulns, secrets)[i].path),
            ) || components_end_with(
                path_components(heatmap_spec(files, vulns, secrets)[i].path),
                path_components(q),
            )) ==> heatmap_spec(files, vulns, secrets)[i].scanner_findings >= 1
                && heatmap_spec(files, vulns, secrets)[i].category == HeatCategory::Vulnerable,
        (forall|k: int|
            0 <= k < vulns.len() ==> !(path_components(vulns[k].target@).len() > 0 && (
            components_end_with(
                path_components(vulns[k].target@),
                path_components(heatmap_spec(files, vulns, secrets)[i].path),
            ) || components_end_with(
                path_components(heatmap_spec(files, vulns, secrets)[i].path),
                path_components(vulns[k].target@),
            )))) && (forall|k: int|
            0 <= k < secrets.len() ==> !(path_components(secrets[k].file@).len() > 0 && (
            components_end_with(
                path_components(secrets[k].file@),
                path_components(heatmap_spec(files, vulns, secrets)[i].path),
            ) || components_end_with(
                path_components(heatmap_spec(files, vulns, secrets)[i].path),
                path_components(secrets[k].file@),
            )))) ==> heatmap_spec(files, vulns, secrets)[i].scanner_findings == 0
            && heatmap_spec(files, vulns, secrets)[i].category != HeatCategory::Vulnerable,
{
    let paths = finding_paths(vulns, secrets);
    let h = heatmap_spec(files, vulns, secrets)[i];
    lemma_heatmap_entries(files, vulns, secrets, i);
    lemma_findings_iff_related(paths, h.path);
    assert forall|p: int| 0 <= p < paths.len() implies #[trigger] paths[p] == if p < vulns.len() {
        vulns[p].target@
    } else {
        secrets[p - vulns.len()].file@
    } by {}
    assert forall|q: Seq<char>|
        #![trigger path_components(q)]
        (exists|k: int|
            (0 <= k < vulns.len() && q == vulns[k].target@) || (0 <= k < secrets.len() && q
                == secrets[k].file@)) && path_components(q).len() > 0 && (components_end_with(
            path_components(q),
            path_components(h.path),
        ) || components_end_with(path_components(h.path), path_components(q))) implies h.scanner_findings
        >= 1 && h.category == HeatCategory::Vulnerable by {
        let k = choose|k: int|
            (0 <= k < vulns.len() && q == vulns[k].target@) || (0 <= k < secrets.len() && q
                == secrets[k].file@);
        if 0 <= k < vulns.len() && q == vulns[k].target@ {
            assert(paths[k] == q);
            assert(attributed(paths[k], h.path));
        } else {
            assert(paths[vulns.len() + k] == q);
            assert(attributed(paths[vulns.len() + k], h.path));
        }
    }
    if (forall|k: int|
        0 <= k < vulns.len() ==> !(path_components(vulns[k].target@).len() > 0 && (
        components_end_with(path_components(vulns[k].target@), path_components(h.path))
            || components_end_with(path_components(h.path), path_components(vulns[k].target@)))))
        && (forall|k: int|
        0 <= k < secrets.len() ==> !(path_components(secrets[k].file@).len() > 0 && (
        components_end_with(path_components(secrets[k].file@), path_components(h.path))
            || components_end_with(path_components(h.path), path_components(secrets[k].file@))))) {
        assert forall|p: int| 0 <= p < paths.len() implies !attributed(#[trigger] paths[p], h.path) by {
            if p < vulns.len() {
                assert(paths[p] == vulns[p].target@);
            } else {
                assert(paths[p] == secrets[p - vulns.len()].file@);
            }
        }
    }
}

/// The heatmap is ordered by score, highest first; it holds exactly the
/// scored files; and files of equal score keep the order they were given in.
pub proof fn lemma_heatmap_order(
    files: Seq<SourceFile>,
    vulns: Seq<Vulnerability>,
    secrets: Seq<SecretFinding>,
    k: u32,
)
    ensures
        sorted_by_score_desc(heatmap_spec(files, vulns, secrets)),
        heatmap_spec(files, vulns, secrets).to_multiset() =~= scored_files(
            files,
            finding_paths(vulns, secrets),
        ).to_multiset(),
        with_score(heatmap_spec(files, vulns, secrets), k) == with_score(
            scored_files(files, finding_paths(vulns, secrets)),
            k,
        ),
{
    let scored = scored_files(files, finding_paths(vulns, secrets));
    lemma_sort_sorted(scored);
    lemma_sort_permutation(scored);
    lemma_sort_stable(scored, k);
}

} // verus!
