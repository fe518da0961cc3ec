//! What the end-of-scan summary reports about a heatmap: how many files
//! came out vulnerable, and which files are listed as the top flagged ones.

use vstd::prelude::*;
use crate::codemap::{FileHeat, HeatCategory};

verus! {

/// The summary lists at most this many flagged files.
pub const TOP_FLAGGED_LIMIT: usize = 10;

/// How many entries of `heatmap` are vulnerable.
pub open spec fn vulnerable_count(heatmap: Seq<FileHeat>) -> nat
    decreases heatmap.len(),
{
    if heatmap.len() == 0 {
        0
    } else {
        vulnerable_count(heatmap.drop_last()) + if heatmap.last().category
            == HeatCategory::Vulnerable {
            1nat
        } else {
            0nat
        }
    }
}

/// The positions of the first `TOP_FLAGGED_LIMIT` entries that score above zero.
pub open spec fn top_flagged_spec(heatmap: Seq<FileHeat>) -> Seq<usize>
    decreases heatmap.len(),
{
    if heatmap.len() == 0 {
        Seq::empty()
    } else {
        let p = top_flagged_spec(heatmap.drop_last());
        if p.len() < TOP_FLAGGED_LIMIT && heatmap.last().score > 0 {
            p.push((heatmap.len() - 1) as usize)
        } else {
            p
        }
    }
}

/// Whether position `i` of `heatmap` holds an entry that scores above zero.
pub open spec fn scores_above_zero(heatmap: Seq<FileHeat>, i: usize) -> bool {
    i < heatmap.len() && heatmap[i as int].score > 0
}

/// Counts the vulnerable files of a heatmap.
pub fn count_vulnerable(heatmap: &[FileHeat]) -> (r: usize)
    ensures
        r == vulnerable_count(heatmap@),
{
    let mut count: usize = 0;
    let mut i: usize = 0;
    while i < heatmap.len()
        invariant
            0 <= i <= heatmap@.len(),
            count == vulnerable_count(heatmap@.take(i as int)),
            count <= i,
        decreases heatmap@.len() - i,
    {
        assert(heatmap@.take(i + 1).drop_last() == heatmap@.take(i as int));
        if heatmap[i].category == HeatCategory::Vulnerable {
            count = count + 1;
        }
        i = i + 1;
    }
    assert(heatmap@.take(heatmap@.len() as int) == heatmap@);
    count
}

/// The positions of the files the summary lists: the first ten that score
/// above zero, in heatmap order.
pub fn top_flagged(heatmap: &[FileHeat]) -> (r: Vec<usize>)
    ensures
        r@ == top_flagged_spec(heatmap@),
        r@.len() <= TOP_FLAGGED_LIMIT,
        forall|k: int| 0 <= k < r@.len() ==> #[trigger] scores_above_zero(heatmap@, r@[k]),
        forall|k: int, m: int| 0 <= k < m < r@.len() ==> r@[k] < r@[m],
{
    let mut out: Vec<usize> = Vec::new();
    let mut i: usize = 0;
    while i < heatmap.len()
        invariant
            0 <= i <= heatmap@.len(),
            out@ == top_flagged_spec(heatmap@.take(i as int)),
            out@.len() <= TOP_FLAGGED_LIMIT,
            forall|k: int| 0 <= k < out@.len() ==> #[trigger] out@[k] < i,
            forall|k: int| 0 <= k < out@.len() ==> #[trigger] scores_above_zero(heatmap@, out@[k]),
            forall|k: int, m: int| 0 <= k < m < out@.len() ==> out@[k] < out@[m],
        decreases heatmap@.len() - i,
    {
        assert(heatmap@.take(i + 1).drop_last() == heatmap@.take(i as int));
        let ghost before = out@;
        if out.len() < TOP_FLAGGED_LIMIT && heatmap[i].score > 0 {
            out.push(i);
        }
        assert forall|k: int| 0 <= k < out@.len() implies #[trigger] out@[k] < i + 1 by {
            if k < before.len() {
                assert(out@[k] == before[k]);
                assert(before[k] < i);
            }
        }
        assert forall|k: int| 0 <= k < out@.len() implies #[trigger] scores_above_zero(
            heatmap@,
            out@[k],
        ) by {
            if k < before.len() {
                assert(out@[k] == before[k]);
                assert(scores_above_zero(heatmap@, before[k]));
            }
        }
        assert forall|k: int, m: int| 0 <= k < m < out@.len() implies out@[k] < out@[m] by {
            if m < before.len() {
                assert(out@[k] == before[k] && out@[m] == before[m]);
            } else {
                assert(out@[k] == before[k]);
                assert(before[k] < i);
            }
        }
        i = i + 1;
    }
    assert(heatmap@.take(heatmap@.len() as int) == heatmap@);
    out
}

} // verus!
