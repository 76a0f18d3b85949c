//! Recaps: what happened in recent sessions, for rebuilding context.

use vstd::prelude::*;
use crate::clock::{is_local_text, local_time_text, parse_utc, rfc3339_of, rfc3339_text, utc_parse};
use crate::text::{decimal, decimal_signed, push_decimal, push_signed, push_str};
use crate::types::div_trunc;
use crate::session::Session;
use crate::text::{
    insert_sorted, lex_lt, lemma_lex_irreflexive, lemma_lex_total,
    lemma_lex_transitive, str_lt, strictly_ascending, views,
};
use crate::types::{seconds_between, seconds_diff, Snapshot};
use vstd::string::StringExecFns;

verus! {

/// State of the project's git repository.
#[derive(Clone, Debug)]
pub struct GitInfo {
    /// Current branch.
    pub branch: String,
    /// Files with uncommitted changes, as git lists them.
    pub uncommitted_files: Vec<String>,
    /// Most recent commits, newest first.
    pub recent_commits: Vec<GitCommit>,
}

/// A commit summary.
#[derive(Clone, Debug)]
pub struct GitCommit {
    /// Abbreviated hash.
    pub hash: String,
    /// First line of the message.
    pub message: String,
}

/// Editing activity on one file within a session.
#[derive(Clone, Debug)]
pub struct FileActivity {
    /// Path relative to the project root.
    pub path: String,
    /// Snapshots of the file in the session.
    pub edits: u64,
    /// RFC 3339 text of the latest of them.
    pub last_edit: String,
    /// Lines added over them.
    pub lines_added: u64,
    /// Lines removed over them.
    pub lines_removed: u64,
}

/// A session with its activity per file.
#[derive(Clone, Debug)]
pub struct SessionRecap {
    pub number: usize,
    /// RFC 3339 text of the first instant.
    pub start: String,
    /// RFC 3339 text of the last instant.
    pub end: String,
    /// Whole seconds from the first to the last instant.
    pub duration_seconds: i64,
    pub edit_count: usize,
    pub file_count: usize,
    /// Activity per file, most edited first.
    pub files: Vec<FileActivity>,
}

/// The most recent edit.
#[derive(Clone, Debug)]
pub struct LatestActivity {
    /// RFC 3339 text of its instant.
    pub last_edit: String,
    /// Its file.
    pub last_file: String,
    /// Whole minutes since it, at the time of the query.
    pub minutes_ago: u64,
}

/// The recap of one project.
#[derive(Clone, Debug)]
pub struct RecapOutput {
    /// Canonical project path.
    pub project: String,
    pub sessions: Vec<SessionRecap>,
    /// Git state, when the project is a git repository.
    pub git: Option<GitInfo>,
    pub latest_activity: Option<LatestActivity>,
}

/// The recap of several projects.
#[derive(Clone, Debug)]
pub struct GlobalRecapOutput {
    pub projects: Vec<RecapOutput>,
    pub total_sessions: usize,
    pub total_edits: usize,
}

// ---------------------------------------------------------------------------
// Activity per file
// ---------------------------------------------------------------------------

/// Snapshot `x` lies in the window `start..=end`.
pub open spec fn in_window(x: Snapshot, start: int, end: int) -> bool {
    start <= x.timestamp && x.timestamp <= end
}

/// Number of snapshots of file `p` in the window.
pub open spec fn edits_of(s: Seq<Snapshot>, p: Seq<char>, start: int, end: int) -> int
    decreases s.len(),
{
    if s.len() == 0 {
        0
    } else {
        edits_of(s.drop_last(), p, start, end) + (if s.last().file_path@ == p && in_window(
            s.last(),
            start,
            end,
        ) {
            1int
        } else {
            0int
        })
    }
}

/// Lines added (`added`) or removed over the snapshots of file `p` in the window.
pub open spec fn lines_of(s: Seq<Snapshot>, p: Seq<char>, start: int, end: int, added: bool) -> int
    decreases s.len(),
{
    if s.len() == 0 {
        0
    } else {
        lines_of(s.drop_last(), p, start, end, added) + (if s.last().file_path@ == p && in_window(
            s.last(),
            start,
            end,
        ) {
            if added {
                s.last().lines_added as int
            } else {
                s.last().lines_removed as int
            }
        } else {
            0int
        })
    }
}

/// The latest instant among the snapshots of file `p` in the window
/// (`i64::MIN` when there is none).
pub open spec fn last_edit_of(s: Seq<Snapshot>, p: Seq<char>, start: int, end: int) -> int
    decreases s.len(),
{
    if s.len() == 0 {
        i64::MIN as int
    } else {
        let rest = last_edit_of(s.drop_last(), p, start, end);
        if s.last().file_path@ == p && in_window(s.last(), start, end) && s.last().timestamp
            > rest {
            s.last().timestamp as int
        } else {
            rest
        }
    }
}

/// Total lines added and removed over all snapshots.
pub open spec fn total_lines(s: Seq<Snapshot>) -> int
    decreases s.len(),
{
    if s.len() == 0 {
        0
    } else {
        total_lines(s.drop_last()) + s.last().lines_added + s.last().lines_removed
    }
}

/// Activity `a` comes before `b`: more edits, or as many and a path that
/// sorts first.
pub open spec fn more_active(a: FileActivity, b: FileActivity) -> bool {
    a.edits > b.edits || (a.edits == b.edits && lex_lt(a.path@, b.path@))
}

/// `a` reports the activity on file `a.path` in the window.
pub open spec fn reports_activity(s: Seq<Snapshot>, start: int, end: int, a: FileActivity) -> bool {
    &&& a.edits == edits_of(s, a.path@, start, end)
    &&& a.lines_added == lines_of(s, a.path@, start, end, true)
    &&& a.lines_removed == lines_of(s, a.path@, start, end, false)
    &&& a.last_edit@ == rfc3339_text(last_edit_of(s, a.path@, start, end))
}

/// `r` is the activity per file of the snapshots of `s` in the window: one
/// entry per file with a snapshot there, most edited first, ties by path.
pub open spec fn is_file_activity(s: Seq<Snapshot>, start: int, end: int, r: Seq<FileActivity>) -> bool {
    &&& forall|i: int| 0 <= i < r.len() ==> reports_activity(s, start, end, #[trigger] r[i])
    &&& forall|i: int| 0 <= i < r.len() ==> edits_of(s, (#[trigger] r[i]).path@, start, end) > 0
    &&& forall|k: int|
        0 <= k < s.len() && in_window(s[k], start, end) ==> exists|i: int|
            0 <= i < r.len() && (#[trigger] r[i]).path@ == s[k].file_path@
    &&& forall|i: int, j: int| 0 <= i < j < r.len() ==> more_active(r[i], r[j])
}

/// Counting over a prefix: the step from `k` to `k + 1` snapshots.
proof fn lemma_stats_step(s: Seq<Snapshot>, k: int, p: Seq<char>, start: int, end: int)
    requires
        0 <= k < s.len(),
    ensures
        edits_of(s.subrange(0, k + 1), p, start, end) == edits_of(s.subrange(0, k), p, start, end)
            + (if s[k].file_path@ == p && in_window(s[k], start, end) {
            1int
        } else {
            0int
        }),
        lines_of(s.subrange(0, k + 1), p, start, end, true) == lines_of(
            s.subrange(0, k),
            p,
            start,
            end,
            true,
        ) + (if s[k].file_path@ == p && in_window(s[k], start, end) {
            s[k].lines_added as int
        } else {
            0int
        }),
        lines_of(s.subrange(0, k + 1), p, start, end, false) == lines_of(
            s.subrange(0, k),
            p,
            start,
            end,
            false,
        ) + (if s[k].file_path@ == p && in_window(s[k], start, end) {
            s[k].lines_removed as int
        } else {
            0int
        }),
        total_lines(s.subrange(0, k + 1)) == total_lines(s.subrange(0, k)) + s[k].lines_added
            + s[k].lines_removed,
{
    let next = s.subrange(0, k + 1);
    assert(next.drop_last() =~= s.subrange(0, k));
}

/// Per-file line sums never exceed the total, nor go negative.
proof fn lemma_lines_bounded(s: Seq<Snapshot>, p: Seq<char>, start: int, end: int)
    ensures
        0 <= lines_of(s, p, start, end, true),
        0 <= lines_of(s, p, start, end, false),
        lines_of(s, p, start, end, true) + lines_of(s, p, start, end, false) <= total_lines(s),
        0 <= edits_of(s, p, start, end) <= s.len(),
    decreases s.len(),
{
    if s.len() > 0 {
        lemma_lines_bounded(s.drop_last(), p, start, end);
    }
}

/// The edit count is positive exactly when some snapshot of the file lies
/// in the window; the latest instant is always an `i64`.
proof fn lemma_edits_positive(s: Seq<Snapshot>, p: Seq<char>, start: int, end: int)
    ensures
        edits_of(s, p, start, end) > 0 <==> exists|k: int|
            0 <= k < s.len() && s[k].file_path@ == p && in_window(s[k], start, end),
        i64::MIN <= last_edit_of(s, p, start, end) <= i64::MAX,
    decreases s.len(),
{
    if s.len() > 0 {
        let t = s.drop_last();
        lemma_edits_positive(t, p, start, end);
        lemma_lines_bounded(t, p, start, end);
        if s.last().file_path@ == p && in_window(s.last(), start, end) {
            assert(s[s.len() - 1] == s.last());
        } else {
            assert forall|k: int| 0 <= k < t.len() implies #[trigger] t[k] == s[k] by {}
            if exists|k: int| 0 <= k < s.len() && s[k].file_path@ == p && in_window(s[k], start, end) {
                let k = choose|k: int| 0 <= k < s.len() && s[k].file_path@ == p && in_window(s[k], start, end);
                assert(k < t.len());
                assert(t[k] == s[k]);
            }
        }
    }
}

/// A snapshot of file `p` whose instant lies between `start` and `end`,
/// both included.
pub open spec fn of_file_within(p: Seq<char>, start: int, end: int) -> spec_fn(Snapshot) -> bool {
    |x: Snapshot| x.file_path@ == p && start <= x.timestamp && x.timestamp <= end
}

/// The edit count of a file is the number of its snapshots whose instant
/// lies between `start` and `end`, both included.
proof fn lemma_edits_count(s: Seq<Snapshot>, p: Seq<char>, start: int, end: int)
    ensures
        edits_of(s, p, start, end) == s.filter(of_file_within(p, start, end)).len(),
    decreases s.len(),
{
    reveal(Seq::filter);
    if s.len() > 0 {
        lemma_edits_count(s.drop_last(), p, start, end);
    }
}

/// The lines a file gained (`added`) or lost over its snapshots whose
/// instant lies between `start` and `end`, both included, add up to what
/// the recap shows.
proof fn lemma_lines_sum(s: Seq<Snapshot>, p: Seq<char>, start: int, end: int)
    ensures
        lines_of(s, p, start, end, true) == s.filter(of_file_within(p, start, end)).fold_left(
            0int,
            |acc: int, x: Snapshot| acc + x.lines_added,
        ),
        lines_of(s, p, start, end, false) == s.filter(of_file_within(p, start, end)).fold_left(
            0int,
            |acc: int, x: Snapshot| acc + x.lines_removed,
        ),
    decreases s.len(),
{
    reveal(Seq::filter);
    if s.len() > 0 {
        lemma_lines_sum(s.drop_last(), p, start, end);
        let pred = of_file_within(p, start, end);
        let sub = s.drop_last().filter(pred);
        assert(s.filter(pred) == if pred(s.last()) {
            sub.push(s.last())
        } else {
            sub
        });
        if pred(s.last()) {
            assert(sub.push(s.last()).drop_last() =~= sub);
        }
    }
}

/// The recap's activity covers the closed window `start..=end`: every
/// snapshot whose instant lies there, the last instant included, has its
/// file listed; and each file's edit count is the number of its snapshots
/// in that window.
pub proof fn lemma_file_activity_window(s: Seq<Snapshot>, start: int, end: int, r: Seq<FileActivity>)
    requires
        is_file_activity(s, start, end, r),
    ensures
        forall|k: int|
            0 <= k < s.len() && start <= #[trigger] s[k].timestamp && s[k].timestamp <= end
                ==> exists|i: int| 0 <= i < r.len() && r[i].path@ == s[k].file_path@,
        forall|i: int|
            0 <= i < r.len() ==> (#[trigger] r[i]).edits == s.filter(
                of_file_within(r[i].path@, start, end),
            ).len(),
        forall|i: int|
            0 <= i < r.len() ==> (#[trigger] r[i]).lines_added == s.filter(
                of_file_within(r[i].path@, start, end),
            ).fold_left(0int, |acc: int, x: Snapshot| acc + x.lines_added) && r[i].lines_removed
                == s.filter(of_file_within(r[i].path@, start, end)).fold_left(
                0int,
                |acc: int, x: Snapshot| acc + x.lines_removed,
            ),
{
    assert forall|k: int|
        0 <= k < s.len() && start <= #[trigger] s[k].timestamp && s[k].timestamp <= end implies exists|i: int|
            0 <= i < r.len() && r[i].path@ == s[k].file_path@ by {
        assert(in_window(s[k], start, end));
    }
    assert forall|i: int| 0 <= i < r.len() implies (#[trigger] r[i]).edits == s.filter(
        of_file_within(r[i].path@, start, end),
    ).len() by {
        assert(reports_activity(s, start, end, r[i]));
        lemma_edits_count(s, r[i].path@, start, end);
    }
    assert forall|i: int| 0 <= i < r.len() implies (#[trigger] r[i]).lines_added == s.filter(
        of_file_within(r[i].path@, start, end),
    ).fold_left(0int, |acc: int, x: Snapshot| acc + x.lines_added) && r[i].lines_removed
        == s.filter(of_file_within(r[i].path@, start, end)).fold_left(
        0int,
        |acc: int, x: Snapshot| acc + x.lines_removed,
    ) by {
        assert(reports_activity(s, start, end, r[i]));
        lemma_lines_sum(s, r[i].path@, start, end);
    }
}

/// The statistics of one file over the snapshots in the window.
fn file_stats(snapshots: &[Snapshot], path: &String, start: i64, end: i64) -> (r: FileActivity)
    requires
        total_lines(snapshots@) <= u64::MAX,
    ensures
        reports_activity(snapshots@, start as int, end as int, r),
        r.path@ == path@,
{
    let ghost s = snapshots@;
    let mut edits: u64 = 0;
    let mut added: u64 = 0;
    let mut removed: u64 = 0;
    let mut last: i64 = i64::MIN;
    let mut k: usize = 0;
    while k < snapshots.len()
        invariant
            s == snapshots@,
            total_lines(s) <= u64::MAX,
            k <= s.len(),
            edits == edits_of(s.subrange(0, k as int), path@, start as int, end as int),
            added == lines_of(s.subrange(0, k as int), path@, start as int, end as int, true),
            removed == lines_of(s.subrange(0, k as int), path@, start as int, end as int, false),
            last == last_edit_of(s.subrange(0, k as int), path@, start as int, end as int),
        decreases s.len() - k,
    {
        let x = &snapshots[k];
        proof {
            lemma_stats_step(s, k as int, path@, start as int, end as int);
            lemma_lines_bounded(s.subrange(0, k + 1), path@, start as int, end as int);
            assert(s.subrange(0, k + 1).subrange(0, k + 1) =~= s.subrange(0, k + 1));
            lemma_total_prefix(s, k + 1);
            let next = s.subrange(0, k + 1);
            assert(next.drop_last() =~= s.subrange(0, k as int));
        }
        if crate::text::str_eq(x.file_path.as_str(), path.as_str()) && start <= x.timestamp
            && x.timestamp <= end {
            edits = edits + 1;
            added = added + x.lines_added;
            removed = removed + x.lines_removed;
            if x.timestamp > last {
                last = x.timestamp;
            }
        }
        k = k + 1;
    }
    assert(s.subrange(0, s.len() as int) =~= s);
    FileActivity {
        path: path.clone(),
        edits,
        last_edit: rfc3339_of(last),
        lines_added: added,
        lines_removed: removed,
    }
}

/// Line totals of a prefix never exceed the whole.
proof fn lemma_total_prefix(s: Seq<Snapshot>, k: int)
    requires
        0 <= k <= s.len(),
    ensures
        0 <= total_lines(s.subrange(0, k)) <= total_lines(s),
    decreases s.len(),
{
    if k < s.len() {
        lemma_total_prefix(s.drop_last(), k);
        assert(s.drop_last().subrange(0, k) =~= s.subrange(0, k));
    } else {
        assert(s.subrange(0, k) =~= s);
        lemma_total_nonneg(s);
    }
}

/// Line totals are never negative.
proof fn lemma_total_nonneg(s: Seq<Snapshot>)
    ensures
        total_lines(s) >= 0,
    decreases s.len(),
{
    if s.len() > 0 {
        lemma_total_nonneg(s.drop_last());
    }
}

/// Ordering of activities is a strict total order on distinct paths.
proof fn lemma_more_active_order(a: FileActivity, b: FileActivity, c: FileActivity)
    ensures
        !(more_active(a, b) && more_active(b, a)),
        more_active(a, b) && more_active(b, c) ==> more_active(a, c),
        a.path@ != b.path@ ==> more_active(a, b) || more_active(b, a),
        !more_active(a, a),
{
    crate::text::lemma_lex_asymmetric(a.path@, b.path@);
    lemma_lex_irreflexive(a.path@);
    if more_active(a, b) && more_active(b, c) && a.edits == c.edits {
        lemma_lex_transitive(a.path@, b.path@, c.path@);
    }
    if a.path@ != b.path@ {
        lemma_lex_total(a.path@, b.path@);
    }
}

/// Whether activity `a` comes before `b`.
fn activity_before(a: &FileActivity, b: &FileActivity) -> (r: bool)
    ensures
        r == more_active(*a, *b),
{
    if a.edits != b.edits {
        a.edits > b.edits
    } else {
        str_lt(a.path.as_str(), b.path.as_str())
    }
}

/// Per-file activity of the snapshots in the window `session_start..=session_end`:
/// one entry per file, with its number of snapshots, its latest instant and
/// its lines added and removed; most edited first, ties by path.
pub fn compute_file_edits(snapshots: &[Snapshot], session_start: i64, session_end: i64) -> (r: Vec<
    FileActivity,
>)
    requires
        total_lines(snapshots@) <= u64::MAX,
    ensures
        is_file_activity(snapshots@, session_start as int, session_end as int, r@),
        forall|k: int|
            0 <= k < snapshots@.len() && session_start <= #[trigger] snapshots@[k].timestamp
                && snapshots@[k].timestamp <= session_end ==> exists|i: int|
                0 <= i < r@.len() && r@[i].path@ == snapshots@[k].file_path@,
        forall|i: int|
            0 <= i < r@.len() ==> (#[trigger] r@[i]).edits == snapshots@.filter(
                of_file_within(r@[i].path@, session_start as int, session_end as int),
            ).len(),
{
    let ghost s = snapshots@;
    let ghost start = session_start as int;
    let ghost end = session_end as int;
    let mut paths: Vec<String> = Vec::new();
    proof {
        assert(views(paths@).to_set() =~= Set::<Seq<char>>::empty());
    }
    let mut k: usize = 0;
    while k < snapshots.len()
        invariant
            s == snapshots@,
            start == session_start as int,
            end == session_end as int,
            k <= s.len(),
            strictly_ascending(views(paths@)),
            forall|i: int| 0 <= i < views(paths@).len() ==> edits_of(s, #[trigger] views(paths@)[i], start, end) > 0,
            forall|j: int|
                0 <= j < k && in_window(s[j], start, end) ==> views(paths@).to_set().contains(
                    #[trigger] s[j].file_path@,
                ),
        decreases s.len() - k,
    {
        let x = &snapshots[k];
        if session_start <= x.timestamp && x.timestamp <= session_end {
            let ghost before = views(paths@);
            insert_sorted(&mut paths, x.file_path.clone());
            proof {
                assert(s[k as int].file_path@ == x.file_path@ && in_window(s[k as int], start, end));
                lemma_edits_positive(s, x.file_path@, start, end);
                assert forall|i: int| 0 <= i < views(paths@).len() implies edits_of(s, #[trigger] views(paths@)[i], start, end) > 0 by {
                    let q = views(paths@)[i];
                    assert(views(paths@).to_set().contains(q));
                    if q != x.file_path@ {
                        assert(before.to_set().contains(q));
                        let m = choose|m: int| 0 <= m < before.len() && before[m] == q;
                        assert(edits_of(s, before[m], start, end) > 0);
                    }
                }
            }
        }
        k = k + 1;
    }
    let ghost pv = views(paths@);
    let mut out: Vec<FileActivity> = Vec::new();
    proof {
        reveal(drawn_paths);
        reveal(covers_paths);
    }
    let mut i: usize = 0;
    while i < paths.len()
        invariant
            s == snapshots@,
            start == session_start as int,
            end == session_end as int,
            pv == views(paths@),
            total_lines(s) <= u64::MAX,
            i <= pv.len(),
            strictly_ascending(pv),
            forall|m: int| 0 <= m < pv.len() ==> edits_of(s, #[trigger] pv[m], start, end) > 0,
            out@.len() == i,
            all_report(s, start, end, out@),
            drawn_paths(out@, pv, i as int),
            covers_paths(out@, pv, i as int),
            activity_ordered(out@),
        decreases pv.len() - i,
    {
        let a = file_stats(snapshots, &paths[i], session_start, session_end);
        proof {
            assert(pv[i as int] == paths@[i as int]@);
        }
        let ghost old_out = out@;
        proof {
            lemma_drawn_distinct(old_out, pv, i as int);
        }
        let mut j: usize = 0;
        while j < out.len() && activity_before(&out[j], &a)
            invariant
                out@ == old_out,
                j <= out@.len(),
                forall|m: int| 0 <= m < j ==> more_active(#[trigger] out@[m], a),
            decreases out@.len() - j,
        {
            j = j + 1;
        }
        proof {
            if j < old_out.len() {
                lemma_more_active_order(old_out[j as int], a, old_out[j as int]);
            }
            assert forall|m: int| j <= m < old_out.len() implies more_active(a, #[trigger] old_out[m]) by {
                if m > j {
                    lemma_more_active_order(a, old_out[j as int], old_out[m]);
                }
            }
        }
        out.insert(j, a);
        proof {
            assert(out@ =~= old_out.insert(j as int, a));
            lemma_activity_insert(s, start, end, old_out, a, j as int, pv, i as int);
        }
        i = i + 1;
    }
    proof {
        reveal(covers_paths);
        assert forall|k: int|
            0 <= k < s.len() && in_window(s[k], start, end) implies exists|m: int|
                0 <= m < out@.len() && (#[trigger] out@[m]).path@ == s[k].file_path@ by {
            assert(pv.to_set().contains(s[k].file_path@));
            let jj = choose|jj: int| 0 <= jj < pv.len() && pv[jj] == s[k].file_path@;
            let m = choose|m: int| 0 <= m < out@.len() && out@[m].path@ == pv[jj];
        }
        lemma_file_activity_window(s, start, end, out@);
    }
    out
}

/// Every activity reports its file and that file has edits in the window.
pub open spec fn all_report(s: Seq<Snapshot>, start: int, end: int, out: Seq<FileActivity>) -> bool {
    forall|m: int|
        0 <= m < out.len() ==> reports_activity(s, start, end, #[trigger] out[m]) && edits_of(
            s,
            out[m].path@,
            start,
            end,
        ) > 0
}

/// Every activity is for one of the first `n` paths.
#[verifier::opaque]
pub open spec fn drawn_paths(out: Seq<FileActivity>, pv: Seq<Seq<char>>, n: int) -> bool {
    forall|m: int| 0 <= m < out.len() ==> exists|jj: int| 0 <= jj < n && (#[trigger] out[m]).path@ == pv[jj]
}

/// Each of the first `n` paths has an activity.
#[verifier::opaque]
pub open spec fn covers_paths(out: Seq<FileActivity>, pv: Seq<Seq<char>>, n: int) -> bool {
    forall|jj: int| 0 <= jj < n ==> exists|m: int| 0 <= m < out.len() && out[m].path@ == #[trigger] pv[jj]
}

/// Activities in strict order.
pub open spec fn activity_ordered(out: Seq<FileActivity>) -> bool {
    forall|x: int, y: int| 0 <= x < y < out.len() ==> more_active(out[x], out[y])
}

/// Activities drawn from earlier paths differ in path from path `i`.
proof fn lemma_drawn_distinct(out: Seq<FileActivity>, pv: Seq<Seq<char>>, i: int)
    requires
        drawn_paths(out, pv, i),
        strictly_ascending(pv),
        0 <= i < pv.len(),
    ensures
        forall|m: int| 0 <= m < out.len() ==> (#[trigger] out[m]).path@ != pv[i],
{
    reveal(drawn_paths);
    assert forall|m: int| 0 <= m < out.len() implies (#[trigger] out[m]).path@ != pv[i] by {
        let jj = choose|jj: int| 0 <= jj < i && out[m].path@ == pv[jj];
        assert(lex_lt(pv[jj], pv[i]));
        lemma_lex_irreflexive(pv[i]);
    }
}

/// Inserting the activity of path `i` at its place keeps the invariants.
proof fn lemma_activity_insert(
    s: Seq<Snapshot>,
    start: int,
    end: int,
    old: Seq<FileActivity>,
    a: FileActivity,
    j: int,
    pv: Seq<Seq<char>>,
    i: int,
)
    requires
        0 <= j <= old.len(),
        0 <= i < pv.len(),
        a.path@ == pv[i],
        reports_activity(s, start, end, a),
        edits_of(s, pv[i], start, end) > 0,
        all_report(s, start, end, old),
        drawn_paths(old, pv, i),
        covers_paths(old, pv, i),
        activity_ordered(old),
        forall|m: int| 0 <= m < j ==> more_active(#[trigger] old[m], a),
        forall|m: int| j <= m < old.len() ==> more_active(a, #[trigger] old[m]),
    ensures
        all_report(s, start, end, old.insert(j, a)),
        drawn_paths(old.insert(j, a), pv, i + 1),
        covers_paths(old.insert(j, a), pv, i + 1),
        activity_ordered(old.insert(j, a)),
{
    lemma_insert_ordered(old, a, j);
    lemma_insert_drawn(old, a, j, pv, i);
    lemma_insert_covers(old, a, j, pv, i);
    let nw = old.insert(j, a);
    assert forall|m: int| 0 <= m < nw.len() implies reports_activity(s, start, end, #[trigger] nw[m]) && edits_of(s, nw[m].path@, start, end) > 0 by {
        if m < j {
            assert(nw[m] == old[m]);
        } else if m > j {
            assert(nw[m] == old[m - 1]);
        }
    }
}

/// Inserting at the place of `a` keeps the activities in order.
proof fn lemma_insert_ordered(old: Seq<FileActivity>, a: FileActivity, j: int)
    requires
        0 <= j <= old.len(),
        activity_ordered(old),
        forall|m: int| 0 <= m < j ==> more_active(#[trigger] old[m], a),
        forall|m: int| j <= m < old.len() ==> more_active(a, #[trigger] old[m]),
    ensures
        activity_ordered(old.insert(j, a)),
{
    let nw = old.insert(j, a);
    assert forall|x: int, y: int| 0 <= x < y < nw.len() implies more_active(nw[x], nw[y]) by {
        if y < j {
            assert(nw[x] == old[x] && nw[y] == old[y]);
        } else if y == j {
            assert(nw[x] == old[x]);
        } else if x < j {
            assert(nw[x] == old[x] && nw[y] == old[y - 1]);
            lemma_more_active_order(nw[x], a, nw[y]);
        } else if x == j {
            assert(nw[y] == old[y - 1]);
        } else {
            assert(nw[x] == old[x - 1] && nw[y] == old[y - 1]);
        }
    }
}

/// After inserting path `i`'s activity, every activity is for one of the
/// first `i + 1` paths.
proof fn lemma_insert_drawn(old: Seq<FileActivity>, a: FileActivity, j: int, pv: Seq<Seq<char>>, i: int)
    requires
        0 <= j <= old.len(),
        0 <= i < pv.len(),
        a.path@ == pv[i],
        drawn_paths(old, pv, i),
    ensures
        drawn_paths(old.insert(j, a), pv, i + 1),
{
    reveal(drawn_paths);
    let nw = old.insert(j, a);
    assert forall|m: int| 0 <= m < nw.len() implies exists|jj: int| 0 <= jj < i + 1 && (#[trigger] nw[m]).path@ == pv[jj] by {
        if m < j {
            assert(nw[m] == old[m]);
            let jj = choose|jj: int| 0 <= jj < i && old[m].path@ == pv[jj];
        } else if m > j {
            assert(nw[m] == old[m - 1]);
            let jj = choose|jj: int| 0 <= jj < i && old[m - 1].path@ == pv[jj];
        } else {
            assert(nw[m].path@ == pv[i]);
        }
    }
}

/// After inserting path `i`'s activity, each of the first `i + 1` paths has
/// an activity.
proof fn lemma_insert_covers(old: Seq<FileActivity>, a: FileActivity, j: int, pv: Seq<Seq<char>>, i: int)
    requires
        0 <= j <= old.len(),
        0 <= i < pv.len(),
        a.path@ == pv[i],
        covers_paths(old, pv, i),
    ensures
        covers_paths(old.insert(j, a), pv, i + 1),
{
    reveal(covers_paths);
    let nw = old.insert(j, a);
    assert forall|jj: int| 0 <= jj < i + 1 implies exists|m: int| 0 <= m < nw.len() && nw[m].path@ == #[trigger] pv[jj] by {
        if jj < i {
            let m = choose|m: int| 0 <= m < old.len() && old[m].path@ == pv[jj];
            if m < j {
                assert(nw[m] == old[m]);
            } else {
                assert(nw[m + 1] == old[m]);
            }
        } else {
            assert(nw[j] == a);
        }
    }
}

// ---------------------------------------------------------------------------
// Sessions, windows and latest activity
// ---------------------------------------------------------------------------

/// The recap of a session with its per-file activity.
pub fn build_session_recap(session: &Session, file_edits: Vec<FileActivity>) -> (r: SessionRecap)
    ensures
        r.number == session.number,
        r.start@ == rfc3339_text(session.start as int),
        r.end@ == rfc3339_text(session.end as int),
        r.duration_seconds == seconds_between(session.start as int, session.end as int),
        r.edit_count == session.edit_count,
        r.file_count == file_edits@.len(),
        r.files@ == file_edits@,
{
    let file_count = file_edits.len();
    SessionRecap {
        number: session.number,
        start: rfc3339_of(session.start),
        end: rfc3339_of(session.end),
        duration_seconds: seconds_diff(session.start, session.end),
        edit_count: session.edit_count,
        file_count,
        files: file_edits,
    }
}

/// Nanoseconds in five minutes.
pub const FIVE_MINUTES_NANOS: i64 = 300_000_000_000;

/// Nanoseconds in a day.
pub const DAY_NANOS: i64 = 86_400_000_000_000;

/// The default start of a recap window: five minutes before the most recent
/// session started, or a day before `now` when there is no session.
pub fn infer_since_time(sessions: &[Session], now: i64) -> (r: i64)
    requires
        sessions@.len() > 0 ==> sessions@.last().start >= i64::MIN + FIVE_MINUTES_NANOS,
        sessions@.len() == 0 ==> now >= i64::MIN + DAY_NANOS,
    ensures
        sessions@.len() > 0 ==> r == sessions@.last().start - FIVE_MINUTES_NANOS,
        sessions@.len() == 0 ==> r == now - DAY_NANOS,
{
    if sessions.len() > 0 {
        sessions[sessions.len() - 1].start - FIVE_MINUTES_NANOS
    } else {
        now - DAY_NANOS
    }
}

/// Whole minutes since the last edit at `ts`, as seen at `now`; zero when
/// the edit is in the future.
pub open spec fn minutes_since(ts: int, now: int) -> int {
    let secs = seconds_between(ts, now);
    if secs < 0 {
        0
    } else {
        secs / 60
    }
}

/// The latest activity: the last snapshot of a history, as seen at `now`.
pub fn latest_activity(snapshots: &[Snapshot], now: i64) -> (r: Option<LatestActivity>)
    ensures
        snapshots@.len() == 0 ==> r is None,
        snapshots@.len() > 0 ==> (r matches Some(a) && a.last_edit@ == rfc3339_text(
            snapshots@.last().timestamp as int,
        ) && a.last_file@ == snapshots@.last().file_path@ && a.minutes_ago == minutes_since(
            snapshots@.last().timestamp as int,
            now as int,
        )),
{
    if snapshots.len() == 0 {
        return None;
    }
    let snap = &snapshots[snapshots.len() - 1];
    let secs = seconds_diff(snap.timestamp, now);
    let minutes: u64 = if secs < 0 {
        0
    } else {
        (secs as u64) / 60
    };
    Some(
        LatestActivity {
            last_edit: rfc3339_of(snap.timestamp),
            last_file: snap.file_path.clone(),
            minutes_ago: minutes,
        },
    )
}

/// Assembles the recap of a project.
pub fn build_recap_output(
    project: &str,
    sessions: Vec<SessionRecap>,
    git_info: Option<GitInfo>,
    latest_activity: Option<LatestActivity>,
) -> (r: RecapOutput)
    ensures
        r.project@ == project@,
        r.sessions@ == sessions@,
        r.git == git_info,
        r.latest_activity == latest_activity,
{
    RecapOutput { project: String::from_str(project), sessions, git: git_info, latest_activity }
}

// ---------------------------------------------------------------------------
// The recap as text
// ---------------------------------------------------------------------------

/// `  ... and N more files`, with its newline.
pub open spec fn more_files_line(n: nat) -> Seq<char> {
    "  ... and "@ + decimal(n) + " more files\n"@
}

/// The heading of a session: number, local start and end, minutes, edits
/// and files (without newline).
pub open spec fn session_heading(s: SessionRecap, start: Seq<char>, end: Seq<char>) -> Seq<char> {
    "Session "@ + decimal(s.number as nat) + "  "@ + start + " - "@ + end + "  ("@
        + decimal_signed(div_trunc(s.duration_seconds as int, 60)) + "m, "@ + decimal(
        s.edit_count as nat,
    ) + " edits, "@ + decimal(s.file_count as nat) + " files)"@
}

/// A file line of a session; with its line counts in the project recap.
pub open spec fn file_line(f: FileActivity, with_lines: bool) -> Seq<char> {
    "  "@ + f.path@ + "     "@ + decimal(f.edits as nat) + " edits"@ + (if with_lines {
        "  (+"@ + decimal(f.lines_added as nat) + " -"@ + decimal(f.lines_removed as nat) + ")"@
    } else {
        Seq::empty()
    }) + "\n"@
}

/// The file lines of the first `k` files.
pub open spec fn file_lines_upto(files: Seq<FileActivity>, k: int, with_lines: bool) -> Seq<char>
    decreases k,
{
    if k <= 0 {
        Seq::empty()
    } else {
        file_lines_upto(files, k - 1, with_lines) + file_line(files[k - 1], with_lines)
    }
}

/// The file lines of a session: the five most edited files, then how many
/// more there are.
pub open spec fn file_lines(files: Seq<FileActivity>, with_lines: bool) -> Seq<char> {
    if files.len() > 5 {
        file_lines_upto(files, 5, with_lines) + more_files_line((files.len() - 5) as nat)
    } else {
        file_lines_upto(files, files.len() as int, with_lines)
    }
}

/// A session in the project recap: heading (marked when it is the latest
/// of several), file lines and a blank line.
pub open spec fn project_session_block(s: SessionRecap, t: (Seq<char>, Seq<char>), latest: bool) -> Seq<char> {
    session_heading(s, t.0, t.1) + (if latest {
        " <-- latest"@
    } else {
        Seq::empty()
    }) + "\n"@ + file_lines(s.files@, true) + "\n"@
}

/// The sessions of the project recap, up to the `k`th.
pub open spec fn project_sessions_upto(ss: Seq<SessionRecap>, times: Seq<(Seq<char>, Seq<char>)>, k: int) -> Seq<char>
    decreases k,
{
    if k <= 0 {
        Seq::empty()
    } else {
        project_sessions_upto(ss, times, k - 1) + project_session_block(
            ss[k - 1],
            times[k - 1],
            k - 1 == ss.len() - 1 && ss.len() > 1,
        )
    }
}

/// The uncommitted files listed by the project recap, up to the `k`th.
pub open spec fn uncommitted_upto(files: Seq<String>, k: int) -> Seq<char>
    decreases k,
{
    if k <= 0 {
        Seq::empty()
    } else {
        uncommitted_upto(files, k - 1) + "  "@ + files[k - 1]@ + "\n"@
    }
}

/// The git part of the project recap: branch and number of uncommitted
/// files, the first ten of them, how many more, and a blank line.
pub open spec fn project_git_block(g: GitInfo) -> Seq<char> {
    let n = g.uncommitted_files@.len();
    let listed = if n > 10 {
        uncommitted_upto(g.uncommitted_files@, 10) + more_files_line((n - 10) as nat)
    } else {
        uncommitted_upto(g.uncommitted_files@, n as int)
    };
    "git: "@ + g.branch@ + "  "@ + decimal(n) + " uncommitted files"@ + "\n"@ + listed + "\n"@
}

/// The latest-edit line.
pub open spec fn latest_line(a: LatestActivity) -> Seq<char> {
    "Last edit: "@ + a.last_file@ + "  "@ + decimal(a.minutes_ago as nat) + " minutes ago\n"@
}

/// The project recap as text, given the local start and end times of each
/// session.
pub open spec fn recap_text(r: RecapOutput, times: Seq<(Seq<char>, Seq<char>)>) -> Seq<char> {
    "-- "@ + r.project@ + " --\n\n"@ + (if r.sessions@.len() == 0 {
        "No recent sessions detected.\n\n"@
    } else {
        project_sessions_upto(r.sessions@, times, r.sessions@.len() as int)
    }) + (match r.git {
        Some(g) => project_git_block(g),
        None => Seq::empty(),
    }) + (match r.latest_activity {
        Some(a) => latest_line(a),
        None => Seq::empty(),
    })
}

/// Appends `s.push('\n')`-style text: a string followed by a newline.
fn push_line(out: &mut String, t: &str)
    ensures
        final(out)@ == old(out)@ + t@ + "\n"@,
{
    push_str(out, t);
    push_str(out, "\n");
}

/// Appends `  ... and N more files`.
fn push_more_files(out: &mut String, n: usize)
    ensures
        final(out)@ == old(out)@ + more_files_line(n as nat),
{
    push_str(out, "  ... and ");
    push_decimal(out, n as u64);
    push_str(out, " more files\n");
    assert(final(out)@ =~= old(out)@ + more_files_line(n as nat));
}

/// Appends the heading of a session.
fn push_session_heading(out: &mut String, s: &SessionRecap, start: &str, end: &str)
    ensures
        final(out)@ == old(out)@ + session_heading(*s, start@, end@),
{
    push_str(out, "Session ");
    push_decimal(out, s.number as u64);
    push_str(out, "  ");
    push_str(out, start);
    push_str(out, " - ");
    push_str(out, end);
    push_str(out, "  (");
    let minutes: i64 = if s.duration_seconds >= 0 {
        s.duration_seconds / 60
    } else {
        -((-(s.duration_seconds as i128)) / 60) as i64
    };
    push_signed(out, minutes);
    push_str(out, "m, ");
    push_decimal(out, s.edit_count as u64);
    push_str(out, " edits, ");
    push_decimal(out, s.file_count as u64);
    push_str(out, " files)");
    assert(final(out)@ =~= old(out)@ + session_heading(*s, start@, end@));
}

/// Appends the file lines of a session.
fn push_file_lines(out: &mut String, files: &Vec<FileActivity>, with_lines: bool)
    ensures
        final(out)@ == old(out)@ + file_lines(files@, with_lines),
{
    let ghost start = out@;
    let n = files.len();
    let shown: usize = if n > 5 {
        5
    } else {
        n
    };
    let mut k: usize = 0;
    while k < shown
        invariant
            k <= shown <= files@.len(),
            out@ == start + file_lines_upto(files@, k as int, with_lines),
        decreases shown - k,
    {
        let f = &files[k];
        let ghost before = out@;
        push_str(out, "  ");
        push_str(out, f.path.as_str());
        push_str(out, "     ");
        push_decimal(out, f.edits);
        push_str(out, " edits");
        if with_lines {
            push_str(out, "  (+");
            push_decimal(out, f.lines_added);
            push_str(out, " -");
            push_decimal(out, f.lines_removed);
            push_str(out, ")");
        }
        push_str(out, "\n");
        assert(out@ =~= before + file_line(files@[k as int], with_lines));
        k = k + 1;
    }
    if n > 5 {
        push_more_files(out, n - 5);
    }
    assert(out@ =~= start + file_lines(files@, with_lines));
}

/// Appends the git part of the project recap.
fn push_git_block(out: &mut String, g: &GitInfo)
    ensures
        final(out)@ == old(out)@ + project_git_block(*g),
{
    let ghost start = out@;
    let n = g.uncommitted_files.len();
    push_str(out, "git: ");
    push_str(out, g.branch.as_str());
    push_str(out, "  ");
    push_decimal(out, n as u64);
    push_str(out, " uncommitted files");
    push_str(out, "\n");
    let ghost head = out@;
    let shown: usize = if n > 10 {
        10
    } else {
        n
    };
    let mut k: usize = 0;
    while k < shown
        invariant
            k <= shown <= g.uncommitted_files@.len(),
            out@ == head + uncommitted_upto(g.uncommitted_files@, k as int),
        decreases shown - k,
    {
        let ghost before = out@;
        push_str(out, "  ");
        push_line(out, g.uncommitted_files[k].as_str());
        assert(out@ =~= before + "  "@ + g.uncommitted_files@[k as int]@ + "\n"@);
        k = k + 1;
    }
    if n > 10 {
        push_more_files(out, n - 10);
    }
    push_str(out, "\n");
    assert(out@ =~= start + project_git_block(*g));
}

/// Appends the latest-edit line.
fn push_latest(out: &mut String, a: &LatestActivity)
    ensures
        final(out)@ == old(out)@ + latest_line(*a),
{
    push_str(out, "Last edit: ");
    push_str(out, a.last_file.as_str());
    push_str(out, "  ");
    push_decimal(out, a.minutes_ago);
    push_str(out, " minutes ago\n");
    assert(final(out)@ =~= old(out)@ + latest_line(*a));
}

/// Appends a session of the project recap.
fn push_project_session(out: &mut String, s: &SessionRecap, start: &str, end: &str, latest: bool)
    ensures
        final(out)@ == old(out)@ + project_session_block(*s, (start@, end@), latest),
{
    let ghost before = out@;
    push_session_heading(out, s, start, end);
    if latest {
        push_str(out, " <-- latest");
    }
    push_str(out, "\n");
    push_file_lines(out, &s.files, true);
    push_str(out, "\n");
    assert(out@ =~= before + project_session_block(*s, (start@, end@), latest));
}

/// The local start and end texts of the sessions.
pub open spec fn time_views(times: Seq<(String, String)>) -> Seq<(Seq<char>, Seq<char>)> {
    Seq::new(times.len(), |i: int| (times[i].0@, times[i].1@))
}

/// The project recap as text, given the local start and end times of each
/// session (see `recap_text`).
pub fn recap_text_at(recap: &RecapOutput, times: &Vec<(String, String)>) -> (r: String)
    requires
        times@.len() == recap.sessions@.len(),
    ensures
        r@ == recap_text(*recap, time_views(times@)),
{
    let ghost tv = time_views(times@);
    let mut r = String::from_str("-- ");
    push_str(&mut r, recap.project.as_str());
    push_str(&mut r, " --\n\n");
    let n = recap.sessions.len();
    if n == 0 {
        push_str(&mut r, "No recent sessions detected.\n\n");
    } else {
        let ghost head = r@;
        let mut k: usize = 0;
        while k < n
            invariant
                n == recap.sessions@.len(),
                times@.len() == n,
                tv == time_views(times@),
                k <= n,
                r@ == head + project_sessions_upto(recap.sessions@, tv, k as int),
            decreases n - k,
        {
            let ghost before = r@;
            push_project_session(&mut r, &recap.sessions[k], times[k].0.as_str(), times[k].1.as_str(), k == n - 1 && n > 1);
            assert(tv[k as int] == (times@[k as int].0@, times@[k as int].1@));
            assert(r@ =~= before + project_session_block(recap.sessions@[k as int], tv[k as int], k == n - 1 && n > 1));
            k = k + 1;
        }
    }
    let ghost mid = r@;
    match &recap.git {
        Some(g) => push_git_block(&mut r, g),
        None => {},
    }
    match &recap.latest_activity {
        Some(a) => push_latest(&mut r, a),
        None => {},
    }
    assert(r@ =~= recap_text(*recap, tv));
    r
}

/// `shown` is how a session time `text` (RFC 3339) is shown: its local
/// `HH:MM` when it parses to an instant that fits an `i64` count of
/// nanoseconds, else `??:??`.
pub open spec fn shows_local_hm(shown: Seq<char>, text: Seq<char>) -> bool {
    match utc_parse(text) {
        Some(m) => if i64::MIN <= m <= i64::MAX {
            is_local_text(shown, m, "%H:%M"@)
        } else {
            shown == "??:??"@
        },
        None => shown == "??:??"@,
    }
}

/// `times` holds, for each session, how its start and end are shown.
pub open spec fn shows_session_times(ss: Seq<SessionRecap>, times: Seq<(Seq<char>, Seq<char>)>) -> bool {
    &&& times.len() == ss.len()
    &&& forall|i: int|
        0 <= i < ss.len() ==> shows_local_hm(#[trigger] times[i].0, ss[i].start@) && shows_local_hm(
            times[i].1,
            ss[i].end@,
        )
}

/// The local `HH:MM` of an RFC 3339 text, or `??:??` when it does not parse
/// to an instant that fits an `i64` count of nanoseconds.
fn local_hm(text: &String) -> (r: String)
    ensures
        shows_local_hm(r@, text@),
{
    match parse_utc(text.as_str()) {
        Some(ns) => local_time_text(ns, "%H:%M"),
        None => String::from_str("??:??"),
    }
}

/// The local start and end texts of each session of a recap.
fn session_times(sessions: &Vec<SessionRecap>) -> (r: Vec<(String, String)>)
    ensures
        r@.len() == sessions@.len(),
        shows_session_times(sessions@, time_views(r@)),
{
    let mut r: Vec<(String, String)> = Vec::new();
    let mut k: usize = 0;
    while k < sessions.len()
        invariant
            k <= sessions@.len(),
            r@.len() == k,
            forall|i: int|
                0 <= i < k ==> shows_local_hm(#[trigger] r@[i].0@, sessions@[i].start@)
                    && shows_local_hm(r@[i].1@, sessions@[i].end@),
        decreases sessions@.len() - k,
    {
        let s = &sessions[k];
        let a = local_hm(&s.start);
        let b = local_hm(&s.end);
        let ghost before = r@;
        r.push((a, b));
        proof {
            assert forall|i: int| 0 <= i < k + 1 implies shows_local_hm(
                #[trigger] r@[i].0@,
                sessions@[i].start@,
            ) && shows_local_hm(r@[i].1@, sessions@[i].end@) by {
                if i < k {
                    assert(r@[i] == before[i]);
                }
            }
        }
        k = k + 1;
    }
    proof {
        let tv = time_views(r@);
        assert forall|i: int| 0 <= i < sessions@.len() implies shows_local_hm(
            #[trigger] tv[i].0,
            sessions@[i].start@,
        ) && shows_local_hm(tv[i].1, sessions@[i].end@) by {
            assert(tv[i] == (r@[i].0@, r@[i].1@));
        }
    }
    r
}

/// The project recap as the recap command prints it, session times shown
/// as local `HH:MM`.
pub fn output_recap_human(recap: &RecapOutput) -> (r: String)
    ensures
        exists|times: Seq<(Seq<char>, Seq<char>)>|
            shows_session_times(recap.sessions@, times) && r@ == recap_text(*recap, times),
{
    let times = session_times(&recap.sessions);
    let r = recap_text_at(recap, &times);
    assert(shows_session_times(recap.sessions@, time_views(times@)) && r@ == recap_text(
        *recap,
        time_views(times@),
    ));
    r
}

// The cross-project recap.

/// A session in the cross-project recap: heading and file lines.
pub open spec fn global_session_block(s: SessionRecap, t: (Seq<char>, Seq<char>)) -> Seq<char> {
    session_heading(s, t.0, t.1) + "\n"@ + file_lines(s.files@, false)
}

/// The sessions of a project in the cross-project recap, up to the `k`th.
pub open spec fn global_sessions_upto(ss: Seq<SessionRecap>, times: Seq<(Seq<char>, Seq<char>)>, k: int) -> Seq<char>
    decreases k,
{
    if k <= 0 {
        Seq::empty()
    } else {
        global_sessions_upto(ss, times, k - 1) + global_session_block(ss[k - 1], times[k - 1])
    }
}

/// A project in the cross-project recap, given its sessions' local times.
pub open spec fn global_project_block(p: RecapOutput, times: Seq<(Seq<char>, Seq<char>)>) -> Seq<char> {
    "=== "@ + p.project@ + " ===\n\n"@ + (if p.sessions@.len() == 0 {
        "No recent sessions detected.\n\n"@
    } else {
        global_sessions_upto(p.sessions@, times, p.sessions@.len() as int) + "\n"@
    }) + (match p.git {
        Some(g) => "git: "@ + g.branch@ + "  "@ + decimal(g.uncommitted_files@.len()) + " uncommitted files\n\n"@,
        None => Seq::empty(),
    }) + (match p.latest_activity {
        Some(a) => latest_line(a) + "\n"@,
        None => Seq::empty(),
    })
}

/// The projects of the cross-project recap, up to the `k`th.
pub open spec fn global_projects_upto(ps: Seq<RecapOutput>, times: Seq<Seq<(Seq<char>, Seq<char>)>>, k: int) -> Seq<char>
    decreases k,
{
    if k <= 0 {
        Seq::empty()
    } else {
        global_projects_upto(ps, times, k - 1) + global_project_block(ps[k - 1], times[k - 1])
    }
}

/// The cross-project recap as text, given the local times of each
/// project's sessions; it closes with the totals.
pub open spec fn global_recap_text(g: GlobalRecapOutput, times: Seq<Seq<(Seq<char>, Seq<char>)>>) -> Seq<char> {
    global_projects_upto(g.projects@, times, g.projects@.len() as int) + "-- "@ + decimal(
        g.projects@.len(),
    ) + " projects, "@ + decimal(g.total_sessions as nat) + " sessions, "@ + decimal(
        g.total_edits as nat,
    ) + " edits --\n"@
}

/// The sessions part of a project in the cross-project recap.
pub open spec fn global_sessions_part(p: RecapOutput, times: Seq<(Seq<char>, Seq<char>)>) -> Seq<char> {
    if p.sessions@.len() == 0 {
        "No recent sessions detected.\n\n"@
    } else {
        global_sessions_upto(p.sessions@, times, p.sessions@.len() as int) + "\n"@
    }
}

/// The git and latest-edit part of a project in the cross-project recap.
pub open spec fn global_tail_part(p: RecapOutput) -> Seq<char> {
    (match p.git {
        Some(g) => "git: "@ + g.branch@ + "  "@ + decimal(g.uncommitted_files@.len()) + " uncommitted files\n\n"@,
        None => Seq::empty(),
    }) + (match p.latest_activity {
        Some(a) => latest_line(a) + "\n"@,
        None => Seq::empty(),
    })
}

/// Appends the sessions part of a project in the cross-project recap.
fn push_global_sessions(out: &mut String, p: &RecapOutput, times: &Vec<(String, String)>)
    requires
        times@.len() == p.sessions@.len(),
    ensures
        final(out)@ == old(out)@ + global_sessions_part(*p, time_views(times@)),
{
    let ghost tv = time_views(times@);
    let n = p.sessions.len();
    if n == 0 {
        push_str(out, "No recent sessions detected.\n\n");
    } else {
        let ghost head = out@;
        let mut k: usize = 0;
        while k < n
            invariant
                n == p.sessions@.len(),
                times@.len() == n,
                tv == time_views(times@),
                k <= n,
                out@ == head + global_sessions_upto(p.sessions@, tv, k as int),
            decreases n - k,
        {
            let s = &p.sessions[k];
            let ghost before = out@;
            push_session_heading(out, s, times[k].0.as_str(), times[k].1.as_str());
            push_str(out, "\n");
            push_file_lines(out, &s.files, false);
            assert(tv[k as int] == (times@[k as int].0@, times@[k as int].1@));
            assert(out@ =~= before + global_session_block(p.sessions@[k as int], tv[k as int]));
            k = k + 1;
        }
        push_str(out, "\n");
    }
}

/// Appends the git and latest-edit part of a project in the cross-project recap.
fn push_global_tail(out: &mut String, p: &RecapOutput)
    ensures
        final(out)@ == old(out)@ + global_tail_part(*p),
{
    let ghost start = out@;
    match &p.git {
        Some(g) => {
            push_str(out, "git: ");
            push_str(out, g.branch.as_str());
            push_str(out, "  ");
            push_decimal(out, g.uncommitted_files.len() as u64);
            push_str(out, " uncommitted files\n\n");
        },
        None => {},
    }
    let ghost mid = out@;
    match &p.latest_activity {
        Some(a) => {
            push_latest(out, a);
            push_str(out, "\n");
        },
        None => {},
    }
    assert(out@ =~= start + global_tail_part(*p));
}

/// Appends one project of the cross-project recap.
fn push_global_project(out: &mut String, p: &RecapOutput, times: &Vec<(String, String)>)
    requires
        times@.len() == p.sessions@.len(),
    ensures
        final(out)@ == old(out)@ + global_project_block(*p, time_views(times@)),
{
    let ghost start = out@;
    push_str(out, "=== ");
    push_str(out, p.project.as_str());
    push_str(out, " ===\n\n");
    push_global_sessions(out, p, times);
    push_global_tail(out, p);
    assert(out@ =~= start + global_project_block(*p, time_views(times@)));
}

/// The local times of each project's sessions.
pub open spec fn nested_time_views(times: Seq<Vec<(String, String)>>) -> Seq<Seq<(Seq<char>, Seq<char>)>> {
    Seq::new(times.len(), |i: int| time_views(times[i]@))
}

/// The cross-project recap as text, given the local times of each project's
/// sessions (see `global_recap_text`).
pub fn global_recap_text_at(recap: &GlobalRecapOutput, times: &Vec<Vec<(String, String)>>) -> (r: String)
    requires
        times@.len() == recap.projects@.len(),
        forall|i: int| 0 <= i < times@.len() ==> (#[trigger] times@[i])@.len() == recap.projects@[i].sessions@.len(),
    ensures
        r@ == global_recap_text(*recap, nested_time_views(times@)),
{
    let ghost tv = nested_time_views(times@);
    let mut r = String::new();
    let n = recap.projects.len();
    let mut k: usize = 0;
    while k < n
        invariant
            n == recap.projects@.len(),
            times@.len() == n,
            forall|i: int| 0 <= i < times@.len() ==> (#[trigger] times@[i])@.len() == recap.projects@[i].sessions@.len(),
            tv == nested_time_views(times@),
            k <= n,
            r@ == global_projects_upto(recap.projects@, tv, k as int),
        decreases n - k,
    {
        let ghost before = r@;
        push_global_project(&mut r, &recap.projects[k], &times[k]);
        assert(tv[k as int] == time_views(times@[k as int]@));
        assert(r@ =~= before + global_project_block(recap.projects@[k as int], tv[k as int]));
        k = k + 1;
    }
    push_str(&mut r, "-- ");
    push_decimal(&mut r, n as u64);
    push_str(&mut r, " projects, ");
    push_decimal(&mut r, recap.total_sessions as u64);
    push_str(&mut r, " sessions, ");
    push_decimal(&mut r, recap.total_edits as u64);
    push_str(&mut r, " edits --\n");
    assert(r@ =~= global_recap_text(*recap, tv));
    r
}

/// The cross-project recap as the recap command prints it, session times
/// shown as local `HH:MM`.
pub fn output_global_recap_human(recap: &GlobalRecapOutput) -> (r: String)
    ensures
        exists|times: Seq<Seq<(Seq<char>, Seq<char>)>>|
            times.len() == recap.projects@.len() && (forall|i: int|
                0 <= i < times.len() ==> shows_session_times(
                    recap.projects@[i].sessions@,
                    #[trigger] times[i],
                )) && r@ == global_recap_text(*recap, times),
{
    let mut times: Vec<Vec<(String, String)>> = Vec::new();
    let mut k: usize = 0;
    while k < recap.projects.len()
        invariant
            k <= recap.projects@.len(),
            times@.len() == k,
            forall|i: int| 0 <= i < k ==> (#[trigger] times@[i])@.len() == recap.projects@[i].sessions@.len(),
            forall|i: int|
                0 <= i < k ==> shows_session_times(
                    recap.projects@[i].sessions@,
                    time_views(#[trigger] times@[i]@),
                ),
        decreases recap.projects@.len() - k,
    {
        times.push(session_times(&recap.projects[k].sessions));
        k = k + 1;
    }
    let r = global_recap_text_at(recap, &times);
    proof {
        let tv = nested_time_views(times@);
        assert forall|i: int| 0 <= i < tv.len() implies shows_session_times(
            recap.projects@[i].sessions@,
            #[trigger] tv[i],
        ) by {
            assert(tv[i] == time_views(times@[i]@));
        }
        assert(tv.len() == recap.projects@.len() && r@ == global_recap_text(*recap, tv));
    }
    r
}

} // verus!
