//! `unf restore`: which files a restore to a point in time brings back,
//! and what the command shows, asks and reports.
//!
//! Of the files recorded now (or the one file asked for), those recorded at
//! the target time, and not as deleted, are restored; those with no record
//! at that time were created since and are left on disk; those recorded as
//! deleted are left alone.

use vstd::prelude::*;
use vstd::string::StrSliceExecFns;
use vstd::string::StringExecFns;
use crate::clock::{rfc3339_of, rfc3339_text};
use crate::command_scan::{trim_text, trimmed};
use crate::grouping::{sort_by_time, sort_snapshots_by_time};
use crate::output::{duration_text, format_duration_ago, plural_suffix, status_line, status_prefix};
use crate::session::{
    describes, detect_sessions, is_session_split, not_found_message, resolve_session,
    session_end_index, session_starts, span_threshold, Session,
};
use crate::text::{
    copy_strings, decimal, join, lemma_lex_asymmetric, lemma_lex_total, lemma_lex_transitive, lex_lt, pad_left, push_decimal, push_joined, push_padded_left,
    push_str, str_eq, str_lt, views,
};
use crate::types::{EventType, Snapshot, UnfError};

verus! {

/// Why a file with no record at the target time is left as it is.
pub const SKIP_REASON: &'static str = "created after target time, still on disk";

// ---------------------------------------------------------------------------
// What is restored
// ---------------------------------------------------------------------------

/// The record of path `p` in a state, searching from position `i`.
pub open spec fn entry_from(state: Seq<Snapshot>, p: Seq<char>, i: int) -> Option<Snapshot>
    decreases state.len() - i,
{
    if i < 0 || i >= state.len() {
        None
    } else if state[i].file_path@ == p {
        Some(state[i])
    } else {
        entry_from(state, p, i + 1)
    }
}

/// The record of path `p` in the state of the files at the target time.
pub open spec fn state_entry(state: Seq<Snapshot>, p: Seq<char>) -> Option<Snapshot> {
    entry_from(state, p, 0)
}

/// `p` existed at the target time and was not deleted then.
pub open spec fn restorable(state: Seq<Snapshot>, p: Seq<char>) -> bool {
    state_entry(state, p) matches Some(s) && s.event_type != EventType::Delete
}

/// The files of `files` that are restored, in their order.
pub open spec fn to_restore(state: Seq<Snapshot>, files: Seq<Seq<char>>) -> Seq<Seq<char>>
    decreases files.len(),
{
    if files.len() == 0 {
        Seq::empty()
    } else {
        let before = to_restore(state, files.drop_last());
        if restorable(state, files.last()) {
            before.push(files.last())
        } else {
            before
        }
    }
}

/// The files of `files` with no record at the target time, in their order.
pub open spec fn to_skip(state: Seq<Snapshot>, files: Seq<Seq<char>>) -> Seq<Seq<char>>
    decreases files.len(),
{
    if files.len() == 0 {
        Seq::empty()
    } else {
        let before = to_skip(state, files.drop_last());
        if state_entry(state, files.last()) is None {
            before.push(files.last())
        } else {
            before
        }
    }
}

/// `x` placed in the sorted `sorted` after every path not after it.
pub open spec fn insert_path(sorted: Seq<Seq<char>>, x: Seq<char>) -> Seq<Seq<char>>
    decreases sorted.len(),
{
    if sorted.len() == 0 {
        seq![x]
    } else if !lex_lt(x, sorted.last()) {
        sorted.push(x)
    } else {
        insert_path(sorted.drop_last(), x).push(sorted.last())
    }
}

/// `s` sorted in code-point order.
pub open spec fn sort_paths(s: Seq<Seq<char>>) -> Seq<Seq<char>>
    decreases s.len(),
{
    if s.len() == 0 {
        s
    } else {
        insert_path(sort_paths(s.drop_last()), s.last())
    }
}

/// The text of an optional string slice.
pub open spec fn opt_view(f: Option<&str>) -> Option<Seq<char>> {
    match f {
        Some(s) => Some(s@),
        None => None,
    }
}

/// The files a restore looks at: the one asked for, or every file recorded now.
pub open spec fn candidates(current: Seq<Seq<char>>, filter: Option<Seq<char>>) -> Seq<Seq<char>> {
    match filter {
        Some(f) => seq![f],
        None => current,
    }
}

/// The file asked for has no history.
pub open spec fn unknown_filter(current: Seq<Seq<char>>, filter: Option<Seq<char>>) -> bool {
    filter matches Some(f) && !current.contains(f)
}

/// The error text for a file with no history.
pub open spec fn no_history_message(f: Seq<char>) -> Seq<char> {
    "No history for \""@ + f + "\"."@
}

/// The files a restore brings back, sorted, and the files it leaves on
/// disk because they did not exist at the target time.
#[derive(Clone, Debug)]
pub struct RestorePlan {
    pub restored: Vec<String>,
    pub skipped: Vec<String>,
}

/// Position of the record of `p` in the state.
fn find_entry(state: &Vec<Snapshot>, p: &str) -> (r: Option<usize>)
    ensures
        match r {
            Some(i) => i < state@.len() && state_entry(state@, p@) == Some(state@[i as int]),
            None => state_entry(state@, p@) is None,
        },
{
    let mut i: usize = 0;
    while i < state.len()
        invariant
            i <= state@.len(),
            entry_from(state@, p@, 0) == entry_from(state@, p@, i as int),
        decreases state@.len() - i,
    {
        if str_eq(state[i].file_path.as_str(), p) {
            return Some(i);
        }
        i = i + 1;
    }
    None
}

/// Whether `p` is restored (see `restorable`).
fn is_restorable(state: &Vec<Snapshot>, p: &str) -> (r: bool)
    ensures
        r == restorable(state@, p@),
{
    match find_entry(state, p) {
        Some(i) => match state[i].event_type {
            EventType::Delete => false,
            _ => true,
        },
        None => false,
    }
}

/// Whether the current files hold `f`.
fn holds_file(current: &Vec<String>, f: &str) -> (r: bool)
    ensures
        r == views(current@).contains(f@),
{
    let mut i: usize = 0;
    while i < current.len()
        invariant
            i <= current@.len(),
            forall|k: int| 0 <= k < i ==> views(current@)[k] != f@,
        decreases current@.len() - i,
    {
        if str_eq(current[i].as_str(), f) {
            assert(views(current@)[i as int] == f@);
            return true;
        }
        i = i + 1;
    }
    false
}

/// Placing `x` at `j`, before the paths after it and after the others, is
/// `insert_path`.
proof fn lemma_insert_path_at(sorted: Seq<Seq<char>>, x: Seq<char>, j: int)
    requires
        0 <= j <= sorted.len(),
        forall|k: int| j <= k < sorted.len() ==> lex_lt(x, #[trigger] sorted[k]),
        j > 0 ==> !lex_lt(x, sorted[j - 1]),
    ensures
        insert_path(sorted, x) == sorted.insert(j, x),
    decreases sorted.len(),
{
    if sorted.len() == 0 {
        assert(sorted.insert(j, x) =~= seq![x]);
    } else if j == sorted.len() {
        assert(sorted.insert(j, x) =~= sorted.push(x));
    } else {
        let init = sorted.drop_last();
        assert(lex_lt(x, sorted[sorted.len() - 1]));
        lemma_insert_path_at(init, x, j);
        assert(sorted.insert(j, x) =~= init.insert(j, x).push(sorted.last()));
    }
}

/// Paths in code-point order, repeats allowed.
pub open spec fn paths_sorted(v: Seq<Seq<char>>) -> bool {
    forall|i: int, j: int| 0 <= i < j < v.len() ==> !lex_lt(#[trigger] v[j], #[trigger] v[i])
}

/// "Not before" is transitive.
proof fn lemma_not_before_transitive(a: Seq<char>, b: Seq<char>, c: Seq<char>)
    requires
        !lex_lt(b, a),
        !lex_lt(c, b),
    ensures
        !lex_lt(c, a),
{
    if lex_lt(c, a) && a != b {
        lemma_lex_total(a, b);
        lemma_lex_transitive(c, a, b);
    }
}

/// Inserting into a sorted sequence keeps it sorted and adds exactly `x`.
proof fn lemma_insert_path_sorted(sorted: Seq<Seq<char>>, x: Seq<char>)
    requires
        paths_sorted(sorted),
    ensures
        paths_sorted(insert_path(sorted, x)),
        insert_path(sorted, x).to_multiset() == sorted.to_multiset().insert(x),
    decreases sorted.len(),
{
    broadcast use vstd::seq_lib::group_to_multiset_ensures;

    if sorted.len() == 0 {
        assert(seq![x] =~= Seq::<Seq<char>>::empty().push(x));
    } else if !lex_lt(x, sorted.last()) {
        let r = sorted.push(x);
        assert forall|i: int, j: int| 0 <= i < j < r.len() implies !lex_lt(
            #[trigger] r[j],
            #[trigger] r[i],
        ) by {
            if j == sorted.len() && i < sorted.len() - 1 {
                lemma_not_before_transitive(r[i], sorted.last(), x);
            }
        }
    } else {
        let init = sorted.drop_last();
        let last = sorted.last();
        assert(paths_sorted(init));
        lemma_insert_path_sorted(init, x);
        let mid = insert_path(init, x);
        let r = mid.push(last);
        assert(sorted =~= init.push(last));
        assert forall|i: int, j: int| 0 <= i < j < r.len() implies !lex_lt(
            #[trigger] r[j],
            #[trigger] r[i],
        ) by {
            if j == mid.len() {
                let e = mid[i];
                assert(mid.to_multiset().count(e) > 0);
                if e == x {
                    lemma_lex_asymmetric(x, last);
                } else {
                    assert(init.to_multiset().count(e) > 0);
                    let k = choose|k: int| 0 <= k < init.len() && init[k] == e;
                    assert(sorted[k] == e);
                }
            }
        }
    }
}

/// Sorting paths orders them in code-point order and keeps every path as
/// often as it came.
pub proof fn lemma_sort_paths_sorted(s: Seq<Seq<char>>)
    ensures
        paths_sorted(sort_paths(s)),
        sort_paths(s).to_multiset() == s.to_multiset(),
    decreases s.len(),
{
    broadcast use vstd::seq_lib::group_to_multiset_ensures;

    if s.len() > 0 {
        lemma_sort_paths_sorted(s.drop_last());
        lemma_insert_path_sorted(sort_paths(s.drop_last()), s.last());
        assert(s =~= s.drop_last().push(s.last()));
    }
}

/// A restore brings back only files recorded at the target time and not as
/// deleted, leaves on disk only files with no record then, and never does
/// both to one file.
pub proof fn lemma_restore_and_skip_apart(state: Seq<Snapshot>, files: Seq<Seq<char>>)
    ensures
        forall|k: int|
            0 <= k < to_restore(state, files).len() ==> restorable(
                state,
                #[trigger] to_restore(state, files)[k],
            ),
        forall|k: int|
            0 <= k < to_skip(state, files).len() ==> state_entry(
                state,
                #[trigger] to_skip(state, files)[k],
            ) is None,
        forall|i: int, j: int|
            0 <= i < to_restore(state, files).len() && 0 <= j < to_skip(state, files).len()
                ==> #[trigger] to_restore(state, files)[i] != #[trigger] to_skip(state, files)[j],
    decreases files.len(),
{
    let r = to_restore(state, files);
    let sk = to_skip(state, files);
    if files.len() > 0 {
        let init = files.drop_last();
        lemma_restore_and_skip_apart(state, init);
        let a = to_restore(state, init);
        let b = to_skip(state, init);
        assert forall|k: int| 0 <= k < r.len() implies restorable(state, #[trigger] r[k]) by {
            if k < a.len() {
                assert(r[k] == a[k]);
            }
        }
        assert forall|k: int| 0 <= k < sk.len() implies state_entry(state, #[trigger] sk[k]) is None by {
            if k < b.len() {
                assert(sk[k] == b[k]);
            }
        }
    }
    assert forall|i: int, j: int| 0 <= i < r.len() && 0 <= j < sk.len() implies #[trigger] r[i]
        != #[trigger] sk[j] by {
        assert(restorable(state, r[i]));
        assert(state_entry(state, sk[j]) is None);
    }
}

/// Sorts paths in code-point order (see `sort_paths`).
pub fn sort_path_list(v: Vec<String>) -> (r: Vec<String>)
    ensures
        views(r@) == sort_paths(views(v@)),
{
    let ghost input = views(v@);
    let mut out: Vec<String> = Vec::new();
    let mut i: usize = 0;
    while i < v.len()
        invariant
            i <= v@.len(),
            input == views(v@),
            views(out@) == sort_paths(input.subrange(0, i as int)),
        decreases v@.len() - i,
    {
        let x = v[i].clone();
        let mut j: usize = out.len();
        while j > 0 && str_lt(x.as_str(), out[j - 1].as_str())
            invariant
                j <= out@.len(),
                forall|k: int| j <= k < out@.len() ==> lex_lt(x@, #[trigger] views(out@)[k]),
            decreases j,
        {
            j = j - 1;
        }
        proof {
            lemma_insert_path_at(views(out@), x@, j as int);
            let done = input.subrange(0, i + 1);
            assert(done.drop_last() =~= input.subrange(0, i as int));
            assert(done.last() == x@);
        }
        let ghost before = views(out@);
        out.insert(j, x);
        proof {
            assert(views(out@) =~= before.insert(j as int, x@));
        }
        i = i + 1;
    }
    proof {
        assert(input.subrange(0, v@.len() as int) =~= input);
    }
    out
}

/// Decides what a restore does: of the file asked for, or of every current
/// file when none is, which are restored (sorted) and which are left on disk
/// because they did not exist at the target time. `state` holds the record
/// of each file at the target time.
///
/// A file asked for that is not current is a no-results error.
pub fn plan_restore(state: &Vec<Snapshot>, current: &Vec<String>, file_filter: Option<&str>) -> (r:
    Result<RestorePlan, UnfError>)
    ensures
        unknown_filter(views(current@), opt_view(file_filter)) ==> (r matches Err(e) && e is NoResults
            && e.spec_message() == no_history_message(opt_view(file_filter)->0)),
        !unknown_filter(views(current@), opt_view(file_filter)) ==> (r matches Ok(plan) && views(
            plan.restored@,
        ) == sort_paths(to_restore(state@, candidates(views(current@), opt_view(file_filter))))
            && views(plan.skipped@) == to_skip(
            state@,
            candidates(views(current@), opt_view(file_filter)),
        )),
{
    let files: Vec<String> = match file_filter {
        Some(f) => {
            if !holds_file(current, f) {
                let mut msg = String::from_str("No history for \"");
                push_str(&mut msg, f);
                push_str(&mut msg, "\".");
                return Err(UnfError::NoResults(msg));
            }
            let mut v: Vec<String> = Vec::new();
            v.push(String::from_str(f));
            proof {
                assert(views(v@) =~= seq![f@]);
            }
            v
        },
        None => copy_strings(current),
    };
    let ghost all = views(files@);
    assert(all == candidates(views(current@), opt_view(file_filter)));
    let mut restore: Vec<String> = Vec::new();
    let mut skip: Vec<String> = Vec::new();
    let mut i: usize = 0;
    while i < files.len()
        invariant
            i <= files@.len(),
            all == views(files@),
            views(restore@) == to_restore(state@, all.subrange(0, i as int)),
            views(skip@) == to_skip(state@, all.subrange(0, i as int)),
        decreases files@.len() - i,
    {
        let p = files[i].as_str();
        proof {
            let done = all.subrange(0, i + 1);
            assert(done.drop_last() =~= all.subrange(0, i as int));
            assert(done.last() == p@);
        }
        if is_restorable(state, p) {
            let ghost before = views(restore@);
            restore.push(files[i].clone());
            assert(views(restore@) =~= before.push(p@));
        }
        match find_entry(state, p) {
            None => {
                let ghost before = views(skip@);
                skip.push(files[i].clone());
                assert(views(skip@) =~= before.push(p@));
            },
            Some(_) => {},
        }
        i = i + 1;
    }
    assert(all.subrange(0, files@.len() as int) =~= all);
    let restored = sort_path_list(restore);
    Ok(RestorePlan { restored, skipped: skip })
}

// ---------------------------------------------------------------------------
// What the command shows
// ---------------------------------------------------------------------------

/// A restored file in a dry run.
pub open spec fn dry_restored_line(p: Seq<char>) -> Seq<char> {
    "  restored  "@ + p
}

/// A skipped file in a dry run.
pub open spec fn dry_skipped_line(p: Seq<char>) -> Seq<char> {
    "  skipped   "@ + p + "  ("@ + SKIP_REASON@ + ")"@
}

/// The count line of a dry run.
pub open spec fn dry_summary(n: nat, m: nat) -> Seq<char> {
    decimal(n) + " file"@ + plural_suffix(n) + " would be restored, "@ + decimal(m) + " skipped."@
}

/// The lines a dry run prints, given the seconds since the target time and
/// its local-time text.
pub open spec fn dry_run_lines(
    restored: Seq<Seq<char>>,
    skipped: Seq<Seq<char>>,
    secs: int,
    local: Seq<char>,
) -> Seq<Seq<char>> {
    seq!["Restoring to "@ + duration_text(secs) + " ago"@ + " ("@ + local + "):"@, Seq::empty()]
        + restored.map_values(|p: Seq<char>| dry_restored_line(p)) + skipped.map_values(
        |p: Seq<char>| dry_skipped_line(p),
    ) + seq![
        Seq::empty(),
        dry_summary(restored.len(), skipped.len()),
        Seq::empty(),
        "This was a dry run. No files were modified."@,
    ]
}

/// The lines of a dry run (see `dry_run_lines`).
pub fn render_dry_run(plan: &RestorePlan, seconds_ago: i64, local: &str) -> (r: Vec<String>)
    ensures
        views(r@) == dry_run_lines(
            views(plan.restored@),
            views(plan.skipped@),
            seconds_ago as int,
            local@,
        ),
{
    let mut lines: Vec<String> = Vec::new();
    let mut head = String::from_str("Restoring to ");
    let ago = format_duration_ago(seconds_ago);
    push_str(&mut head, ago.as_str());
    push_str(&mut head, " (");
    push_str(&mut head, local);
    push_str(&mut head, "):");
    let ghost head_text = head@;
    assert(head_text =~= "Restoring to "@ + duration_text(seconds_ago as int) + " ago"@ + " ("@
        + local@ + "):"@);
    lines.push(head);
    lines.push(String::new());
    assert(views(lines@) =~= seq![head_text, Seq::empty()]);
    let ghost top = views(lines@);
    let ghost rs = views(plan.restored@);
    let ghost ss = views(plan.skipped@);
    let mut i: usize = 0;
    while i < plan.restored.len()
        invariant
            i <= plan.restored@.len(),
            rs == views(plan.restored@),
            views(lines@) == top + rs.subrange(0, i as int).map_values(
                |p: Seq<char>| dry_restored_line(p),
            ),
        decreases plan.restored@.len() - i,
    {
        let ghost before = views(lines@);
        let mut l = String::from_str("  restored  ");
        push_str(&mut l, plan.restored[i].as_str());
        lines.push(l);
        proof {
            assert(rs.subrange(0, i + 1).map_values(|p: Seq<char>| dry_restored_line(p))
                =~= rs.subrange(0, i as int).map_values(|p: Seq<char>| dry_restored_line(p)).push(
                dry_restored_line(rs[i as int]),
            ));
            assert(views(lines@) =~= before.push(dry_restored_line(rs[i as int])));
        }
        i = i + 1;
    }
    assert(rs.subrange(0, rs.len() as int) =~= rs);
    let ghost mid = views(lines@);
    let mut k: usize = 0;
    while k < plan.skipped.len()
        invariant
            k <= plan.skipped@.len(),
            ss == views(plan.skipped@),
            views(lines@) == mid + ss.subrange(0, k as int).map_values(
                |p: Seq<char>| dry_skipped_line(p),
            ),
        decreases plan.skipped@.len() - k,
    {
        let ghost before = views(lines@);
        let mut l = String::from_str("  skipped   ");
        push_str(&mut l, plan.skipped[k].as_str());
        push_str(&mut l, "  (");
        push_str(&mut l, SKIP_REASON);
        push_str(&mut l, ")");
        lines.push(l);
        proof {
            assert(ss.subrange(0, k + 1).map_values(|p: Seq<char>| dry_skipped_line(p))
                =~= ss.subrange(0, k as int).map_values(|p: Seq<char>| dry_skipped_line(p)).push(
                dry_skipped_line(ss[k as int]),
            ));
            assert(views(lines@) =~= before.push(dry_skipped_line(ss[k as int])));
        }
        k = k + 1;
    }
    assert(ss.subrange(0, ss.len() as int) =~= ss);
    let ghost body = views(lines@);
    lines.push(String::new());
    let mut summary = String::new();
    let n = plan.restored.len();
    push_decimal(&mut summary, n as u64);
    push_str(&mut summary, " file");
    if n != 1 {
        push_str(&mut summary, "s");
    }
    push_str(&mut summary, " would be restored, ");
    push_decimal(&mut summary, plan.skipped.len() as u64);
    push_str(&mut summary, " skipped.");
    assert(summary@ =~= dry_summary(rs.len(), ss.len()));
    lines.push(summary);
    lines.push(String::new());
    lines.push(String::from_str("This was a dry run. No files were modified."));
    proof {
        assert(views(lines@) =~= body + seq![
            Seq::empty(),
            dry_summary(rs.len(), ss.len()),
            Seq::empty(),
            "This was a dry run. No files were modified."@,
        ]);
        assert(views(lines@) =~= dry_run_lines(rs, ss, seconds_ago as int, local@));
    }
    lines
}

/// The text that asks for confirmation, written without a final newline.
pub open spec fn prompt_text(
    restored: Seq<Seq<char>>,
    skipped: Seq<Seq<char>>,
    secs: int,
    local: Seq<char>,
) -> Seq<char> {
    "Restore to "@ + duration_text(secs) + " ago"@ + " ("@ + local + ")?\n\n"@ + (if restored.len() > 0 {
        "  Will restore: "@ + join(restored, ", "@) + "\n"@
    } else {
        Seq::empty()
    }) + (if skipped.len() > 0 {
        "  Will skip (created after target): "@ + join(skipped, ", "@) + "\n"@
    } else {
        Seq::empty()
    }) + "\nProceed? [y/N] "@
}

/// The confirmation question (see `prompt_text`).
pub fn render_prompt(plan: &RestorePlan, seconds_ago: i64, local: &str) -> (r: String)
    ensures
        r@ == prompt_text(views(plan.restored@), views(plan.skipped@), seconds_ago as int, local@),
{
    let mut s = String::from_str("Restore to ");
    let ago = format_duration_ago(seconds_ago);
    push_str(&mut s, ago.as_str());
    push_str(&mut s, " (");
    push_str(&mut s, local);
    push_str(&mut s, ")?\n\n");
    let ghost a = s@;
    assert(a =~= "Restore to "@ + duration_text(seconds_ago as int) + " ago"@ + " ("@ + local@
        + ")?\n\n"@);
    if plan.restored.len() > 0 {
        push_str(&mut s, "  Will restore: ");
        push_joined(&mut s, &plan.restored, ", ");
        push_str(&mut s, "\n");
    }
    let ghost b = s@;
    if plan.skipped.len() > 0 {
        push_str(&mut s, "  Will skip (created after target): ");
        push_joined(&mut s, &plan.skipped, ", ");
        push_str(&mut s, "\n");
    }
    let ghost c = s@;
    push_str(&mut s, "\nProceed? [y/N] ");
    proof {
        let rs = views(plan.restored@);
        let ss = views(plan.skipped@);
        let p1: Seq<char> = if rs.len() > 0 {
            "  Will restore: "@ + join(rs, ", "@) + "\n"@
        } else {
            Seq::empty()
        };
        let p2: Seq<char> = if ss.len() > 0 {
            "  Will skip (created after target): "@ + join(ss, ", "@) + "\n"@
        } else {
            Seq::empty()
        };
        assert(b =~= a + p1);
        assert(c =~= b + p2);
        assert(s@ =~= prompt_text(rs, ss, seconds_ago as int, local@));
    }
    s
}

/// Reads the answer to the confirmation question: only `y` or `Y`, around
/// white space, goes on; anything else cancels the restore.
pub fn confirm_restore(answer: &str) -> (r: Result<(), UnfError>)
    ensures
        r is Ok <==> (trimmed(answer@) == "y"@ || trimmed(answer@) == "Y"@),
        r matches Err(e) ==> e is InvalidArgument && e.spec_message() == "Restore cancelled."@,
{
    let t = trim_text(answer);
    if str_eq(t.as_str(), "y") || str_eq(t.as_str(), "Y") {
        Ok(())
    } else {
        Err(UnfError::InvalidArgument(String::from_str("Restore cancelled.")))
    }
}

/// A restored file in the report.
pub open spec fn done_restored_line(p: Seq<char>, local: Seq<char>, colored: bool) -> Seq<char> {
    status_line("Restored"@, p + " (from "@ + local + ")"@, colored)
}

/// A skipped file in the report.
pub open spec fn done_skipped_line(p: Seq<char>) -> Seq<char> {
    pad_left("Skipped"@, 12) + "  "@ + p + "  ("@ + SKIP_REASON@ + ")"@
}

/// The report after a restore: each restored file with the local time it
/// was restored from, then each skipped file with the reason.
pub open spec fn done_lines(
    restored: Seq<Seq<char>>,
    skipped: Seq<Seq<char>>,
    local: Seq<char>,
    colored: bool,
) -> Seq<Seq<char>> {
    restored.map_values(|p: Seq<char>| done_restored_line(p, local, colored)) + skipped.map_values(
        |p: Seq<char>| done_skipped_line(p),
    )
}

/// The report after a restore (see `done_lines`).
pub fn render_restored(restored: &Vec<String>, skipped: &Vec<String>, local: &str, colored: bool) -> (r:
    Vec<String>)
    ensures
        views(r@) == done_lines(views(restored@), views(skipped@), local@, colored),
{
    let ghost rs = views(restored@);
    let ghost ss = views(skipped@);
    let mut lines: Vec<String> = Vec::new();
    let mut i: usize = 0;
    while i < restored.len()
        invariant
            i <= restored@.len(),
            rs == views(restored@),
            views(lines@) == rs.subrange(0, i as int).map_values(
                |p: Seq<char>| done_restored_line(p, local@, colored),
            ),
        decreases restored@.len() - i,
    {
        let ghost before = views(lines@);
        let mut subject = String::new();
        push_str(&mut subject, restored[i].as_str());
        push_str(&mut subject, " (from ");
        push_str(&mut subject, local);
        push_str(&mut subject, ")");
        let l = status_prefix("Restored", subject.as_str(), colored);
        lines.push(l);
        proof {
            assert(rs.subrange(0, i + 1).map_values(
                |p: Seq<char>| done_restored_line(p, local@, colored),
            ) =~= rs.subrange(0, i as int).map_values(
                |p: Seq<char>| done_restored_line(p, local@, colored),
            ).push(done_restored_line(rs[i as int], local@, colored)));
            assert(views(lines@) =~= before.push(done_restored_line(rs[i as int], local@, colored)));
        }
        i = i + 1;
    }
    assert(rs.subrange(0, rs.len() as int) =~= rs);
    let ghost mid = views(lines@);
    let mut k: usize = 0;
    while k < skipped.len()
        invariant
            k <= skipped@.len(),
            ss == views(skipped@),
            views(lines@) == mid + ss.subrange(0, k as int).map_values(
                |p: Seq<char>| done_skipped_line(p),
            ),
        decreases skipped@.len() - k,
    {
        let ghost before = views(lines@);
        let mut l = String::new();
        push_padded_left(&mut l, "Skipped", 12);
        push_str(&mut l, "  ");
        push_str(&mut l, skipped[k].as_str());
        push_str(&mut l, "  (");
        push_str(&mut l, SKIP_REASON);
        push_str(&mut l, ")");
        lines.push(l);
        proof {
            assert(ss.subrange(0, k + 1).map_values(|p: Seq<char>| done_skipped_line(p))
                =~= ss.subrange(0, k as int).map_values(|p: Seq<char>| done_skipped_line(p)).push(
                done_skipped_line(ss[k as int]),
            ));
            assert(views(lines@) =~= before.push(done_skipped_line(ss[k as int])));
        }
        k = k + 1;
    }
    assert(ss.subrange(0, ss.len() as int) =~= ss);
    lines
}

/// A file left as it is, in the JSON report.
#[derive(Clone, Debug)]
pub struct SkippedFile {
    pub file: String,
    pub reason: String,
}

/// The JSON report of a restore.
#[derive(Clone, Debug)]
pub struct RestoreOutput {
    /// RFC 3339 text of the target time.
    pub target_time: String,
    pub restored: Vec<String>,
    pub skipped: Vec<SkippedFile>,
    pub dry_run: bool,
}

/// Builds the JSON report of a restore to instant `target`.
pub fn restore_output(target: i64, restored: &Vec<String>, skipped: &Vec<String>, dry_run: bool) -> (r:
    RestoreOutput)
    ensures
        r.target_time@ == rfc3339_text(target as int),
        views(r.restored@) == views(restored@),
        r.skipped@.len() == skipped@.len(),
        forall|i: int|
            0 <= i < skipped@.len() ==> #[trigger] r.skipped@[i].file@ == skipped@[i]@
                && r.skipped@[i].reason@ == SKIP_REASON@,
        r.dry_run == dry_run,
{
    let mut out: Vec<SkippedFile> = Vec::new();
    let mut i: usize = 0;
    while i < skipped.len()
        invariant
            i <= skipped@.len(),
            out@.len() == i,
            forall|j: int|
                0 <= j < i ==> #[trigger] out@[j].file@ == skipped@[j]@ && out@[j].reason@
                    == SKIP_REASON@,
        decreases skipped@.len() - i,
    {
        out.push(SkippedFile { file: skipped[i].clone(), reason: String::from_str(SKIP_REASON) });
        i = i + 1;
    }
    let r = copy_strings(restored);
    RestoreOutput { target_time: rfc3339_of(target), restored: r, skipped: out, dry_run }
}

// ---------------------------------------------------------------------------
// Restoring to a session
// ---------------------------------------------------------------------------

/// The number of sessions in a history sorted oldest first.
pub open spec fn session_count(s: Seq<Snapshot>) -> nat {
    session_starts(s, span_threshold(s), s.len()).len()
}

/// The instant a restore to session `n` goes back to, in a history sorted
/// oldest first: the start of the latest session for 0, else of session `n`;
/// nothing where there is no such session.
pub open spec fn session_restore_instant(s: Seq<Snapshot>, n: nat) -> Option<i64> {
    let starts = session_starts(s, span_threshold(s), s.len());
    if starts.len() == 0 {
        None
    } else if n == 0 {
        Some(s[starts.last()].timestamp)
    } else if n <= starts.len() {
        Some(s[starts[n - 1]].timestamp)
    } else {
        None
    }
}

/// The error of a restore to a session that does not exist.
pub open spec fn missing_session_message(s: Seq<Snapshot>, n: nat) -> Seq<char> {
    if session_count(s) == 0 {
        "No sessions detected."@
    } else {
        not_found_message(n, session_count(s))
    }
}

/// The sessions of a split are numbered from 1 in order, each starting at
/// its first snapshot.
proof fn lemma_split_numbers(s: Seq<Snapshot>, r: Seq<Session>)
    requires
        is_session_split(s, r),
    ensures
        r.len() == session_count(s),
        forall|i: int|
            0 <= i < r.len() ==> #[trigger] r[i].number == i + 1 && r[i].start == s[session_starts(
                s,
                span_threshold(s),
                s.len(),
            )[i]].timestamp,
{
    let starts = session_starts(s, span_threshold(s), s.len());
    assert forall|i: int| 0 <= i < r.len() implies #[trigger] r[i].number == i + 1 && r[i].start
        == s[starts[i]].timestamp by {
        assert(describes(r[i], s, starts[i], session_end_index(starts, i, s.len() as int), i + 1));
    }
}

/// The instant a restore to session `session_num` goes back to (0 for the
/// latest session), from the snapshots in any order.
pub fn session_restore_start(snapshots: Vec<Snapshot>, session_num: usize) -> (r: Result<i64, UnfError>)
    ensures
        match session_restore_instant(sort_by_time(snapshots@), session_num as nat) {
            Some(t) => r matches Ok(x) && x == t,
            None => r matches Err(e) && e is InvalidArgument && e.spec_message()
                == missing_session_message(sort_by_time(snapshots@), session_num as nat),
        },
{
    let sorted = sort_snapshots_by_time(snapshots);
    let ghost s = sorted@;
    let sessions = detect_sessions(sorted.as_slice());
    proof {
        lemma_split_numbers(s, sessions@);
    }
    let number = if session_num == 0 {
        None
    } else {
        Some(session_num)
    };
    match resolve_session(sessions.as_slice(), number) {
        Ok(x) => {
            proof {
                if session_num == 0 {
                    let i = sessions@.len() - 1;
                    assert(*x == sessions@[i]);
                    assert(sessions@[i].number == i + 1);
                } else {
                    let i = choose|i: int|
                        0 <= i < sessions@.len() && sessions@[i].number == session_num && *x
                            == sessions@[i] && forall|k: int|
                            0 <= k < i ==> sessions@[k].number != session_num;
                    assert(sessions@[i].number == i + 1);
                }
            }
            Ok(x.start)
        },
        Err(e) => {
            proof {
                if session_num > 0 && sessions@.len() > 0 && session_num <= sessions@.len() {
                    let i = session_num - 1;
                    assert(sessions@[i].number == i + 1);
                }
            }
            Err(e)
        },
    }
}

} // verus!
