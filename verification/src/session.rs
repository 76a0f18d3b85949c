//! Work sessions: runs of editing activity separated by long pauses.
//!
//! A history sorted oldest first is cut wherever two consecutive snapshots
//! are further apart than a threshold; the threshold grows with the span of
//! the whole history, from five minutes to half an hour.

use vstd::prelude::*;
use crate::clock::{is_local_text, local_time_text, rfc3339_of, rfc3339_text};
use crate::output::{format_session_duration, session_duration_text};
use crate::text::{
    copy_strings, decimal, insert_sorted, lemma_ascending_no_duplicates, push_decimal, push_str,
    strictly_ascending, views,
};
use crate::types::{
    div_trunc, millis_between, millis_diff, seconds_between, seconds_diff, Snapshot, UnfError,
};
use vstd::string::StringExecFns;

verus! {

/// Milliseconds in one hour.
pub const MS_PER_HOUR: i64 = 3_600_000;

/// Shortest pause that separates sessions: five minutes.
pub const MIN_THRESHOLD_MS: i64 = 300_000;

/// Longest pause threshold: thirty minutes.
pub const MAX_THRESHOLD_MS: i64 = 1_800_000;

/// The pause, in milliseconds, beyond which a history spanning `span_ms`
/// milliseconds is cut into sessions.
///
/// Under six whole hours of span it is five minutes; from 48 whole hours on
/// it is thirty minutes; in between it rises linearly with the whole hours of
/// span, rounded down to a whole millisecond.
pub open spec fn gap_threshold(span_ms: int) -> int {
    let hours = div_trunc(span_ms, MS_PER_HOUR as int);
    if hours < 6 {
        MIN_THRESHOLD_MS as int
    } else if hours < 48 {
        MIN_THRESHOLD_MS + (1_500_000 * (hours - 6)) / 42
    } else {
        MAX_THRESHOLD_MS as int
    }
}

/// Computes the adaptive pause threshold for a history spanning
/// `total_span_ms` milliseconds.
pub fn compute_gap_threshold_ms(total_span_ms: i64) -> (r: i64)
    ensures
        r == gap_threshold(total_span_ms as int),
{
    if total_span_ms < 0 {
        return MIN_THRESHOLD_MS;
    }
    let span_hours = total_span_ms / MS_PER_HOUR;
    if span_hours < 6 {
        MIN_THRESHOLD_MS
    } else if span_hours < 48 {
        let hours_into_ramp = span_hours - 6;
        MIN_THRESHOLD_MS + (1_500_000 * hours_into_ramp) / 42
    } else {
        MAX_THRESHOLD_MS
    }
}

/// A detected work session.
#[derive(Clone, Debug, PartialEq)]
pub struct Session {
    /// 1-based session number, oldest first.
    pub number: usize,
    /// Instant of the first snapshot of the session (nanoseconds since the epoch).
    pub start: i64,
    /// Instant of the last snapshot of the session.
    pub end: i64,
    /// Number of snapshots in the session.
    pub edit_count: usize,
    /// Distinct file paths edited in the session, in ascending order.
    pub files: Vec<String>,
}

/// The threshold detection uses for the history `s`: from the span between
/// its first and last snapshots.
pub open spec fn span_threshold(s: Seq<Snapshot>) -> int {
    gap_threshold(millis_between(s[0].timestamp as int, s.last().timestamp as int))
}

/// A session starts at snapshot `k`: the pause since snapshot `k - 1` is
/// longer than `thr`.
pub open spec fn breaks_before(s: Seq<Snapshot>, thr: int, k: int) -> bool {
    millis_between(s[k - 1].timestamp as int, s[k].timestamp as int) > thr
}

/// Indices, among the first `n` snapshots of `s`, at which sessions start.
pub open spec fn session_starts(s: Seq<Snapshot>, thr: int, n: nat) -> Seq<int>
    decreases n,
{
    if n == 0 {
        Seq::empty()
    } else if n == 1 {
        seq![0]
    } else {
        let p = session_starts(s, thr, (n - 1) as nat);
        if breaks_before(s, thr, n - 1) {
            p.push(n - 1)
        } else {
            p
        }
    }
}

/// One past the last snapshot of session `i`, given the session starts.
pub open spec fn session_end_index(starts: Seq<int>, i: int, n: int) -> int {
    if i + 1 < starts.len() {
        starts[i + 1]
    } else {
        n
    }
}

/// The file paths of snapshots `a..b` of `s`.
pub open spec fn paths_between(s: Seq<Snapshot>, a: int, b: int) -> Set<Seq<char>> {
    Set::new(|p: Seq<char>| exists|k: int| a <= k < b && s[k].file_path@ == p)
}

/// `x` is session number `number`, made of snapshots `a..b` of `s`.
pub open spec fn describes(x: Session, s: Seq<Snapshot>, a: int, b: int, number: int) -> bool {
    &&& x.number == number
    &&& x.start == s[a].timestamp
    &&& x.end == s[b - 1].timestamp
    &&& x.edit_count == b - a
    &&& strictly_ascending(views(x.files@))
    &&& views(x.files@).to_set() == paths_between(s, a, b)
}

/// `r` is the list of sessions of the history `s`.
pub open spec fn is_session_split(s: Seq<Snapshot>, r: Seq<Session>) -> bool {
    let starts = session_starts(s, span_threshold(s), s.len());
    &&& r.len() == starts.len()
    &&& forall|i: int|
        0 <= i < r.len() ==> describes(
            r[i],
            s,
            starts[i],
            session_end_index(starts, i, s.len() as int),
            i + 1,
        )
}

/// The session starts of the first `n` snapshots lie among them, ascending,
/// and the first is snapshot 0.
proof fn lemma_starts_shape(s: Seq<Snapshot>, thr: int, n: nat)
    requires
        n >= 1,
    ensures
        session_starts(s, thr, n).len() >= 1,
        session_starts(s, thr, n)[0] == 0,
        forall|j: int|
            0 <= j < session_starts(s, thr, n).len() ==> 0 <= #[trigger] session_starts(
                s,
                thr,
                n,
            )[j] < n,
        forall|j: int|
            0 <= j < session_starts(s, thr, n).len() - 1 ==> session_starts(s, thr, n)[j]
                < #[trigger] session_starts(s, thr, n)[j + 1],
    decreases n,
{
    if n > 1 {
        lemma_starts_shape(s, thr, (n - 1) as nat);
    }
}

/// Adding snapshot `b` to the range `a..b` adds its path.
proof fn lemma_paths_extend(s: Seq<Snapshot>, a: int, b: int)
    requires
        a <= b,
    ensures
        paths_between(s, a, b + 1) == paths_between(s, a, b).insert(s[b].file_path@),
{
    assert(paths_between(s, a, b + 1) =~= paths_between(s, a, b).insert(s[b].file_path@)) by {
        assert forall|p: Seq<char>|
            paths_between(s, a, b).insert(s[b].file_path@).contains(p) implies paths_between(
            s,
            a,
            b + 1,
        ).contains(p) by {
            if p == s[b].file_path@ {
                assert(a <= b < b + 1 && s[b].file_path@ == p);
            }
        }
    }
}

/// An empty range has no paths.
proof fn lemma_paths_empty(s: Seq<Snapshot>, a: int)
    ensures
        paths_between(s, a, a) == Set::<Seq<char>>::empty(),
{
    assert(paths_between(s, a, a) =~= Set::<Seq<char>>::empty());
}

/// An empty vector of strings holds no path.
proof fn lemma_views_empty(v: Seq<String>)
    requires
        v.len() == 0,
    ensures
        views(v).to_set() == Set::<Seq<char>>::empty(),
        strictly_ascending(views(v)),
{
    assert(views(v).to_set() =~= Set::<Seq<char>>::empty());
}

/// Splits a history, sorted oldest first, into work sessions.
///
/// A new session starts at each snapshot whose pause since the previous
/// snapshot exceeds the adaptive threshold for the whole span (see
/// `gap_threshold`). Sessions are numbered from 1, oldest first; each
/// records its first and last instants, its number of snapshots and its
/// distinct file paths in ascending order. Empty input gives no sessions.
pub fn detect_sessions(snapshots: &[Snapshot]) -> (r: Vec<Session>)
    ensures
        is_session_split(snapshots@, r@),
{
    let ghost s = snapshots@;
    let n = snapshots.len();
    let mut sessions: Vec<Session> = Vec::new();
    if n == 0 {
        return sessions;
    }
    let first = snapshots[0].timestamp;
    let last = snapshots[n - 1].timestamp;
    let thr = compute_gap_threshold_ms(millis_diff(first, last));
    let mut cur_start: i64 = first;
    let mut cur_end: i64 = first;
    let mut files: Vec<String> = Vec::new();
    proof {
        lemma_views_empty(files@);
        lemma_paths_empty(s, 0);
        lemma_paths_extend(s, 0, 0);
    }
    insert_sorted(&mut files, snapshots[0].file_path.clone());
    let mut count: usize = 1;
    let ghost mut a: int = 0;
    let mut i: usize = 1;
    while i < n
        invariant
            s == snapshots@,
            n == s.len(),
            1 <= i <= n,
            sessions@.len() <= a,
            thr == span_threshold(s),
            session_starts(s, thr as int, i as nat).len() == sessions@.len() + 1,
            session_starts(s, thr as int, i as nat).last() == a,
            0 <= a < i,
            forall|j: int|
                0 <= j < sessions@.len() ==> describes(
                    #[trigger] sessions@[j],
                    s,
                    session_starts(s, thr as int, i as nat)[j],
                    session_starts(s, thr as int, i as nat)[j + 1],
                    j + 1,
                ),
            cur_start == s[a].timestamp,
            cur_end == s[i - 1].timestamp,
            count == i - a,
            strictly_ascending(views(files@)),
            views(files@).to_set() == paths_between(s, a, i as int),
        decreases n - i,
    {
        let ghost old_starts = session_starts(s, thr as int, i as nat);
        let ghost old_sessions = sessions@;
        let ts = snapshots[i].timestamp;
        let gap = millis_diff(cur_end, ts);
        if gap > thr {
            let number = sessions.len() + 1;
            let done = Session {
                number,
                start: cur_start,
                end: cur_end,
                edit_count: count,
                files,
            };
            sessions.push(done);
            cur_start = ts;
            cur_end = ts;
            files = Vec::new();
            proof {
                lemma_views_empty(files@);
                lemma_paths_empty(s, i as int);
                lemma_paths_extend(s, i as int, i as int);
            }
            insert_sorted(&mut files, snapshots[i].file_path.clone());
            count = 1;
            proof {
                let ns = session_starts(s, thr as int, (i + 1) as nat);
                assert(ns == old_starts.push(i as int));
                assert forall|j: int| 0 <= j < sessions@.len() implies describes(
                    #[trigger] sessions@[j],
                    s,
                    ns[j],
                    ns[j + 1],
                    j + 1,
                ) by {
                    if j < old_sessions.len() {
                        assert(sessions@[j] == old_sessions[j]);
                    }
                }
                a = i as int;
            }
        } else {
            cur_end = ts;
            proof {
                lemma_paths_extend(s, a, i as int);
            }
            insert_sorted(&mut files, snapshots[i].file_path.clone());
            count = count + 1;
            proof {
                let ns = session_starts(s, thr as int, (i + 1) as nat);
                assert(ns == old_starts);
            }
        }
        i = i + 1;
    }
    let number = sessions.len() + 1;
    let ghost before = sessions@;
    sessions.push(Session { number, start: cur_start, end: cur_end, edit_count: count, files });
    proof {
        let starts = session_starts(s, thr as int, n as nat);
        assert forall|j: int| 0 <= j < sessions@.len() implies describes(
            sessions@[j],
            s,
            starts[j],
            session_end_index(starts, j, n as int),
            j + 1,
        ) by {
            if j < before.len() {
                assert(sessions@[j] == before[j]);
            }
        }
    }
    sessions
}

/// The message for a session number that does not exist.
pub open spec fn not_found_message(number: nat, available: nat) -> Seq<char> {
    "Session "@ + decimal(number) + " not found. Available sessions: 1.."@ + decimal(available)
}

/// Picks a session: the most recent one when `number` is `None`, else the
/// first session carrying that number.
///
/// With no sessions at all, or no session of that number, the result is
/// an invalid-argument error.
pub fn resolve_session(sessions: &[Session], number: Option<usize>) -> (r: Result<&Session, UnfError>)
    ensures
        sessions@.len() == 0 ==> (r matches Err(e) && e is InvalidArgument && e.spec_message()
            == "No sessions detected."@),
        sessions@.len() > 0 && number is None ==> (r matches Ok(x) && *x == sessions@.last()),
        sessions@.len() > 0 && number is Some ==> match r {
            Ok(x) => exists|i: int|
                0 <= i < sessions@.len() && sessions@[i].number == number->0 && *x == sessions@[i]
                    && forall|k: int| 0 <= k < i ==> sessions@[k].number != number->0,
            Err(e) => (forall|k: int| 0 <= k < sessions@.len() ==> sessions@[k].number != number->0)
                && e is InvalidArgument && e.spec_message() == not_found_message(
                number->0 as nat,
                sessions@.len(),
            ),
        },
{
    if sessions.len() == 0 {
        return Err(UnfError::InvalidArgument(String::from_str("No sessions detected.")));
    }
    match number {
        None => Ok(&sessions[sessions.len() - 1]),
        Some(n) => {
            let mut i: usize = 0;
            while i < sessions.len()
                invariant
                    number == Some(n),
                    i <= sessions@.len(),
                    forall|k: int| 0 <= k < i ==> sessions@[k].number != n,
                decreases sessions@.len() - i,
            {
                if sessions[i].number == n {
                    return Ok(&sessions[i]);
                }
                i = i + 1;
            }
            let mut msg = String::from_str("Session ");
            push_decimal(&mut msg, n as u64);
            push_str(&mut msg, " not found. Available sessions: 1..");
            push_decimal(&mut msg, sessions.len() as u64);
            Err(UnfError::InvalidArgument(msg))
        },
    }
}

/// A session in its serialisable form.
#[derive(Clone, Debug)]
pub struct SessionOutput {
    pub number: usize,
    /// RFC 3339 text of the first instant.
    pub start: String,
    /// RFC 3339 text of the last instant.
    pub end: String,
    /// Whole seconds from the first to the last instant.
    pub duration_seconds: i64,
    pub edit_count: usize,
    pub file_count: usize,
    pub files: Vec<String>,
}

/// `o` is the serialisable form of `x`.
pub open spec fn output_of(x: Session, o: SessionOutput) -> bool {
    &&& o.number == x.number
    &&& o.start@ == rfc3339_text(x.start as int)
    &&& o.end@ == rfc3339_text(x.end as int)
    &&& o.duration_seconds == seconds_between(x.start as int, x.end as int)
    &&& o.edit_count == x.edit_count
    &&& o.file_count == x.files@.len()
    &&& o.files@ == x.files@
}

impl Session {
    /// The serialisable form of this session.
    pub fn to_output(&self) -> (r: SessionOutput)
        ensures
            output_of(*self, r),
    {
        SessionOutput {
            number: self.number,
            start: rfc3339_of(self.start),
            end: rfc3339_of(self.end),
            duration_seconds: seconds_diff(self.start, self.end),
            edit_count: self.edit_count,
            file_count: self.files.len(),
            files: copy_strings(&self.files),
        }
    }
}

/// Total number of snapshots over a list of sessions.
pub open spec fn total_edit_count(ss: Seq<Session>) -> int
    decreases ss.len(),
{
    if ss.len() == 0 {
        0
    } else {
        total_edit_count(ss.drop_last()) + ss.last().edit_count
    }
}

/// The distinct file paths over a list of sessions.
pub open spec fn session_files(ss: Seq<Session>) -> Set<Seq<char>>
    decreases ss.len(),
{
    if ss.len() == 0 {
        Set::empty()
    } else {
        session_files(ss.drop_last()).union(views(ss.last().files@).to_set())
    }
}

/// The edits of a prefix never exceed those of the whole list.
proof fn lemma_total_prefix(ss: Seq<Session>, i: int)
    requires
        0 <= i <= ss.len(),
    ensures
        total_edit_count(ss.subrange(0, i)) <= total_edit_count(ss),
        total_edit_count(ss.subrange(0, i)) >= 0,
    decreases ss.len(),
{
    if i < ss.len() {
        lemma_total_prefix(ss.drop_last(), i);
        assert(ss.drop_last().subrange(0, i) =~= ss.subrange(0, i));
    } else {
        assert(ss.subrange(0, i) =~= ss);
    }
    lemma_total_nonneg(ss.subrange(0, i));
}

/// A total of edit counts is never negative.
proof fn lemma_total_nonneg(ss: Seq<Session>)
    ensures
        total_edit_count(ss) >= 0,
    decreases ss.len(),
{
    if ss.len() > 0 {
        lemma_total_nonneg(ss.drop_last());
    }
}

/// The serialisable list of sessions with its totals.
#[derive(Clone, Debug)]
pub struct SessionsOutput {
    pub sessions: Vec<SessionOutput>,
    /// Snapshots over all sessions.
    pub total_edits: usize,
    /// Distinct file paths over all sessions.
    pub total_files: usize,
}

impl SessionsOutput {
    /// The serialisable list of `sessions`, with the total number of
    /// snapshots and the number of distinct files over all of them.
    pub fn from_sessions(sessions: &[Session]) -> (r: Self)
        requires
            total_edit_count(sessions@) <= usize::MAX,
        ensures
            r.sessions@.len() == sessions@.len(),
            forall|i: int|
                0 <= i < sessions@.len() ==> output_of(sessions@[i], #[trigger] r.sessions@[i]),
            r.total_edits == total_edit_count(sessions@),
            r.total_files == session_files(sessions@).len(),
    {
        let ghost ss = sessions@;
        let mut outs: Vec<SessionOutput> = Vec::new();
        let mut total: usize = 0;
        let mut seen: Vec<String> = Vec::new();
        proof {
            lemma_views_empty(seen@);
        }
        let mut i: usize = 0;
        while i < sessions.len()
            invariant
                i <= ss.len(),
                ss == sessions@,
                total_edit_count(ss) <= usize::MAX,
                outs@.len() == i,
                forall|k: int| 0 <= k < i ==> output_of(ss[k], #[trigger] outs@[k]),
                total == total_edit_count(ss.subrange(0, i as int)),
                strictly_ascending(views(seen@)),
                views(seen@).to_set() == session_files(ss.subrange(0, i as int)),
            decreases ss.len() - i,
        {
            let x = &sessions[i];
            outs.push(x.to_output());
            proof {
                let pre = ss.subrange(0, i as int);
                let next = ss.subrange(0, i + 1);
                assert(next.drop_last() =~= pre);
                lemma_total_prefix(ss, i + 1);
            }
            total = total + x.edit_count;
            let ghost base = views(seen@).to_set();
            let mut j: usize = 0;
            while j < x.files.len()
                invariant
                    j <= x.files@.len(),
                    strictly_ascending(views(seen@)),
                    views(seen@).to_set() == base.union(
                        views(x.files@).subrange(0, j as int).to_set(),
                    ),
                decreases x.files@.len() - j,
            {
                let ghost before = views(seen@).to_set();
                insert_sorted(&mut seen, x.files[j].clone());
                proof {
                    let fv = views(x.files@);
                    assert(fv.subrange(0, j + 1) =~= fv.subrange(0, j as int).push(fv[j as int]));
                    fv.subrange(0, j as int).lemma_push_to_set_commute(fv[j as int]);
                    assert(views(seen@).to_set() =~= base.union(
                        fv.subrange(0, j + 1).to_set(),
                    ));
                }
                j = j + 1;
            }
            proof {
                let pre = ss.subrange(0, i as int);
                let next = ss.subrange(0, i + 1);
                assert(next.drop_last() =~= pre);
                assert(views(x.files@).subrange(0, x.files@.len() as int) =~= views(x.files@));
                assert(views(seen@).to_set() =~= session_files(next));
            }
            i = i + 1;
        }
        proof {
            assert(ss.subrange(0, ss.len() as int) =~= ss);
            lemma_ascending_no_duplicates(views(seen@));
        }
        SessionsOutput { sessions: outs, total_edits: total, total_files: seen.len() }
    }
}

/// Every snapshot of the history falls in exactly one session: the
/// sessions' edit counts add up to the length of the history.
pub proof fn lemma_sessions_account_for_every_snapshot(s: Seq<Snapshot>, r: Seq<Session>)
    requires
        is_session_split(s, r),
    ensures
        total_edit_count(r) == s.len(),
{
    let starts = session_starts(s, span_threshold(s), s.len());
    if s.len() > 0 {
        lemma_starts_shape(s, span_threshold(s), s.len());
        lemma_prefix_edits(s, r, r.len() as int);
        assert(r.subrange(0, r.len() as int) =~= r);
    } else {
        assert(r.len() == 0);
    }
}

/// The sessions before number `i + 1` hold exactly the snapshots before the
/// start of session `i + 1` (or all of them, past the last session).
proof fn lemma_prefix_edits(s: Seq<Snapshot>, r: Seq<Session>, i: int)
    requires
        is_session_split(s, r),
        s.len() > 0,
        0 <= i <= r.len(),
    ensures
        total_edit_count(r.subrange(0, i)) == (if i == 0 {
            0
        } else {
            session_end_index(session_starts(s, span_threshold(s), s.len()), i - 1, s.len() as int)
        }),
    decreases i,
{
    let starts = session_starts(s, span_threshold(s), s.len());
    lemma_starts_shape(s, span_threshold(s), s.len());
    if i > 0 {
        lemma_prefix_edits(s, r, i - 1);
        assert(r.subrange(0, i).drop_last() =~= r.subrange(0, i - 1));
        assert(describes(r[i - 1], s, starts[i - 1], session_end_index(starts, i - 1, s.len() as int), i));
        if i - 1 > 0 {
            assert(session_end_index(starts, i - 2, s.len() as int) == starts[i - 1]);
        }
    }
}

/// Among the first `n` snapshots of `s`, how many follow a pause longer
/// than `thr`.
pub open spec fn break_count(s: Seq<Snapshot>, thr: int, n: nat) -> nat
    decreases n,
{
    if n <= 1 {
        0
    } else {
        break_count(s, thr, (n - 1) as nat) + if breaks_before(s, thr, n - 1) {
            1nat
        } else {
            0nat
        }
    }
}

proof fn lemma_starts_count(s: Seq<Snapshot>, thr: int, n: nat)
    requires
        n >= 1,
    ensures
        session_starts(s, thr, n).len() == 1 + break_count(s, thr, n),
    decreases n,
{
    if n > 1 {
        lemma_starts_count(s, thr, (n - 1) as nat);
    }
}

/// A non-empty history has one session more than it has pauses longer
/// than its threshold.
pub proof fn lemma_session_count(s: Seq<Snapshot>, r: Seq<Session>)
    requires
        is_session_split(s, r),
        s.len() >= 1,
    ensures
        r.len() == 1 + break_count(s, span_threshold(s), s.len()),
{
    lemma_starts_count(s, span_threshold(s), s.len());
}

/// Consecutive sessions are separated by a pause longer than the
/// threshold of the history: the next session starts more than that many
/// milliseconds after the previous one ended.
pub proof fn lemma_sessions_separated(s: Seq<Snapshot>, r: Seq<Session>, i: int)
    requires
        is_session_split(s, r),
        0 <= i < r.len() - 1,
    ensures
        millis_between(r[i].end as int, r[i + 1].start as int) > span_threshold(s),
{
    let thr = span_threshold(s);
    let starts = session_starts(s, thr, s.len());
    lemma_starts_shape(s, thr, s.len());
    lemma_starts_break(s, thr, s.len(), i + 1);
    assert(describes(r[i], s, starts[i], session_end_index(starts, i, s.len() as int), i + 1));
    assert(describes(r[i + 1], s, starts[i + 1], session_end_index(starts, i + 1, s.len() as int), i + 2));
}

/// Every session start after the first is a break.
proof fn lemma_starts_break(s: Seq<Snapshot>, thr: int, n: nat, j: int)
    requires
        n >= 1,
        1 <= j < session_starts(s, thr, n).len(),
    ensures
        breaks_before(s, thr, session_starts(s, thr, n)[j]),
    decreases n,
{
    if n > 1 {
        let p = session_starts(s, thr, (n - 1) as nat);
        if j < p.len() {
            lemma_starts_break(s, thr, (n - 1) as nat, j);
        }
    }
}

/// The line of a session in the session listing, given the local `HH:MM`
/// of its first and last instants: number, times, duration, edits, files,
/// and a marker on the latest of several sessions.
pub open spec fn session_line_text(s: Session, start_local: Seq<char>, end_local: Seq<char>, latest: bool) -> Seq<char> {
    "Session "@ + decimal(s.number as nat) + "  "@ + start_local + " - "@ + end_local + "  ("@
        + session_duration_text(seconds_between(s.start as int, s.end as int)) + ", "@ + decimal(
        s.edit_count as nat,
    ) + " edits, "@ + decimal(s.files@.len()) + if s.files@.len() == 1 {
        " file)"@
    } else {
        " files)"@
    } + if latest {
        "  <-- latest"@
    } else {
        Seq::empty()
    }
}

/// Session `i` is marked latest: there are several sessions and it has the
/// number of the last one.
pub open spec fn marked_latest(sessions: Seq<Session>, i: int) -> bool {
    sessions.len() > 1 && sessions[i].number == sessions.last().number
}

/// The line of a session (see `session_line_text`).
pub fn session_line_at(s: &Session, start_local: &str, end_local: &str, latest: bool) -> (r: String)
    ensures
        r@ == session_line_text(*s, start_local@, end_local@, latest),
{
    let mut r = String::from_str("Session ");
    push_decimal(&mut r, s.number as u64);
    push_str(&mut r, "  ");
    push_str(&mut r, start_local);
    push_str(&mut r, " - ");
    push_str(&mut r, end_local);
    push_str(&mut r, "  (");
    let d = format_session_duration(seconds_diff(s.start, s.end));
    push_str(&mut r, d.as_str());
    push_str(&mut r, ", ");
    push_decimal(&mut r, s.edit_count as u64);
    push_str(&mut r, " edits, ");
    push_decimal(&mut r, s.files.len() as u64);
    if s.files.len() == 1 {
        push_str(&mut r, " file)");
    } else {
        push_str(&mut r, " files)");
    }
    if latest {
        push_str(&mut r, "  <-- latest");
    }
    proof {
        reveal_strlit("  <-- latest");
        assert(r@ =~= session_line_text(*s, start_local@, end_local@, latest));
    }
    r
}

/// The session listing, given the local `HH:MM` texts of each session's
/// first and last instants.
pub fn session_lines_at(sessions: &[Session], times: &Vec<(String, String)>) -> (r: Vec<String>)
    requires
        times@.len() == sessions@.len(),
    ensures
        r@.len() == sessions@.len(),
        forall|i: int|
            0 <= i < r@.len() ==> #[trigger] r@[i]@ == session_line_text(
                sessions@[i],
                times@[i].0@,
                times@[i].1@,
                marked_latest(sessions@, i),
            ),
{
    let n = sessions.len();
    let mut r: Vec<String> = Vec::new();
    let mut k: usize = 0;
    while k < n
        invariant
            n == sessions@.len(),
            times@.len() == n,
            k <= n,
            r@.len() == k,
            forall|i: int|
                0 <= i < k ==> #[trigger] r@[i]@ == session_line_text(
                    sessions@[i],
                    times@[i].0@,
                    times@[i].1@,
                    marked_latest(sessions@, i),
                ),
        decreases n - k,
    {
        let latest = n > 1 && sessions[k].number == sessions[n - 1].number;
        let line = session_line_at(&sessions[k], times[k].0.as_str(), times[k].1.as_str(), latest);
        r.push(line);
        k = k + 1;
    }
    r
}

/// `lines` is the session listing with these local times.
pub open spec fn lists_sessions(sessions: Seq<Session>, times: Seq<(String, String)>, lines: Seq<String>) -> bool {
    &&& times.len() == sessions.len()
    &&& lines.len() == sessions.len()
    &&& forall|i: int|
        0 <= i < lines.len() ==> #[trigger] lines[i]@ == session_line_text(
            sessions[i],
            times[i].0@,
            times[i].1@,
            marked_latest(sessions, i),
        )
}

/// `times` holds the local `HH:MM` texts of each session's start and end.
pub open spec fn local_session_times(sessions: Seq<Session>, times: Seq<(String, String)>) -> bool {
    forall|i: int|
        0 <= i < times.len() ==> is_local_text(
            (#[trigger] times[i]).0@,
            sessions[i].start as int,
            "%H:%M"@,
        ) && is_local_text(times[i].1@, sessions[i].end as int, "%H:%M"@)
}

/// The session listing with the local times of the sessions.
pub fn render_sessions_human(sessions: &[Session]) -> (r: Vec<String>)
    ensures
        exists|times: Seq<(String, String)>|
            local_session_times(sessions@, times) && lists_sessions(sessions@, times, r@),
{
    let mut times: Vec<(String, String)> = Vec::new();
    let mut k: usize = 0;
    while k < sessions.len()
        invariant
            k <= sessions@.len(),
            times@.len() == k,
            local_session_times(sessions@, times@),
        decreases sessions@.len() - k,
    {
        proof {
            reveal_strlit("%H:%M");
        }
        let start = local_time_text(sessions[k].start, "%H:%M");
        let end = local_time_text(sessions[k].end, "%H:%M");
        let ghost before = times@;
        times.push((start, end));
        proof {
            assert forall|i: int| 0 <= i < times@.len() implies is_local_text(
                (#[trigger] times@[i]).0@,
                sessions@[i].start as int,
                "%H:%M"@,
            ) && is_local_text(times@[i].1@, sessions@[i].end as int, "%H:%M"@) by {
                if i < k {
                    assert(times@[i] == before[i]);
                }
            }
        }
        k = k + 1;
    }
    let r = session_lines_at(sessions, &times);
    assert(local_session_times(sessions@, times@) && lists_sessions(sessions@, times@, r@));
    r
}

} // verus!
