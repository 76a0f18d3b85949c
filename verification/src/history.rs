//! History listing: its parameters, pagination cursors, scopes and the
//! activity histogram.

use vstd::prelude::*;
use vstd::string::StrSliceExecFns;
use vstd::string::StringExecFns;
use crate::clock::{parse_rfc3339, rfc3339_of, rfc3339_parse, rfc3339_text};
use crate::numbers::{lemma_parse_decimal_signed, parse_i64, spec_parse_i64};
use crate::text::{char_len, decimal_signed, push_char, push_signed, push_str, starts_with, str_starts_with};
use crate::types::{millis_between, millis_diff, HistoryCursor, OutputFormat, Snapshot, SnapshotId, UnfError, NANOS_PER_MILLI, div_trunc};

verus! {

/// Parameters of a history listing for one project.
#[derive(Clone, Debug)]
pub struct LogParams {
    /// File or directory to restrict the listing to.
    pub target: Option<String>,
    /// Lower time bound, as a time specification such as `5m`, `1h` or `2d`.
    pub since: Option<String>,
    /// Upper time bound, as a time specification.
    pub until: Option<String>,
    /// Most entries to return (JSON output).
    pub limit: u32,
    /// Glob patterns a path must match one of (all paths when empty).
    pub include_globs: Vec<String>,
    /// Glob patterns to exclude (any may match).
    pub exclude: Vec<String>,
    /// Match globs without regard to case.
    pub ignore_case: bool,
    /// Group entries by file.
    pub grouped: bool,
    /// Output format.
    pub format: OutputFormat,
    /// Return the activity histogram instead of entries (JSON output).
    pub density: bool,
    /// Number of histogram buckets.
    pub num_buckets: u32,
    /// Pagination cursor to continue from (JSON output).
    pub cursor_str: Option<String>,
}

/// Default page limit of a listing.
pub const DEFAULT_LIMIT: u32 = 1000;

/// Default number of histogram buckets.
pub const DEFAULT_BUCKETS: u32 = 100;

impl Default for LogParams {
    fn default() -> (r: Self)
        ensures
            r.target is None,
            r.since is None,
            r.until is None,
            r.limit == DEFAULT_LIMIT,
            r.include_globs@.len() == 0,
            r.exclude@.len() == 0,
            !r.ignore_case,
            !r.grouped,
            r.format == OutputFormat::Human,
            !r.density,
            r.num_buckets == DEFAULT_BUCKETS,
            r.cursor_str is None,
    {
        LogParams {
            target: None,
            since: None,
            until: None,
            limit: DEFAULT_LIMIT,
            include_globs: Vec::new(),
            exclude: Vec::new(),
            ignore_case: false,
            grouped: false,
            format: OutputFormat::Human,
            density: false,
            num_buckets: DEFAULT_BUCKETS,
            cursor_str: None,
        }
    }
}

/// Parameters of a history listing across all registered projects.
#[derive(Clone, Debug)]
pub struct GlobalLogParams {
    /// Project paths to keep (prefix match on the canonical path).
    pub include_project: Vec<String>,
    /// Project paths to exclude (prefix match on the canonical path).
    pub exclude_project: Vec<String>,
    /// Lower time bound, as a time specification.
    pub since: Option<String>,
    /// Upper time bound, as a time specification.
    pub until: Option<String>,
    /// Most entries to return (JSON output).
    pub limit: u32,
    /// Glob patterns a path must match one of (all paths when empty).
    pub include_globs: Vec<String>,
    /// Glob patterns to exclude.
    pub exclude: Vec<String>,
    /// Match globs without regard to case.
    pub ignore_case: bool,
    /// Group entries by project and file.
    pub grouped: bool,
    /// Output format.
    pub format: OutputFormat,
}

impl Default for GlobalLogParams {
    fn default() -> (r: Self)
        ensures
            r.include_project@.len() == 0,
            r.exclude_project@.len() == 0,
            r.since is None,
            r.until is None,
            r.limit == DEFAULT_LIMIT,
            r.include_globs@.len() == 0,
            r.exclude@.len() == 0,
            !r.ignore_case,
            !r.grouped,
            r.format == OutputFormat::Human,
    {
        GlobalLogParams {
            include_project: Vec::new(),
            exclude_project: Vec::new(),
            since: None,
            until: None,
            limit: DEFAULT_LIMIT,
            include_globs: Vec::new(),
            exclude: Vec::new(),
            ignore_case: false,
            grouped: false,
            format: OutputFormat::Human,
        }
    }
}

/// Parameters of the activity histogram of one project.
#[derive(Clone, Debug)]
pub struct DensityParams {
    /// Lower time bound, as a time specification.
    pub since: Option<String>,
    /// Glob patterns a path must match one of (all paths when empty).
    pub include_globs: Vec<String>,
    /// Glob patterns to exclude.
    pub exclude: Vec<String>,
    /// Match globs without regard to case.
    pub ignore_case: bool,
    /// Number of histogram buckets.
    pub num_buckets: u32,
}

impl DensityParams {
    /// Bundles the histogram parameters.
    pub fn new(
        since: Option<String>,
        include_globs: Vec<String>,
        exclude: Vec<String>,
        ignore_case: bool,
        num_buckets: u32,
    ) -> (r: Self)
        ensures
            r.since == since,
            r.include_globs == include_globs,
            r.exclude == exclude,
            r.ignore_case == ignore_case,
            r.num_buckets == num_buckets,
    {
        DensityParams { since, include_globs, exclude, ignore_case, num_buckets }
    }
}

impl Default for DensityParams {
    fn default() -> (r: Self)
        ensures
            r.since is None,
            r.include_globs@.len() == 0,
            r.exclude@.len() == 0,
            !r.ignore_case,
            r.num_buckets == DEFAULT_BUCKETS,
    {
        DensityParams {
            since: None,
            include_globs: Vec::new(),
            exclude: Vec::new(),
            ignore_case: false,
            num_buckets: DEFAULT_BUCKETS,
        }
    }
}

/// Parameters of the activity histogram across all registered projects.
#[derive(Clone, Debug)]
pub struct GlobalDensityParams {
    /// Project paths to keep (prefix match on the canonical path).
    pub include_project: Vec<String>,
    /// Project paths to exclude (prefix match on the canonical path).
    pub exclude_project: Vec<String>,
    /// Lower time bound, as a time specification.
    pub since: Option<String>,
    /// Glob patterns a path must match one of (all paths when empty).
    pub include_globs: Vec<String>,
    /// Glob patterns to exclude.
    pub exclude: Vec<String>,
    /// Match globs without regard to case.
    pub ignore_case: bool,
    /// Number of histogram buckets.
    pub num_buckets: u32,
}

impl GlobalDensityParams {
    /// Bundles the cross-project histogram parameters.
    pub fn new(
        include_project: Vec<String>,
        exclude_project: Vec<String>,
        since: Option<String>,
        include_globs: Vec<String>,
        exclude: Vec<String>,
        ignore_case: bool,
        num_buckets: u32,
    ) -> (r: Self)
        ensures
            r.include_project == include_project,
            r.exclude_project == exclude_project,
            r.since == since,
            r.include_globs == include_globs,
            r.exclude == exclude,
            r.ignore_case == ignore_case,
            r.num_buckets == num_buckets,
    {
        GlobalDensityParams {
            include_project,
            exclude_project,
            since,
            include_globs,
            exclude,
            ignore_case,
            num_buckets,
        }
    }
}

impl Default for GlobalDensityParams {
    fn default() -> (r: Self)
        ensures
            r.include_project@.len() == 0,
            r.exclude_project@.len() == 0,
            r.since is None,
            r.include_globs@.len() == 0,
            r.exclude@.len() == 0,
            !r.ignore_case,
            r.num_buckets == DEFAULT_BUCKETS,
    {
        GlobalDensityParams {
            include_project: Vec::new(),
            exclude_project: Vec::new(),
            since: None,
            include_globs: Vec::new(),
            exclude: Vec::new(),
            ignore_case: false,
            num_buckets: DEFAULT_BUCKETS,
        }
    }
}

// ---------------------------------------------------------------------------
// Cursors
// ---------------------------------------------------------------------------

/// The cursor after a page: the position of its last snapshot, or `None`
/// for an empty page.
pub fn cursor_from_page(page: &[Snapshot]) -> (r: Option<HistoryCursor>)
    ensures
        page@.len() == 0 ==> r is None,
        page@.len() > 0 ==> r == Some(
            HistoryCursor { timestamp: page@.last().timestamp, id: page@.last().id },
        ),
{
    if page.len() == 0 {
        None
    } else {
        let s = &page[page.len() - 1];
        Some(HistoryCursor { timestamp: s.timestamp, id: s.id })
    }
}

/// The text of a cursor: its instant in RFC 3339, a colon, and the snapshot id.
pub open spec fn cursor_text(c: HistoryCursor) -> Seq<char> {
    rfc3339_text(c.timestamp as int) + ":"@ + decimal_signed(c.id.0 as int)
}

/// Index of the last occurrence of `c` in `s`, or -1.
pub open spec fn last_index_of(s: Seq<char>, c: char) -> int
    decreases s.len(),
{
    if s.len() == 0 {
        -1
    } else if s.last() == c {
        s.len() - 1
    } else {
        last_index_of(s.drop_last(), c)
    }
}

/// The message for a cursor without a colon.
pub const CURSOR_FORMAT_MESSAGE: &'static str =
    "Invalid cursor format. Expected RFC3339:SnapshotId (e.g., 2026-02-12T14:32:07+00:00:42)";

/// The message chrono gives for an instant outside the supported range.
pub const OUT_OF_RANGE_MESSAGE: &'static str = "input is out of range";

/// What a cursor text denotes: the text before its last colon is an RFC
/// 3339 instant and the text after it a signed decimal snapshot id; else
/// the message that explains why not.
pub open spec fn spec_parse_cursor(s: Seq<char>) -> Result<HistoryCursor, Seq<char>> {
    let k = last_index_of(s, ':');
    if k < 0 {
        Err(CURSOR_FORMAT_MESSAGE@)
    } else {
        match rfc3339_parse(s.subrange(0, k)) {
            Err(m) => Err("Invalid cursor timestamp: "@ + m),
            Ok(t) => if !(i64::MIN <= t <= i64::MAX) {
                Err("Invalid cursor timestamp: "@ + OUT_OF_RANGE_MESSAGE@)
            } else {
                match spec_parse_i64(s.subrange(k + 1, s.len() as int)) {
                    Err(e) => Err("Invalid cursor snapshot ID: "@ + e.spec_message()),
                    Ok(v) => Ok(HistoryCursor { timestamp: t as i64, id: SnapshotId(v as i64) }),
                }
            },
        }
    }
}

/// The last colon of `a + ":" + b` is the one after `a` when `b` has none.
proof fn lemma_last_colon(a: Seq<char>, b: Seq<char>)
    requires
        forall|j: int| 0 <= j < b.len() ==> #[trigger] b[j] != ':',
    ensures
        last_index_of(a + ":"@ + b, ':') == a.len(),
    decreases b.len(),
{
    reveal_strlit(":");
    let s = a + ":"@ + b;
    if b.len() == 0 {
        assert(s.last() == ':');
    } else {
        assert(s.last() == b.last());
        assert(s.drop_last() =~= a + ":"@ + b.drop_last());
        lemma_last_colon(a, b.drop_last());
    }
}

/// Index of the last `c` in `s`, or `None`.
fn find_last(s: &str, c: char) -> (r: Option<usize>)
    ensures
        match r {
            Some(k) => k == last_index_of(s@, c) && k < s@.len(),
            None => last_index_of(s@, c) == -1,
        },
{
    let n = char_len(s);
    let mut i: usize = n;
    assert(s@.subrange(0, n as int) =~= s@);
    while i > 0
        invariant
            i <= n == s@.len(),
            last_index_of(s@, c) == last_index_of(s@.subrange(0, i as int), c),
        decreases i,
    {
        let ghost pre = s@.subrange(0, i as int);
        if s.get_char(i - 1) == c {
            return Some(i - 1);
        }
        assert(pre.drop_last() =~= s@.subrange(0, i - 1));
        i = i - 1;
    }
    None
}

/// Writes a cursor as text: its instant in RFC 3339, a colon, and the
/// snapshot id. The text parses back to the same cursor.
pub fn format_cursor(cursor: &HistoryCursor) -> (r: String)
    ensures
        r@ == cursor_text(*cursor),
        spec_parse_cursor(r@) == Ok::<HistoryCursor, Seq<char>>(*cursor),
{
    let mut r = rfc3339_of(cursor.timestamp);
    let ghost stamp = r@;
    push_char(&mut r, ':');
    push_signed(&mut r, cursor.id.0);
    proof {
        reveal_strlit(":");
        let id_text = decimal_signed(cursor.id.0 as int);
        assert(r@ =~= stamp + ":"@ + id_text);
        lemma_parse_decimal_signed(cursor.id.0);
        lemma_last_colon(stamp, id_text);
        let k = stamp.len() as int;
        assert(r@.subrange(0, k) =~= stamp);
        assert(r@.subrange(k + 1, r@.len() as int) =~= id_text);
    }
    r
}

/// Reads a cursor written by `format_cursor`: the text before the last
/// colon is an RFC 3339 instant, the text after it the snapshot id.
///
/// Each malformed part gives an invalid-argument error naming it.
pub fn parse_cursor(s: &str) -> (r: Result<HistoryCursor, UnfError>)
    ensures
        match spec_parse_cursor(s@) {
            Ok(c) => r == Ok::<HistoryCursor, UnfError>(c),
            Err(m) => r matches Err(e) && e is InvalidArgument && e.spec_message() == m,
        },
{
    let k = match find_last(s, ':') {
        Some(k) => k,
        None => {
            return Err(UnfError::InvalidArgument(String::from_str(CURSOR_FORMAT_MESSAGE)));
        },
    };
    let n = char_len(s);
    let stamp = s.substring_char(0, k);
    let id_text = s.substring_char(k + 1, n);
    let timestamp = match parse_rfc3339(stamp) {
        Ok(Some(t)) => t,
        Ok(None) => {
            let mut msg = String::from_str("Invalid cursor timestamp: ");
            push_str(&mut msg, OUT_OF_RANGE_MESSAGE);
            return Err(UnfError::InvalidArgument(msg));
        },
        Err(e) => {
            let mut msg = String::from_str("Invalid cursor timestamp: ");
            push_str(&mut msg, e.as_str());
            return Err(UnfError::InvalidArgument(msg));
        },
    };
    match parse_i64(id_text) {
        Ok(id) => Ok(HistoryCursor { timestamp, id: SnapshotId(id) }),
        Err(e) => {
            let mut msg = String::from_str("Invalid cursor snapshot ID: ");
            push_str(&mut msg, e.message());
            Err(UnfError::InvalidArgument(msg))
        },
    }
}

// ---------------------------------------------------------------------------
// Scope
// ---------------------------------------------------------------------------

/// What a listing covers.
#[derive(Clone, Copy, Debug, PartialEq, Eq, Structural)]
pub enum ScopeKind {
    All,
    File,
    Directory,
}

/// Decides the scope of a listing and its canonical target text.
///
/// No target covers everything; a target ending in `/`, or naming a
/// directory of the project (`target_is_dir`), is a directory and gets a
/// trailing `/`; any other target is a file.
pub fn determine_scope_kind(target: Option<&str>, target_is_dir: bool) -> (r: (ScopeKind, String))
    ensures
        target is None ==> r.0 == ScopeKind::All && r.1@.len() == 0,
        target matches Some(t) ==> {
            if t@.len() > 0 && t@.last() == '/' {
                r.0 == ScopeKind::Directory && r.1@ == t@
            } else if target_is_dir {
                r.0 == ScopeKind::Directory && r.1@ == t@.push('/')
            } else {
                r.0 == ScopeKind::File && r.1@ == t@
            }
        },
{
    match target {
        None => (ScopeKind::All, String::new()),
        Some(t) => {
            let n = char_len(t);
            if n > 0 && t.get_char(n - 1) == '/' {
                (ScopeKind::Directory, String::from_str(t))
            } else if target_is_dir {
                let mut s = String::from_str(t);
                push_char(&mut s, '/');
                (ScopeKind::Directory, s)
            } else {
                (ScopeKind::File, String::from_str(t))
            }
        },
    }
}

// ---------------------------------------------------------------------------
// Activity histogram
// ---------------------------------------------------------------------------

/// One bucket of the activity histogram.
#[derive(Clone, Debug, PartialEq)]
pub struct DensityBucket {
    /// RFC 3339 text of the bucket's start.
    pub start: String,
    /// RFC 3339 text of the bucket's end.
    pub end: String,
    /// Snapshots in the bucket.
    pub count: u64,
}

/// Width in milliseconds of each of `nb` buckets over `from..to`: the whole
/// span (at least one millisecond) divided evenly, at least one millisecond.
pub open spec fn bucket_width(from: int, to: int, nb: int) -> int {
    let span = millis_between(from, to);
    let total = if span > 1 {
        span
    } else {
        1
    };
    let w = total / nb;
    if w > 1 {
        w
    } else {
        1
    }
}

/// The bucket an instant falls in. An instant past the range falls in the
/// last bucket; one before the range falls in the first bucket when it is
/// less than a bucket width early, and in the last bucket otherwise (the
/// negative index wraps around as an unsigned integer and is clamped).
pub open spec fn bucket_index(ts: int, from: int, width: int, nb: int) -> int {
    let q = div_trunc(millis_between(from, ts), width);
    if q < 0 {
        nb - 1
    } else if q < nb - 1 {
        q
    } else {
        nb - 1
    }
}

/// How many of `tss` fall in bucket `i`.
pub open spec fn bucket_count(tss: Seq<i64>, from: int, width: int, nb: int, i: int) -> int
    decreases tss.len(),
{
    if tss.len() == 0 {
        0
    } else {
        bucket_count(tss.drop_last(), from, width, nb, i) + (if bucket_index(
            tss.last() as int,
            from,
            width,
            nb,
        ) == i {
            1int
        } else {
            0int
        })
    }
}

/// Start instant of bucket `i`, in nanoseconds.
pub open spec fn bucket_start(from: int, width: int, i: int) -> int {
    from + i * width * NANOS_PER_MILLI
}

/// `r` is the histogram of `tss` over `from..to` in `nb` buckets.
pub open spec fn is_histogram(tss: Seq<i64>, from: int, to: int, nb: int, r: Seq<DensityBucket>) -> bool {
    let w = bucket_width(from, to, nb);
    &&& r.len() == (if tss.len() == 0 || nb == 0 {
        0
    } else {
        nb
    })
    &&& forall|i: int|
        0 <= i < r.len() ==> {
            &&& (#[trigger] r[i]).count == bucket_count(tss, from, w, nb, i)
            &&& r[i].start@ == rfc3339_text(bucket_start(from, w, i))
            &&& r[i].end@ == rfc3339_text(
                if i == nb - 1 {
                    to
                } else {
                    bucket_start(from, w, i + 1)
                },
            )
        }
}

/// Bucket counts never exceed the number of instants.
proof fn lemma_bucket_count_bound(tss: Seq<i64>, from: int, width: int, nb: int, i: int)
    ensures
        0 <= bucket_count(tss, from, width, nb, i) <= tss.len(),
    decreases tss.len(),
{
    if tss.len() > 0 {
        lemma_bucket_count_bound(tss.drop_last(), from, width, nb, i);
    }
}

/// The counts of buckets `0..k` added up.
pub open spec fn counts_upto(tss: Seq<i64>, from: int, width: int, nb: int, k: int) -> int
    decreases k,
{
    if k <= 0 {
        0
    } else {
        counts_upto(tss, from, width, nb, k - 1) + bucket_count(tss, from, width, nb, k - 1)
    }
}

/// The counts of a histogram's buckets added up.
pub open spec fn total_count(r: Seq<DensityBucket>) -> int
    decreases r.len(),
{
    if r.len() == 0 {
        0
    } else {
        total_count(r.drop_last()) + r.last().count
    }
}

proof fn lemma_counts_upto_step(tss: Seq<i64>, from: int, width: int, nb: int, k: int)
    requires
        tss.len() > 0,
    ensures
        counts_upto(tss, from, width, nb, k) == counts_upto(tss.drop_last(), from, width, nb, k) + (
        if 0 <= bucket_index(tss.last() as int, from, width, nb) < k {
            1int
        } else {
            0int
        }),
    decreases k,
{
    if k > 0 {
        lemma_counts_upto_step(tss, from, width, nb, k - 1);
    }
}

proof fn lemma_counts_upto_all(tss: Seq<i64>, from: int, width: int, nb: int)
    requires
        nb >= 1,
    ensures
        counts_upto(tss, from, width, nb, nb) == tss.len(),
    decreases tss.len(),
{
    if tss.len() == 0 {
        lemma_counts_upto_zero(tss, from, width, nb, nb);
    } else {
        lemma_counts_upto_all(tss.drop_last(), from, width, nb);
        lemma_counts_upto_step(tss, from, width, nb, nb);
    }
}

proof fn lemma_counts_upto_zero(tss: Seq<i64>, from: int, width: int, nb: int, k: int)
    requires
        tss.len() == 0,
    ensures
        counts_upto(tss, from, width, nb, k) == 0,
    decreases k,
{
    if k > 0 {
        lemma_counts_upto_zero(tss, from, width, nb, k - 1);
    }
}

proof fn lemma_total_prefix(tss: Seq<i64>, from: int, to: int, nb: int, r: Seq<DensityBucket>, k: int)
    requires
        is_histogram(tss, from, to, nb, r),
        0 <= k <= r.len(),
    ensures
        total_count(r.subrange(0, k)) == counts_upto(tss, from, bucket_width(from, to, nb), nb, k),
    decreases k,
{
    if k > 0 {
        lemma_total_prefix(tss, from, to, nb, r, k - 1);
        assert(r.subrange(0, k).drop_last() =~= r.subrange(0, k - 1));
        assert(r[k - 1].count == bucket_count(tss, from, bucket_width(from, to, nb), nb, k - 1));
    }
}

/// Every instant is counted once: with at least one bucket, the counts of
/// a histogram add up to the number of instants.
pub proof fn lemma_histogram_counts_every_instant(
    tss: Seq<i64>,
    from: int,
    to: int,
    nb: int,
    r: Seq<DensityBucket>,
)
    requires
        is_histogram(tss, from, to, nb, r),
        nb >= 1,
    ensures
        total_count(r) == tss.len(),
{
    if tss.len() > 0 {
        lemma_total_prefix(tss, from, to, nb, r, r.len() as int);
        assert(r.subrange(0, r.len() as int) =~= r);
        lemma_counts_upto_all(tss, from, bucket_width(from, to, nb), nb);
    }
}

/// Counts the instants `timestamps` into `num_buckets` equal buckets over
/// `from..to` (see `is_histogram`). No instants, or no buckets, give no
/// buckets. The bucket bounds must be representable instants.
pub fn compute_density_buckets(timestamps: &[i64], from: i64, to: i64, num_buckets: u32) -> (r: Vec<
    DensityBucket,
>)
    requires
        from + num_buckets * bucket_width(from as int, to as int, num_buckets as int)
            * NANOS_PER_MILLI <= i64::MAX,
    ensures
        is_histogram(timestamps@, from as int, to as int, num_buckets as int, r@),
{
    let mut out: Vec<DensityBucket> = Vec::new();
    if timestamps.len() == 0 || num_buckets == 0 {
        return out;
    }
    let ghost tss = timestamps@;
    let nb = num_buckets as usize;
    let span = millis_diff(from, to);
    let total: i64 = if span > 1 {
        span
    } else {
        1
    };
    let w0: i64 = total / (num_buckets as i64);
    let width: i64 = if w0 > 1 {
        w0
    } else {
        1
    };
    assert(width == bucket_width(from as int, to as int, num_buckets as int));
    let mut counts: Vec<u64> = Vec::new();
    let mut b: usize = 0;
    while b < nb
        invariant
            b <= nb,
            counts@.len() == b,
            forall|j: int| 0 <= j < b ==> counts@[j] == 0,
        decreases nb - b,
    {
        counts.push(0);
        b = b + 1;
    }
    let mut k: usize = 0;
    while k < timestamps.len()
        invariant
            tss == timestamps@,
            nb == num_buckets as nat,
            nb >= 1,
            width >= 1,
            k <= tss.len(),
            counts@.len() == nb,
            forall|j: int|
                0 <= j < nb ==> #[trigger] counts@[j] == bucket_count(
                    tss.subrange(0, k as int),
                    from as int,
                    width as int,
                    nb as int,
                    j,
                ),
        decreases tss.len() - k,
    {
        let offset = millis_diff(from, timestamps[k]);
        let q: i64 = if offset >= 0 {
            offset / width
        } else {
            -((-(offset as i128)) / (width as i128)) as i64
        };
        let idx: usize = if q < 0 {
            nb - 1
        } else if (q as u64) < ((nb - 1) as u64) {
            q as usize
        } else {
            nb - 1
        };
        proof {
            let pre = tss.subrange(0, k as int);
            let next = tss.subrange(0, k + 1);
            assert(next.drop_last() =~= pre);
            assert(idx == bucket_index(tss[k as int] as int, from as int, width as int, nb as int));
            lemma_bucket_count_bound(pre, from as int, width as int, nb as int, idx as int);
        }
        let c = counts[idx];
        counts.set(idx, c + 1);
        k = k + 1;
    }
    assert(tss.subrange(0, tss.len() as int) =~= tss);
    let mut i: usize = 0;
    while i < nb
        invariant
            tss == timestamps@,
            nb == num_buckets as nat,
            nb >= 1,
            width == bucket_width(from as int, to as int, num_buckets as int),
            width >= 1,
            from + num_buckets * width * NANOS_PER_MILLI <= i64::MAX,
            i <= nb,
            out@.len() == i,
            counts@.len() == nb,
            forall|j: int|
                0 <= j < nb ==> #[trigger] counts@[j] == bucket_count(
                    tss,
                    from as int,
                    width as int,
                    nb as int,
                    j,
                ),
            forall|j: int|
                0 <= j < i ==> {
                    &&& (#[trigger] out@[j]).count == bucket_count(
                        tss,
                        from as int,
                        width as int,
                        nb as int,
                        j,
                    )
                    &&& out@[j].start@ == rfc3339_text(bucket_start(from as int, width as int, j))
                    &&& out@[j].end@ == rfc3339_text(
                        if j == nb - 1 {
                            to as int
                        } else {
                            bucket_start(from as int, width as int, j + 1)
                        },
                    )
                },
        decreases nb - i,
    {
        proof {
            assert(0 <= (i + 1) * width <= nb * width) by (nonlinear_arith)
                requires
                    0 <= i < nb,
                    width >= 1,
            ;
            assert(0 <= (i + 1) * width * NANOS_PER_MILLI <= nb * width * NANOS_PER_MILLI)
                by (nonlinear_arith)
                requires
                    0 <= (i + 1) * width <= nb * width,
            ;
            assert(i * width * NANOS_PER_MILLI <= (i + 1) * width * NANOS_PER_MILLI)
                by (nonlinear_arith)
                requires
                    width >= 1,
                    i >= 0,
            ;
            assert(i * width * NANOS_PER_MILLI >= 0) by (nonlinear_arith)
                requires
                    width >= 1,
                    i >= 0,
            ;
        }
        let start_ns: i64 = ((from as i128) + (i as i128) * (width as i128) * (
        NANOS_PER_MILLI as i128)) as i64;
        let end_ns: i64 = if i == nb - 1 {
            to
        } else {
            ((from as i128) + ((i + 1) as i128) * (width as i128) * (NANOS_PER_MILLI as i128)) as i64
        };
        out.push(
            DensityBucket { start: rfc3339_of(start_ns), end: rfc3339_of(end_ns), count: counts[i] },
        );
        i = i + 1;
    }
    out
}

/// The density histogram as the log reports it: the buckets, how many
/// instants they count, and the span they cover.
#[derive(Clone, Debug)]
pub struct DensityOutput {
    pub buckets: Vec<DensityBucket>,
    pub total: u64,
    /// RFC 3339 text of the earliest instant; empty without instants.
    pub from: String,
    /// RFC 3339 text of the latest instant; empty without instants.
    pub to: String,
}

/// The earliest of a non-empty sequence of instants.
pub open spec fn earliest(tss: Seq<i64>) -> int
    decreases tss.len(),
{
    if tss.len() <= 1 {
        tss[0] as int
    } else if (tss.last() as int) < earliest(tss.drop_last()) {
        tss.last() as int
    } else {
        earliest(tss.drop_last())
    }
}

/// The latest of a non-empty sequence of instants.
pub open spec fn latest(tss: Seq<i64>) -> int
    decreases tss.len(),
{
    if tss.len() <= 1 {
        tss[0] as int
    } else if (tss.last() as int) > latest(tss.drop_last()) {
        tss.last() as int
    } else {
        latest(tss.drop_last())
    }
}

/// The histogram's buckets end within the range of instants.
pub open spec fn density_fits(tss: Seq<i64>, num_buckets: u32) -> bool {
    tss.len() > 0 ==> earliest(tss) + num_buckets * bucket_width(
        earliest(tss),
        latest(tss),
        num_buckets as int,
    ) * NANOS_PER_MILLI <= i64::MAX
}

/// The density histogram of the instants (nanoseconds since the epoch),
/// over the span from the earliest to the latest. Without instants it is
/// empty, and the log reports that nothing matched.
pub fn density_output(timestamps: &[i64], num_buckets: u32) -> (r: DensityOutput)
    requires
        density_fits(timestamps@, num_buckets),
    ensures
        timestamps@.len() == 0 ==> r.buckets@.len() == 0 && r.total == 0 && r.from@.len() == 0
            && r.to@.len() == 0,
        timestamps@.len() > 0 ==> {
            &&& r.total == timestamps@.len()
            &&& r.from@ == rfc3339_text(earliest(timestamps@))
            &&& r.to@ == rfc3339_text(latest(timestamps@))
            &&& is_histogram(
                timestamps@,
                earliest(timestamps@),
                latest(timestamps@),
                num_buckets as int,
                r.buckets@,
            )
        },
{
    let n = timestamps.len();
    if n == 0 {
        return DensityOutput {
            buckets: Vec::new(),
            total: 0,
            from: String::new(),
            to: String::new(),
        };
    }
    let mut lo = timestamps[0];
    let mut hi = timestamps[0];
    let mut k: usize = 1;
    proof {
        assert(timestamps@.subrange(0, 1).len() == 1);
    }
    while k < n
        invariant
            n == timestamps@.len(),
            1 <= k <= n,
            lo == earliest(timestamps@.subrange(0, k as int)),
            hi == latest(timestamps@.subrange(0, k as int)),
        decreases n - k,
    {
        let t = timestamps[k];
        proof {
            let next = timestamps@.subrange(0, k + 1);
            assert(next.drop_last() =~= timestamps@.subrange(0, k as int));
            assert(next.last() == t);
        }
        if t < lo {
            lo = t;
        }
        if t > hi {
            hi = t;
        }
        k = k + 1;
    }
    proof {
        assert(timestamps@.subrange(0, n as int) =~= timestamps@);
    }
    let buckets = compute_density_buckets(timestamps, lo, hi, num_buckets);
    DensityOutput { buckets, total: n as u64, from: rfc3339_of(lo), to: rfc3339_of(hi) }
}

// ---------------------------------------------------------------------------
// Paging through the history
// ---------------------------------------------------------------------------

/// The error for `--density` outside JSON output.
pub const DENSITY_NEEDS_JSON: &'static str = "--density requires --json";

/// The error for `--cursor` outside JSON output.
pub const CURSOR_NEEDS_JSON: &'static str = "--cursor requires --json";

/// Checks the flags that only JSON output takes: the histogram first, then
/// the cursor.
pub fn check_json_only_flags(params: &LogParams) -> (r: Result<(), UnfError>)
    ensures
        params.density && params.format != OutputFormat::Json ==> (r matches Err(e)
            && e is InvalidArgument && e.spec_message() == DENSITY_NEEDS_JSON@),
        !(params.density && params.format != OutputFormat::Json) && params.cursor_str is Some
            && params.format != OutputFormat::Json ==> (r matches Err(e) && e is InvalidArgument
            && e.spec_message() == CURSOR_NEEDS_JSON@),
        params.format == OutputFormat::Json || (!params.density && params.cursor_str is None) ==> r is Ok,
{
    if params.density && params.format != OutputFormat::Json {
        return Err(UnfError::InvalidArgument(String::from_str(DENSITY_NEEDS_JSON)));
    }
    if params.cursor_str.is_some() && params.format != OutputFormat::Json {
        return Err(UnfError::InvalidArgument(String::from_str(CURSOR_NEEDS_JSON)));
    }
    Ok(())
}

/// Snapshots fetched per page.
pub const PAGE_SIZE: u32 = 50;

/// Most snapshots the grouped human listing collects.
pub const MAX_GROUPED_SNAPSHOTS: usize = 10000;

/// Size of the next page of a JSON listing: a full page, or what is left
/// of the limit when that is less.
pub fn json_page_size(remaining: u32) -> (r: u32)
    ensures
        r == if remaining < PAGE_SIZE {
            remaining
        } else {
            PAGE_SIZE
        },
{
    if remaining < PAGE_SIZE {
        remaining
    } else {
        PAGE_SIZE
    }
}

/// What a JSON listing does with one fetched page.
#[derive(Clone, Copy, Debug, PartialEq, Eq, Structural)]
pub struct JsonPageStep {
    /// How many of the page's matching snapshots to keep, from its start.
    pub take: usize,
    /// Stop fetching after this page.
    pub stop: bool,
    /// When stopping: more matching history may exist beyond the limit.
    pub has_more: bool,
    /// What is left of the limit for the next page.
    pub remaining: u32,
}

/// The decision a JSON listing makes on a page of `raw_len` snapshots
/// (fetched with size `page_size`), `kept` of which match the filters,
/// having `collected` snapshots of at most `limit` so far.
///
/// A page without matches ends the listing when the store returned a short
/// page, and otherwise the listing goes on (stopping, with more to come,
/// once the limit is used up). A page with matches contributes them up to
/// the limit; reaching the limit stops with more to come, and a short page
/// from the store ends the listing.
pub open spec fn json_page_decision(
    collected: int,
    limit: int,
    page_size: int,
    raw_len: int,
    kept: int,
) -> JsonPageStep {
    if kept == 0 {
        if raw_len == 0 || raw_len < page_size {
            JsonPageStep { take: 0, stop: true, has_more: false, remaining: (limit - collected) as u32 }
        } else {
            JsonPageStep {
                take: 0,
                stop: limit - collected == 0,
                has_more: limit - collected == 0,
                remaining: (limit - collected) as u32,
            }
        }
    } else {
        let room = limit - collected;
        let take = if kept < room {
            kept
        } else {
            room
        };
        let full = collected + take >= limit;
        JsonPageStep {
            take: take as usize,
            stop: full || raw_len < PAGE_SIZE,
            has_more: full,
            remaining: (limit - collected - take) as u32,
        }
    }
}

/// One step of the JSON listing's paging (see `json_page_decision`).
pub fn json_page_step(collected: usize, limit: u32, page_size: u32, raw_len: usize, kept: usize) -> (r:
    JsonPageStep)
    requires
        collected <= limit,
    ensures
        r == json_page_decision(
            collected as int,
            limit as int,
            page_size as int,
            raw_len as int,
            kept as int,
        ),
{
    let room: usize = (limit as usize) - collected;
    if kept == 0 {
        if raw_len == 0 || raw_len < page_size as usize {
            JsonPageStep { take: 0, stop: true, has_more: false, remaining: room as u32 }
        } else {
            JsonPageStep { take: 0, stop: room == 0, has_more: room == 0, remaining: room as u32 }
        }
    } else {
        let take = if kept < room {
            kept
        } else {
            room
        };
        let full = collected + take >= limit as usize;
        JsonPageStep {
            take,
            stop: full || raw_len < PAGE_SIZE as usize,
            has_more: full,
            remaining: (room - take) as u32,
        }
    }
}

/// How a human listing treats a fetched page.
#[derive(Clone, Copy, Debug, PartialEq, Eq, Structural)]
pub enum PageOutcome {
    /// The store has nothing more: the listing ends.
    Exhausted,
    /// Nothing on this page matches, but more pages may: fetch the next.
    Skip,
    /// Show the matching snapshots.
    Show,
}

/// The outcome of a page of `raw_len` snapshots fetched with size
/// `page_size`, of which some match (`any_kept`).
pub open spec fn page_outcome_of(raw_len: int, page_size: int, any_kept: bool) -> PageOutcome {
    if any_kept {
        PageOutcome::Show
    } else if raw_len == 0 || raw_len < page_size {
        PageOutcome::Exhausted
    } else {
        PageOutcome::Skip
    }
}

/// Classifies a fetched page for a human listing.
pub fn page_outcome(raw_len: usize, page_size: u32, any_kept: bool) -> (r: PageOutcome)
    ensures
        r == page_outcome_of(raw_len as int, page_size as int, any_kept),
{
    if any_kept {
        PageOutcome::Show
    } else if raw_len == 0 || raw_len < page_size as usize {
        PageOutcome::Exhausted
    } else {
        PageOutcome::Skip
    }
}

/// The message when a listing finds nothing: `No history for all files.`
/// or `No history for "TARGET".`
pub open spec fn no_history_text(target: Seq<char>) -> Seq<char> {
    if target.len() == 0 {
        "No history for all files."@
    } else {
        "No history for \""@ + target + "\"."@
    }
}

/// The no-results error of a listing scoped to `target` (empty for all files).
pub fn no_history_error(target: &str) -> (r: UnfError)
    ensures
        r is NoResults,
        r.spec_message() == no_history_text(target@),
{
    let mut m = String::new();
    if char_len(target) == 0 {
        push_str(&mut m, "No history for all files.");
    } else {
        push_str(&mut m, "No history for \"");
        push_str(&mut m, target);
        push_str(&mut m, "\".");
    }
    assert(m@ =~= no_history_text(target@));
    UnfError::NoResults(m)
}

// ---------------------------------------------------------------------------
// Merging the histories of several projects
// ---------------------------------------------------------------------------

/// Key `a` sorts after key `b`: later instant, or same instant and larger id.
pub open spec fn key_after(a: (i64, i64), b: (i64, i64)) -> bool {
    a.0 > b.0 || (a.0 == b.0 && a.1 > b.1)
}

/// Which stream to take the next snapshot from when merging histories
/// newest first: among the streams that have a next snapshot (its instant
/// and id), the first one whose key is largest; `None` when all are done.
pub fn pick_newest(heads: &[Option<(i64, i64)>]) -> (r: Option<usize>)
    ensures
        r is None <==> forall|j: int| 0 <= j < heads@.len() ==> heads@[j] is None,
        r matches Some(i) ==> {
            &&& i < heads@.len()
            &&& heads@[i as int] is Some
            &&& forall|j: int|
                0 <= j < heads@.len() && heads@[j] is Some ==> !key_after(
                    heads@[j]->0,
                    heads@[i as int]->0,
                )
            &&& forall|j: int|
                0 <= j < i && heads@[j] is Some ==> key_after(heads@[i as int]->0, heads@[j]->0)
        },
{
    let mut best: Option<usize> = None;
    let mut k: usize = 0;
    while k < heads.len()
        invariant
            k <= heads@.len(),
            best is None <==> forall|j: int| 0 <= j < k ==> heads@[j] is None,
            best matches Some(i) ==> {
                &&& i < k
                &&& heads@[i as int] is Some
                &&& forall|j: int|
                    0 <= j < k && heads@[j] is Some ==> !key_after(
                        heads@[j]->0,
                        heads@[i as int]->0,
                    )
                &&& forall|j: int|
                    0 <= j < i && heads@[j] is Some ==> key_after(
                        heads@[i as int]->0,
                        heads@[j]->0,
                    )
            },
        decreases heads@.len() - k,
    {
        match heads[k] {
            Some(key) => {
                match best {
                    None => {
                        best = Some(k);
                    },
                    Some(b) => {
                        let bk = heads[b].unwrap();
                        if key.0 > bk.0 || (key.0 == bk.0 && key.1 > bk.1) {
                            best = Some(k);
                        }
                    },
                }
            },
            None => {},
        }
        k = k + 1;
    }
    best
}

/// Stream `i` holds the newest next snapshot: it has one, no stream's
/// next snapshot sorts after it, and every earlier stream's sorts before it.
pub open spec fn newest_head(heads: Seq<Option<(i64, i64)>>, i: int) -> bool {
    &&& 0 <= i < heads.len()
    &&& heads[i] is Some
    &&& forall|j: int| 0 <= j < heads.len() && heads[j] is Some ==> !key_after(heads[j]->0, heads[i]->0)
    &&& forall|j: int| 0 <= j < i && heads[j] is Some ==> key_after(heads[i]->0, heads[j]->0)
}

/// Most snapshots a cross-project listing collects for people to read.
pub const HUMAN_MERGE_CAP: usize = 10000;

/// Most snapshots a cross-project listing collects: the requested limit in
/// JSON, a fixed cap for people.
pub fn merge_limit(format: OutputFormat, limit: u32) -> (r: usize)
    ensures
        r == match format {
            OutputFormat::Json => limit as usize,
            OutputFormat::Human => HUMAN_MERGE_CAP,
        },
{
    match format {
        OutputFormat::Json => limit as usize,
        OutputFormat::Human => HUMAN_MERGE_CAP,
    }
}

/// The next step of merging project histories newest first.
#[derive(Clone, Copy, Debug, PartialEq, Eq, Structural)]
pub enum MergeStep {
    /// The limit is reached or every stream is done.
    Stop,
    /// Take the next snapshot of this stream.
    Take(usize),
}

/// Decides the next merge step, given how many snapshots are collected, the
/// limit, and each stream's next snapshot (instant and id).
pub fn merge_step(collected: usize, limit: usize, heads: &[Option<(i64, i64)>]) -> (r: MergeStep)
    ensures
        collected >= limit ==> r == MergeStep::Stop,
        collected < limit ==> ((r == MergeStep::Stop) <==> forall|j: int|
            0 <= j < heads@.len() ==> heads@[j] is None),
        r matches MergeStep::Take(i) ==> newest_head(heads@, i as int),
{
    if collected >= limit {
        return MergeStep::Stop;
    }
    match pick_newest(heads) {
        Some(i) => MergeStep::Take(i),
        None => MergeStep::Stop,
    }
}

/// The message when no selected project's store opens.
pub const NO_ACCESSIBLE_PROJECTS_MESSAGE: &'static str = "No accessible projects found.";

/// The message when the merged listing is empty.
pub const NO_CROSS_PROJECT_CHANGES_MESSAGE: &'static str = "No changes found across projects.";

/// A cross-project listing needs at least one project whose store opened.
pub fn check_open_projects(opened: usize) -> (r: Result<(), UnfError>)
    ensures
        r is Ok <==> opened > 0,
        r matches Err(e) ==> e is NoResults && e.spec_message() == NO_ACCESSIBLE_PROJECTS_MESSAGE@,
{
    if opened == 0 {
        Err(UnfError::NoResults(String::from_str(NO_ACCESSIBLE_PROJECTS_MESSAGE)))
    } else {
        Ok(())
    }
}

/// A cross-project listing that collected nothing is a no-results error.
pub fn check_merged(collected: usize) -> (r: Result<(), UnfError>)
    ensures
        r is Ok <==> collected > 0,
        r matches Err(e) ==> e is NoResults && e.spec_message() == NO_CROSS_PROJECT_CHANGES_MESSAGE@,
{
    if collected == 0 {
        Err(UnfError::NoResults(String::from_str(NO_CROSS_PROJECT_CHANGES_MESSAGE)))
    } else {
        Ok(())
    }
}

// ---------------------------------------------------------------------------
// Choosing projects
// ---------------------------------------------------------------------------

/// A registered project, with its storage directory when that exists.
#[derive(Clone, Debug)]
pub struct RegisteredProject {
    /// Canonical path of the project.
    pub path: String,
    /// Storage directory of the project, when it exists.
    pub storage_dir: Option<String>,
}

/// A project takes part: it matches a kept prefix (or none is given),
/// matches no excluded prefix, and has storage.
pub open spec fn project_selected(
    p: RegisteredProject,
    keep: Seq<Seq<char>>,
    drop: Seq<Seq<char>>,
) -> bool {
    &&& (keep.len() == 0 || exists|i: int| 0 <= i < keep.len() && starts_with(p.path@, keep[i]))
    &&& !exists|i: int| 0 <= i < drop.len() && starts_with(p.path@, drop[i])
    &&& p.storage_dir is Some
}

/// The projects of `ps` that take part, in order, as (path, storage) pairs.
pub open spec fn selected_projects(
    ps: Seq<RegisteredProject>,
    keep: Seq<Seq<char>>,
    drop: Seq<Seq<char>>,
) -> Seq<(Seq<char>, Seq<char>)>
    decreases ps.len(),
{
    if ps.len() == 0 {
        Seq::empty()
    } else {
        let rest = selected_projects(ps.drop_last(), keep, drop);
        if project_selected(ps.last(), keep, drop) {
            rest.push((ps.last().path@, ps.last().storage_dir->0@))
        } else {
            rest
        }
    }
}

/// Whether some prefix in `prefixes` begins `path`.
fn any_prefix(path: &str, prefixes: &[String]) -> (r: bool)
    ensures
        r == exists|i: int| 0 <= i < prefixes@.len() && starts_with(path@, prefixes@[i]@),
{
    let mut k: usize = 0;
    while k < prefixes.len()
        invariant
            k <= prefixes@.len(),
            forall|i: int| 0 <= i < k ==> !starts_with(path@, #[trigger] prefixes@[i]@),
        decreases prefixes@.len() - k,
    {
        if str_starts_with(path, prefixes[k].as_str()) {
            return true;
        }
        k = k + 1;
    }
    false
}

/// The views of a slice of strings.
pub open spec fn str_views(v: Seq<String>) -> Seq<Seq<char>> {
    Seq::new(v.len(), |i: int| v[i]@)
}

/// The message when no project is registered.
pub const NO_PROJECTS_MESSAGE: &'static str =
    "No projects registered. Run `unf watch` in a project directory first.";

/// The message when no registered project takes part.
pub const NO_MATCHING_PROJECTS_MESSAGE: &'static str = "No matching projects found.";

/// Chooses the projects of a cross-project query: those matching one of
/// the `include_prefixes` (all when there are none), none of the
/// `exclude_prefixes`, and having storage; in registry order.
///
/// An empty registry, or no project left, is an invalid-argument error.
pub fn resolve_global_projects(
    registered: &[RegisteredProject],
    include_prefixes: &[String],
    exclude_prefixes: &[String],
) -> (r: Result<Vec<(String, String)>, UnfError>)
    ensures
        registered@.len() == 0 ==> (r matches Err(e) && e is InvalidArgument && e.spec_message()
            == NO_PROJECTS_MESSAGE@),
        registered@.len() > 0 ==> {
            let sel = selected_projects(
                registered@,
                str_views(include_prefixes@),
                str_views(exclude_prefixes@),
            );
            match r {
                Ok(v) => sel.len() > 0 && v@.len() == sel.len() && forall|k: int|
                    0 <= k < v@.len() ==> (#[trigger] v@[k]).0@ == sel[k].0 && v@[k].1@ == sel[k].1,
                Err(e) => sel.len() == 0 && e is InvalidArgument && e.spec_message()
                    == NO_MATCHING_PROJECTS_MESSAGE@,
            }
        },
{
    if registered.len() == 0 {
        return Err(UnfError::InvalidArgument(String::from_str(NO_PROJECTS_MESSAGE)));
    }
    let ghost keep = str_views(include_prefixes@);
    let ghost drop = str_views(exclude_prefixes@);
    let mut out: Vec<(String, String)> = Vec::new();
    let mut k: usize = 0;
    while k < registered.len()
        invariant
            k <= registered@.len(),
            keep == str_views(include_prefixes@),
            drop == str_views(exclude_prefixes@),
            out@.len() == selected_projects(registered@.subrange(0, k as int), keep, drop).len(),
            forall|j: int|
                0 <= j < out@.len() ==> (#[trigger] out@[j]).0@ == selected_projects(
                    registered@.subrange(0, k as int),
                    keep,
                    drop,
                )[j].0 && out@[j].1@ == selected_projects(
                    registered@.subrange(0, k as int),
                    keep,
                    drop,
                )[j].1,
        decreases registered@.len() - k,
    {
        let p = &registered[k];
        let ghost pre = registered@.subrange(0, k as int);
        let ghost next = registered@.subrange(0, k + 1);
        proof {
            assert(next.drop_last() =~= pre);
        }
        let kept = include_prefixes.len() == 0 || any_prefix(p.path.as_str(), include_prefixes);
        let dropped = any_prefix(p.path.as_str(), exclude_prefixes);
        proof {
            assert((exists|i: int| 0 <= i < include_prefixes@.len() && starts_with(p.path@, include_prefixes@[i]@))
                == (exists|i: int| 0 <= i < keep.len() && starts_with(p.path@, keep[i]))) by {
                if exists|i: int| 0 <= i < include_prefixes@.len() && starts_with(p.path@, include_prefixes@[i]@) {
                    let i = choose|i: int| 0 <= i < include_prefixes@.len() && starts_with(p.path@, include_prefixes@[i]@);
                    assert(keep[i] == include_prefixes@[i]@);
                }
                if exists|i: int| 0 <= i < keep.len() && starts_with(p.path@, keep[i]) {
                    let i = choose|i: int| 0 <= i < keep.len() && starts_with(p.path@, keep[i]);
                    assert(keep[i] == include_prefixes@[i]@);
                }
            }
            assert((exists|i: int| 0 <= i < exclude_prefixes@.len() && starts_with(p.path@, exclude_prefixes@[i]@))
                == (exists|i: int| 0 <= i < drop.len() && starts_with(p.path@, drop[i]))) by {
                if exists|i: int| 0 <= i < exclude_prefixes@.len() && starts_with(p.path@, exclude_prefixes@[i]@) {
                    let i = choose|i: int| 0 <= i < exclude_prefixes@.len() && starts_with(p.path@, exclude_prefixes@[i]@);
                    assert(drop[i] == exclude_prefixes@[i]@);
                }
                if exists|i: int| 0 <= i < drop.len() && starts_with(p.path@, drop[i]) {
                    let i = choose|i: int| 0 <= i < drop.len() && starts_with(p.path@, drop[i]);
                    assert(drop[i] == exclude_prefixes@[i]@);
                }
            }
        }
        if kept && !dropped {
            match &p.storage_dir {
                Some(dir) => {
                    out.push((p.path.clone(), dir.clone()));
                },
                None => {},
            }
        }
        k = k + 1;
    }
    assert(registered@.subrange(0, registered@.len() as int) =~= registered@);
    if out.len() == 0 {
        return Err(UnfError::InvalidArgument(String::from_str(NO_MATCHING_PROJECTS_MESSAGE)));
    }
    Ok(out)
}

} // verus!
