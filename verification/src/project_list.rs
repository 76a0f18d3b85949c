//! The table of registered projects.

use vstd::prelude::*;
use vstd::string::StringExecFns;
use vstd::utf8::encode_utf8;
use crate::output::{format_number, format_size, group_thousands, size_text, DIM, GREEN, RED, RESET, YELLOW};
use crate::output::{duration_text, format_duration_ago};
use crate::types::{seconds_between, seconds_diff};
use crate::text::{
    copy_strings, decimal, join, pad_left, pad_right, push_decimal, push_padded_left, push_padded_right,
    push_str, str_eq, views,
};

verus! {

/// Header of the verbose gitignore column.
pub const GITIGNORE_HEADER: &'static str = "GITIGNORE";

/// Header of the verbose column of recorded excluded directories.
pub const UNIGNORED_HEADER: &'static str = "UNIGNORED";

/// Cell shown when no excluded directory is recorded: a dash, since an
/// empty cell reads as missing data.
pub const UNIGNORED_EMPTY: &'static str = "-";

/// How many directory names the column spells out before a `+N` remainder.
pub const UNIGNORED_NAMES_SHOWN: usize = 2;

/// Suffix of the status of a project that records gitignored files.
pub const FORCE_GITIGNORE_MARKER: &'static str = "*";

/// Footnote under a table that shows the marker.
pub const MARKER_FOOTNOTE: &'static str =
    "* --force-watch-gitignore is on. This project records gitignored files.";

/// The status suffix of a project: the marker when it records gitignored
/// files, else nothing.
pub fn status_marker(force_watch_gitignore: bool) -> (r: &'static str)
    ensures
        force_watch_gitignore ==> r@ == FORCE_GITIGNORE_MARKER@,
        !force_watch_gitignore ==> r@ == Seq::<char>::empty(),
{
    if force_watch_gitignore {
        FORCE_GITIGNORE_MARKER
    } else {
        proof {
            reveal_strlit("");
        }
        ""
    }
}

/// The verbose gitignore cell: `forced` or `respected`.
pub fn gitignore_label(force_watch_gitignore: bool) -> (r: &'static str)
    ensures
        force_watch_gitignore ==> r@ == "forced"@,
        !force_watch_gitignore ==> r@ == "respected"@,
{
    if force_watch_gitignore {
        "forced"
    } else {
        "respected"
    }
}

/// The cell of recorded excluded directories (already sorted and distinct):
/// a dash for none, the first two names joined by commas, and `+N` for the
/// `N` names left out.
pub open spec fn unignored_text(dirs: Seq<Seq<char>>) -> Seq<char> {
    if dirs.len() == 0 {
        UNIGNORED_EMPTY@
    } else if dirs.len() <= UNIGNORED_NAMES_SHOWN {
        join(dirs, ","@)
    } else {
        join(dirs.subrange(0, UNIGNORED_NAMES_SHOWN as int), ","@) + "+"@ + decimal(
            (dirs.len() - UNIGNORED_NAMES_SHOWN) as nat,
        )
    }
}

/// The cell of recorded excluded directories.
pub fn unignored_label(dirs: &[String]) -> (r: String)
    ensures
        r@ == unignored_text(views(dirs@)),
{
    let n = dirs.len();
    if n == 0 {
        return String::from_str(UNIGNORED_EMPTY);
    }
    let mut r = String::new();
    push_str(&mut r, dirs[0].as_str());
    if n >= 2 {
        push_str(&mut r, ",");
        push_str(&mut r, dirs[1].as_str());
    }
    proof {
        let v = views(dirs@);
        let shown = if n <= 2 {
            v
        } else {
            v.subrange(0, 2)
        };
        assert(v[0] == dirs@[0]@);
        if n == 1 {
            assert(shown =~= seq![v[0]]);
        } else {
            assert(v[1] == dirs@[1]@);
            assert(shown.len() == 2);
            assert(shown.drop_last() =~= seq![v[0]]);
            assert(join(shown.drop_last(), ","@) == v[0]);
            assert(shown.last() == v[1]);
            assert(r@ =~= join(shown, ","@));
        }
    }
    if n > 2 {
        push_str(&mut r, "+");
        push_decimal(&mut r, (n - 2) as u64);
    }
    r
}

/// The color of a status word, if it has one.
pub open spec fn status_color(status: Seq<char>) -> Option<Seq<char>> {
    if status == "watching"@ {
        Some(GREEN@)
    } else if status == "stopped"@ {
        Some(YELLOW@)
    } else if status == "crashed"@ || status == "orphaned"@ || status == "error"@ {
        Some(RED@)
    } else {
        None
    }
}

/// A status cell: the status word and its marker, padded to `width`
/// characters, then wrapped in the color of the bare status word when
/// colored (so the marker never changes the color, and the escapes do not
/// count toward the width).
pub open spec fn status_cell(status: Seq<char>, marker: Seq<char>, width: nat, colored: bool) -> Seq<char> {
    let padded = pad_right(status + marker, width);
    if colored {
        match status_color(status) {
            Some(c) => c + padded + RESET@,
            None => padded,
        }
    } else {
        padded
    }
}

/// Renders one status cell (see `status_cell`).
pub fn render_status_cell(status: &str, marker: &str, width: usize, use_color: bool) -> (r: String)
    ensures
        r@ == status_cell(status@, marker@, width as nat, use_color),
{
    let mut text = String::from_str(status);
    push_str(&mut text, marker);
    let mut padded = String::new();
    push_padded_right(&mut padded, text.as_str(), width);
    if !use_color {
        return padded;
    }
    let color: Option<&'static str> = if str_eq(status, "watching") {
        Some(GREEN)
    } else if str_eq(status, "stopped") {
        Some(YELLOW)
    } else if str_eq(status, "crashed") || str_eq(status, "orphaned") || str_eq(status, "error") {
        Some(RED)
    } else {
        None
    };
    match color {
        Some(c) => {
            let mut r = String::from_str(c);
            push_str(&mut r, padded.as_str());
            push_str(&mut r, RESET);
            r
        },
        None => padded,
    }
}

/// The status of a registered project: `error` when its storage cannot be
/// found, `orphaned` when its directory is gone, else `watching` when the
/// daemon records it, `stopped` when it was stopped on purpose, and
/// `crashed` otherwise.
pub open spec fn status_word(storage_found: bool, project_exists: bool, recording: bool, stopped: bool) -> Seq<char> {
    if !storage_found {
        "error"@
    } else if !project_exists {
        "orphaned"@
    } else if recording {
        "watching"@
    } else if stopped {
        "stopped"@
    } else {
        "crashed"@
    }
}

/// Decides the status of a registered project (see `status_word`).
pub fn project_status(storage_found: bool, project_exists: bool, recording: bool, stopped: bool) -> (r: &'static str)
    ensures
        r@ == status_word(storage_found, project_exists, recording, stopped),
{
    if !storage_found {
        "error"
    } else if !project_exists {
        "orphaned"
    } else if recording {
        "watching"
    } else if stopped {
        "stopped"
    } else {
        "crashed"
    }
}

/// What the list shows of a registered project.
#[derive(Clone, Debug)]
pub struct ProjectInfo {
    pub path: String,
    /// Bare status word; never carries the marker.
    pub status: String,
    pub snapshots: Option<u64>,
    pub store_bytes: Option<u64>,
    pub tracked_files: Option<u64>,
    /// Local text of the oldest snapshot's instant.
    pub recording_since: Option<String>,
    /// How long ago the newest snapshot was taken.
    pub last_activity: Option<String>,
    pub force_watch_gitignore: bool,
    /// Recorded excluded directories, sorted; empty when none.
    pub unignored_dirs: Vec<String>,
    /// Instant of the oldest snapshot (nanoseconds since the epoch).
    pub oldest_snapshot_time: Option<i64>,
    /// Instant of the newest snapshot.
    pub newest_snapshot_time: Option<i64>,
}

/// What the project's history could tell: each figure where its query
/// succeeded.
#[derive(Clone, Debug)]
pub struct HistoryFigures {
    pub snapshots: Option<u64>,
    pub store_bytes: Option<u64>,
    pub tracked_files: Option<u64>,
    /// Instant of the oldest snapshot (nanoseconds since the epoch).
    pub oldest: Option<i64>,
    /// Instant of the newest snapshot.
    pub newest: Option<i64>,
}

/// `ProjectInfo` is what the list shows of a project with this status,
/// these settings and, where the history could be opened, these figures:
/// the newest snapshot's age measured at `now`.
pub open spec fn is_project_info(
    info: ProjectInfo,
    path: Seq<char>,
    status: Seq<char>,
    force_watch_gitignore: bool,
    unignored_dirs: Seq<Seq<char>>,
    figures: Option<HistoryFigures>,
    recording_since: Option<Seq<char>>,
    now: int,
) -> bool {
    &&& info.path@ == path
    &&& info.status@ == status
    &&& info.force_watch_gitignore == force_watch_gitignore
    &&& views(info.unignored_dirs@) == unignored_dirs
    &&& match figures {
        None => {
            &&& info.snapshots is None
            &&& info.store_bytes is None
            &&& info.tracked_files is None
            &&& info.recording_since is None
            &&& info.last_activity is None
            &&& info.oldest_snapshot_time is None
            &&& info.newest_snapshot_time is None
        },
        Some(f) => {
            &&& info.snapshots == f.snapshots
            &&& info.store_bytes == f.store_bytes
            &&& info.tracked_files == f.tracked_files
            &&& info.oldest_snapshot_time == f.oldest
            &&& info.newest_snapshot_time == f.newest
            &&& (f.oldest is Some <==> info.recording_since is Some)
            &&& (info.recording_since matches Some(t) ==> recording_since == Some(t@))
            &&& match f.newest {
                None => info.last_activity is None,
                Some(t) => info.last_activity matches Some(a) && a@ == duration_text(
                    seconds_between(t as int, now),
                ) + " ago"@,
            }
        },
    }
}

/// Builds what the list shows of a project. `figures` is `None` when the
/// storage is missing or the history could not be opened; `recording_since`
/// is the local text of the oldest snapshot's instant, used when there is
/// one.
pub fn gather_project_info(
    path: &str,
    status: &str,
    force_watch_gitignore: bool,
    unignored_dirs: &Vec<String>,
    figures: Option<HistoryFigures>,
    recording_since: Option<String>,
    now: i64,
) -> (r: ProjectInfo)
    requires
        figures matches Some(f) ==> (f.oldest is Some ==> recording_since is Some),
    ensures
        is_project_info(
            r,
            path@,
            status@,
            force_watch_gitignore,
            views(unignored_dirs@),
            figures,
            match recording_since {
                Some(t) => Some(t@),
                None => None,
            },
            now as int,
        ),
{
    let dirs = copy_strings(unignored_dirs);
    match figures {
        None => ProjectInfo {
            path: String::from_str(path),
            status: String::from_str(status),
            snapshots: None,
            store_bytes: None,
            tracked_files: None,
            recording_since: None,
            last_activity: None,
            force_watch_gitignore,
            unignored_dirs: dirs,
            oldest_snapshot_time: None,
            newest_snapshot_time: None,
        },
        Some(f) => {
            let since = match f.oldest {
                Some(_) => recording_since,
                None => None,
            };
            let activity = match f.newest {
                Some(t) => Some(format_duration_ago(seconds_diff(t, now))),
                None => None,
            };
            ProjectInfo {
                path: String::from_str(path),
                status: String::from_str(status),
                snapshots: f.snapshots,
                store_bytes: f.store_bytes,
                tracked_files: f.tracked_files,
                recording_since: since,
                last_activity: activity,
                force_watch_gitignore,
                unignored_dirs: dirs,
                oldest_snapshot_time: f.oldest,
                newest_snapshot_time: f.newest,
            }
        },
    }
}

/// One row of the table, as text cells.
#[derive(Clone, Debug)]
pub struct ListRow {
    pub path: String,
    /// Bare status word.
    pub status: String,
    /// `*` or nothing.
    pub marker: String,
    pub snapshots: String,
    pub size: String,
    pub files: String,
    pub gitignore: String,
    pub unignored: String,
    pub range: String,
}

/// A count cell: the grouped number, or `--` when unknown.
pub open spec fn count_cell(n: Option<u64>) -> Seq<char> {
    match n {
        Some(k) => group_thousands(decimal(k as nat)),
        None => "--"@,
    }
}

/// The range cell from the local date of the oldest snapshot and the
/// recency of the newest: `DATE – RECENCY`, `?` for a missing side, `--`
/// when both are missing.
pub open spec fn range_cell(oldest: Option<Seq<char>>, newest: Option<Seq<char>>) -> Seq<char> {
    match (oldest, newest) {
        (Some(o), Some(n)) => o + " – "@ + n,
        (Some(o), None) => o + " – ?"@,
        (None, Some(n)) => "? – "@ + n,
        (None, None) => "--"@,
    }
}

/// `r` is the row of `info`, shown at `path`, with the given date texts.
pub open spec fn row_of(info: ProjectInfo, path: Seq<char>, oldest: Option<Seq<char>>, newest: Option<Seq<char>>, r: ListRow) -> bool {
    &&& r.path@ == path
    &&& r.status@ == info.status@
    &&& r.marker@ == (if info.force_watch_gitignore {
        FORCE_GITIGNORE_MARKER@
    } else {
        Seq::empty()
    })
    &&& r.snapshots@ == count_cell(info.snapshots)
    &&& r.size@ == (match info.store_bytes {
        Some(b) => size_text(b as nat),
        None => "--"@,
    })
    &&& r.files@ == count_cell(info.tracked_files)
    &&& r.gitignore@ == (if info.force_watch_gitignore {
        "forced"@
    } else {
        "respected"@
    })
    &&& r.unignored@ == unignored_text(views(info.unignored_dirs@))
    &&& r.range@ == range_cell(oldest, newest)
}

/// A count cell.
fn count_text(n: Option<u64>) -> (r: String)
    ensures
        r@ == count_cell(n),
{
    match n {
        Some(k) => format_number(k),
        None => String::from_str("--"),
    }
}

/// The table row of a project, given the path to show and the local date
/// of its oldest snapshot and recency of its newest (see `row_of`).
pub fn list_row(info: &ProjectInfo, path: &str, oldest: Option<&str>, newest: Option<&str>) -> (r: ListRow)
    ensures
        row_of(*info, path@, match oldest {
            Some(o) => Some(o@),
            None => None,
        }, match newest {
            Some(n) => Some(n@),
            None => None,
        }, r),
{
    let range = match (oldest, newest) {
        (Some(o), Some(n)) => {
            let mut s = String::from_str(o);
            push_str(&mut s, " – ");
            push_str(&mut s, n);
            s
        },
        (Some(o), None) => {
            let mut s = String::from_str(o);
            push_str(&mut s, " – ?");
            s
        },
        (None, Some(n)) => {
            let mut s = String::from_str("? – ");
            push_str(&mut s, n);
            s
        },
        (None, None) => String::from_str("--"),
    };
    ListRow {
        path: String::from_str(path),
        status: info.status.clone(),
        marker: String::from_str(status_marker(info.force_watch_gitignore)),
        snapshots: count_text(info.snapshots),
        size: match info.store_bytes {
            Some(b) => format_size(b),
            None => String::from_str("--"),
        },
        files: count_text(info.tracked_files),
        gitignore: String::from_str(gitignore_label(info.force_watch_gitignore)),
        unignored: unignored_label(info.unignored_dirs.as_slice()),
        range,
    }
}

/// Length in bytes of the UTF-8 text of `s`.
pub open spec fn byte_len(s: Seq<char>) -> nat {
    encode_utf8(s).len()
}

/// The width of table column `col` of a row, in bytes (the status column
/// counts the marker too).
pub open spec fn cell_width(r: ListRow, col: int) -> nat {
    if col == 0 {
        byte_len(r.path@)
    } else if col == 1 {
        byte_len(r.status@) + byte_len(r.marker@)
    } else if col == 2 {
        byte_len(r.snapshots@)
    } else if col == 3 {
        byte_len(r.size@)
    } else if col == 4 {
        byte_len(r.files@)
    } else if col == 5 {
        byte_len(r.gitignore@)
    } else {
        byte_len(r.unignored@)
    }
}

/// Every cell of the row has a byte width that a `usize` counts.
pub open spec fn row_fits(r: ListRow) -> bool {
    forall|c: int| 0 <= c < 7 ==> #[trigger] cell_width(r, c) <= usize::MAX
}

/// Width of column `col` over the rows: the widest cell, at least `init`.
pub open spec fn column_width(rows: Seq<ListRow>, col: int, init: nat) -> nat
    decreases rows.len(),
{
    if rows.len() == 0 {
        init
    } else {
        let w = column_width(rows.drop_last(), col, init);
        let c = cell_width(rows.last(), col);
        if c > w {
            c
        } else {
            w
        }
    }
}

/// The widths of the seven columns (path, status, snapshots, size, files,
/// gitignore, unignored), each at least as wide as its header.
pub open spec fn widths(rows: Seq<ListRow>) -> Seq<nat> {
    seq![
        column_width(rows, 0, 7),
        column_width(rows, 1, 6),
        column_width(rows, 2, 9),
        column_width(rows, 3, 4),
        column_width(rows, 4, 5),
        column_width(rows, 5, 9),
        column_width(rows, 6, 9),
    ]
}

/// The main part of the header line.
pub open spec fn header_main(w0: nat, w1: nat, w2: nat, w3: nat) -> Seq<char> {
    pad_right("PROJECT"@, w0) + "  "@ + pad_right("STATUS"@, w1) + "  "@ + pad_left("SNAPSHOTS"@, w2)
        + "  "@ + pad_left("SIZE"@, w3)
}

/// The verbose part of the header line.
pub open spec fn header_verbose(w4: nat, w5: nat, w6: nat) -> Seq<char> {
    "  "@ + pad_left("FILES"@, w4) + "  "@ + pad_right(GITIGNORE_HEADER@, w5) + "  "@ + pad_right(
        UNIGNORED_HEADER@,
        w6,
    )
}

/// The header line of the table (dim when colored; the reset follows the
/// line's newline).
pub open spec fn table_header(w: Seq<nat>, verbose: bool, colored: bool) -> Seq<char> {
    (if colored {
        DIM@
    } else {
        Seq::empty()
    }) + header_main(w[0], w[1], w[2], w[3]) + (if verbose {
        header_verbose(w[4], w[5], w[6])
    } else {
        Seq::empty()
    }) + "  RANGE\n"@ + (if colored {
        RESET@
    } else {
        Seq::empty()
    })
}

/// The main part of a row line.
pub open spec fn row_main(r: ListRow, w0: nat, w1: nat, w2: nat, w3: nat, colored: bool) -> Seq<char> {
    pad_right(r.path@, w0) + "  "@ + status_cell(r.status@, r.marker@, w1, colored) + "  "@
        + pad_left(r.snapshots@, w2) + "  "@ + pad_left(r.size@, w3)
}

/// The verbose part of a row line.
pub open spec fn row_verbose(r: ListRow, w4: nat, w5: nat, w6: nat) -> Seq<char> {
    "  "@ + pad_left(r.files@, w4) + "  "@ + pad_right(r.gitignore@, w5) + "  "@ + pad_right(
        r.unignored@,
        w6,
    )
}

/// One row line of the table.
pub open spec fn table_row(r: ListRow, w: Seq<nat>, verbose: bool, colored: bool) -> Seq<char> {
    row_main(r, w[0], w[1], w[2], w[3], colored) + (if verbose {
        row_verbose(r, w[4], w[5], w[6])
    } else {
        Seq::empty()
    }) + "  "@ + r.range@ + "\n"@
}

/// The row lines of the first `k` rows.
pub open spec fn table_rows(rows: Seq<ListRow>, w: Seq<nat>, verbose: bool, colored: bool, k: int) -> Seq<char>
    decreases k,
{
    if k <= 0 {
        Seq::empty()
    } else {
        table_rows(rows, w, verbose, colored, k - 1) + table_row(rows[k - 1], w, verbose, colored)
    }
}

/// Some of the first `k` rows carries the marker.
pub open spec fn has_marked(rows: Seq<ListRow>, k: int) -> bool {
    exists|i: int| 0 <= i < k && #[trigger] rows[i].marker@.len() > 0
}

/// The footnote, when a row is marked.
pub open spec fn footnote(marked: bool) -> Seq<char> {
    if marked {
        "\n"@ + MARKER_FOOTNOTE@ + "\n"@
    } else {
        Seq::empty()
    }
}

/// The whole table: header, rows, and the footnote when a row is marked.
pub open spec fn table_text(rows: Seq<ListRow>, verbose: bool, colored: bool) -> Seq<char> {
    table_header(widths(rows), verbose, colored) + table_rows(rows, widths(rows), verbose, colored, rows.len() as int)
        + footnote(has_marked(rows, rows.len() as int))
}

/// The byte width of column `c` of a row.
fn cell_len(r: &ListRow, c: usize) -> (n: usize)
    requires
        c < 7,
        row_fits(*r),
    ensures
        n == cell_width(*r, c as int),
{
    assert(cell_width(*r, c as int) <= usize::MAX);
    assert(cell_width(*r, 1) <= usize::MAX);
    if c == 0 {
        r.path.as_str().len()
    } else if c == 1 {
        r.status.as_str().len() + r.marker.as_str().len()
    } else if c == 2 {
        r.snapshots.as_str().len()
    } else if c == 3 {
        r.size.as_str().len()
    } else if c == 4 {
        r.files.as_str().len()
    } else if c == 5 {
        r.gitignore.as_str().len()
    } else {
        r.unignored.as_str().len()
    }
}

/// Column widths of the table, as the table is laid out.
fn table_widths(rows: &[ListRow]) -> (r: Vec<usize>)
    requires
        forall|i: int| 0 <= i < rows@.len() ==> row_fits(#[trigger] rows@[i]),
    ensures
        r@.len() == 7,
        forall|i: int| 0 <= i < 7 ==> r@[i] == widths(rows@)[i],
{
    let mut w: Vec<usize> = vec![7, 6, 9, 4, 5, 9, 9];
    let ghost init = seq![7nat, 6nat, 9nat, 4nat, 5nat, 9nat, 9nat];
    let mut k: usize = 0;
    while k < rows.len()
        invariant
            k <= rows@.len(),
            forall|i: int| 0 <= i < rows@.len() ==> row_fits(#[trigger] rows@[i]),
            w@.len() == 7,
            forall|c: int| 0 <= c < 7 ==> w@[c] == column_width(rows@.subrange(0, k as int), c, init[c]),
        decreases rows@.len() - k,
    {
        let r = &rows[k];
        assert(row_fits(rows@[k as int]));
        let mut c: usize = 0;
        let ghost before = w@;
        while c < 7
            invariant
                c <= 7,
                w@.len() == 7,
                row_fits(*r),
                forall|d: int| c <= d < 7 ==> w@[d] == before[d],
                forall|d: int| 0 <= d < c ==> w@[d] == (if cell_width(*r, d) > before[d] {
                    cell_width(*r, d) as int
                } else {
                    before[d] as int
                }),
            decreases 7 - c,
        {
            let cl = cell_len(r, c);
            if cl > w[c] {
                w.set(c, cl);
            }
            c = c + 1;
        }
        proof {
            let next = rows@.subrange(0, k + 1);
            assert(next.drop_last() =~= rows@.subrange(0, k as int));
            assert(next.last() == *r);
        }
        k = k + 1;
    }
    assert(rows@.subrange(0, rows@.len() as int) =~= rows@);
    w
}

/// Appends the main part of the header line.
fn push_header_main(out: &mut String, w0: usize, w1: usize, w2: usize, w3: usize)
    ensures
        final(out)@ == old(out)@ + header_main(w0 as nat, w1 as nat, w2 as nat, w3 as nat),
{
    let ghost start = out@;
    push_padded_right(out, "PROJECT", w0);
    push_str(out, "  ");
    push_padded_right(out, "STATUS", w1);
    push_str(out, "  ");
    push_padded_left(out, "SNAPSHOTS", w2);
    push_str(out, "  ");
    push_padded_left(out, "SIZE", w3);
    assert(out@ =~= start + header_main(w0 as nat, w1 as nat, w2 as nat, w3 as nat));
}

/// Appends the verbose part of the header line.
fn push_header_verbose(out: &mut String, w4: usize, w5: usize, w6: usize)
    ensures
        final(out)@ == old(out)@ + header_verbose(w4 as nat, w5 as nat, w6 as nat),
{
    let ghost start = out@;
    push_str(out, "  ");
    push_padded_left(out, "FILES", w4);
    push_str(out, "  ");
    push_padded_right(out, GITIGNORE_HEADER, w5);
    push_str(out, "  ");
    push_padded_right(out, UNIGNORED_HEADER, w6);
    assert(out@ =~= start + header_verbose(w4 as nat, w5 as nat, w6 as nat));
}

/// Appends the main part of a row line.
fn push_row_main(out: &mut String, r: &ListRow, w0: usize, w1: usize, w2: usize, w3: usize, colored: bool)
    ensures
        final(out)@ == old(out)@ + row_main(*r, w0 as nat, w1 as nat, w2 as nat, w3 as nat, colored),
{
    let ghost start = out@;
    push_padded_right(out, r.path.as_str(), w0);
    push_str(out, "  ");
    let cell = render_status_cell(r.status.as_str(), r.marker.as_str(), w1, colored);
    push_str(out, cell.as_str());
    push_str(out, "  ");
    push_padded_left(out, r.snapshots.as_str(), w2);
    push_str(out, "  ");
    push_padded_left(out, r.size.as_str(), w3);
    assert(out@ =~= start + row_main(*r, w0 as nat, w1 as nat, w2 as nat, w3 as nat, colored));
}

/// Appends the verbose part of a row line.
fn push_row_verbose(out: &mut String, r: &ListRow, w4: usize, w5: usize, w6: usize)
    ensures
        final(out)@ == old(out)@ + row_verbose(*r, w4 as nat, w5 as nat, w6 as nat),
{
    let ghost start = out@;
    push_str(out, "  ");
    push_padded_left(out, r.files.as_str(), w4);
    push_str(out, "  ");
    push_padded_right(out, r.gitignore.as_str(), w5);
    push_str(out, "  ");
    push_padded_right(out, r.unignored.as_str(), w6);
    assert(out@ =~= start + row_verbose(*r, w4 as nat, w5 as nat, w6 as nat));
}

/// The widths as naturals.
pub open spec fn width_views(w: Seq<usize>) -> Seq<nat> {
    seq![w[0] as nat, w[1] as nat, w[2] as nat, w[3] as nat, w[4] as nat, w[5] as nat, w[6] as nat]
}

/// Appends the header line of the table.
fn push_table_header(out: &mut String, w: &Vec<usize>, verbose: bool, colored: bool)
    requires
        w@.len() == 7,
    ensures
        final(out)@ == old(out)@ + table_header(width_views(w@), verbose, colored),
{
    let ghost start = out@;
    if colored {
        push_str(out, DIM);
    }
    let ghost a = out@;
    push_header_main(out, w[0], w[1], w[2], w[3]);
    let ghost b = out@;
    if verbose {
        push_header_verbose(out, w[4], w[5], w[6]);
    }
    let ghost c = out@;
    push_str(out, "  RANGE\n");
    if colored {
        push_str(out, RESET);
    }
    let ghost ws = width_views(w@);
    assert(header_main(ws[0], ws[1], ws[2], ws[3]) == header_main(w@[0] as nat, w@[1] as nat, w@[2] as nat, w@[3] as nat));
    assert(out@ =~= start + table_header(ws, verbose, colored));
}

/// Appends one row line of the table.
fn push_table_row(out: &mut String, r: &ListRow, w: &Vec<usize>, verbose: bool, colored: bool)
    requires
        w@.len() == 7,
    ensures
        final(out)@ == old(out)@ + table_row(*r, width_views(w@), verbose, colored),
{
    let ghost start = out@;
    push_row_main(out, r, w[0], w[1], w[2], w[3], colored);
    if verbose {
        push_row_verbose(out, r, w[4], w[5], w[6]);
    }
    push_str(out, "  ");
    push_str(out, r.range.as_str());
    push_str(out, "\n");
    let ghost ws = width_views(w@);
    assert(out@ =~= start + table_row(*r, ws, verbose, colored));
}

/// The table of projects as the list command prints it (see `table_text`):
/// columns as wide as their widest cell in bytes, padded by characters.
pub fn render_table(rows: &[ListRow], verbose: bool, use_color: bool) -> (r: String)
    requires
        forall|i: int| 0 <= i < rows@.len() ==> row_fits(#[trigger] rows@[i]),
    ensures
        r@ == table_text(rows@, verbose, use_color),
{
    let w = table_widths(rows);
    let ghost ws = width_views(w@);
    assert(ws =~= widths(rows@));
    let mut out = String::new();
    push_table_header(&mut out, &w, verbose, use_color);
    let ghost head = out@;
    let mut any_marked = false;
    let mut k: usize = 0;
    while k < rows.len()
        invariant
            k <= rows@.len(),
            w@.len() == 7,
            ws == width_views(w@),
            out@ == head + table_rows(rows@, ws, verbose, use_color, k as int),
            any_marked == has_marked(rows@, k as int),
        decreases rows@.len() - k,
    {
        push_table_row(&mut out, &rows[k], &w, verbose, use_color);
        if crate::text::char_len(rows[k].marker.as_str()) > 0 {
            any_marked = true;
        }
        proof {
            if !any_marked && has_marked(rows@, k + 1) {
                let i = choose|i: int| 0 <= i < k + 1 && #[trigger] rows@[i].marker@.len() > 0;
                assert(has_marked(rows@, k as int));
            }
            assert(table_rows(rows@, ws, verbose, use_color, k + 1) == table_rows(rows@, ws, verbose, use_color, k as int) + table_row(rows@[k as int], ws, verbose, use_color));
        }
        k = k + 1;
    }
    let ghost body = out@;
    if any_marked {
        push_str(&mut out, "\n");
        push_str(&mut out, MARKER_FOOTNOTE);
        push_str(&mut out, "\n");
    }
    assert(out@ =~= body + footnote(any_marked));
    assert(out@ =~= table_header(ws, verbose, use_color) + table_rows(rows@, ws, verbose, use_color, rows@.len() as int) + footnote(has_marked(rows@, rows@.len() as int)));
    out
}

} // verus!
