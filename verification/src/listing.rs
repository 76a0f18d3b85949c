//! The lines and records a history listing shows.
//!
//! Each line is a pure function of the snapshot and of the wall-clock text
//! of its instant; the wall-clock text itself depends on the machine's time
//! zone and is produced by `clock::local_time_text`.

use vstd::prelude::*;
use crate::clock::{is_local_text, local_time_text, rfc3339_of, rfc3339_text};
use crate::grouping::FileGroup;
use crate::output::{format_size, size_text, BOLD, GREEN, RED, RESET, YELLOW};
use crate::text::{
    decimal, pad_left, pad_right, push_decimal, push_padded_left, push_padded_right, push_str,
    str_eq,
};
use crate::types::{EventType, Snapshot};
use crate::command_scan::{skip_white, skip_white_from, trim_end_at, trim_end_from};
use vstd::string::StringExecFns;

verus! {

/// The color of an event's word.
pub open spec fn event_color(e: EventType) -> Seq<char> {
    match e {
        EventType::Create => GREEN@,
        EventType::Modify => YELLOW@,
        EventType::Delete => RED@,
    }
}

/// The event word padded to nine columns, wrapped in its color when
/// colored (padding first, so the escapes do not break alignment).
pub open spec fn event_cell(e: EventType, colored: bool) -> Seq<char> {
    let padded = pad_right(e.spec_label(), 9);
    if colored {
        event_color(e) + padded + RESET@
    } else {
        padded
    }
}

/// The size column: the human-readable size right-aligned to eight columns,
/// empty for a deletion.
pub open spec fn size_cell(s: Snapshot) -> Seq<char> {
    if s.event_type == EventType::Delete {
        Seq::empty()
    } else {
        pad_left(size_text(s.size_bytes as nat), 8)
    }
}

/// Whether a line shows line statistics: not for a deletion, nor for a
/// non-empty snapshot recorded without statistics (no lines added or
/// removed).
pub open spec fn shows_stats(s: Snapshot) -> bool {
    !(s.event_type == EventType::Delete || (s.lines_added == 0 && s.lines_removed == 0
        && s.size_bytes > 0))
}

/// The statistics column: `  +A/-R`, each count in its color when colored.
pub open spec fn stats_cell(s: Snapshot, colored: bool) -> Seq<char> {
    if !shows_stats(s) {
        Seq::empty()
    } else {
        let added = "+"@ + decimal(s.lines_added as nat);
        let removed = "-"@ + decimal(s.lines_removed as nat);
        if colored {
            "  "@ + GREEN@ + added + RESET@ + "/"@ + RED@ + removed + RESET@
        } else {
            "  "@ + added + "/"@ + removed
        }
    }
}

/// A line of the flat listing, given the wall-clock text of the snapshot.
pub open spec fn snapshot_line(time: Seq<char>, s: Snapshot, colored: bool) -> Seq<char> {
    "  "@ + time + "  "@ + event_cell(s.event_type, colored) + "  "@ + s.file_path@ + "  "@
        + size_cell(s) + stats_cell(s, colored)
}

/// A line inside a file group, given the wall-clock text of the snapshot:
/// deeper indent and no path (the group header names the file).
pub open spec fn grouped_entry_line(time: Seq<char>, s: Snapshot, colored: bool) -> Seq<char> {
    "    "@ + time + "  "@ + event_cell(s.event_type, colored) + "  "@ + size_cell(s)
        + stats_cell(s, colored)
}

/// The pattern of a snapshot's time inside a file group: the weekday and
/// day with the time when the group spans several local days, else the time.
pub open spec fn entry_pattern(multi_day: bool) -> Seq<char> {
    if multi_day {
        "%a %d %H:%M:%S"@
    } else {
        "%H:%M:%S"@
    }
}

/// `line` shows snapshot `s` inside a file group, its instant as local text
/// under `entry_pattern(multi_day)`.
pub open spec fn is_grouped_entry(line: Seq<char>, s: Snapshot, colored: bool, multi_day: bool) -> bool {
    exists|time: Seq<char>|
        is_local_text(time, s.timestamp as int, entry_pattern(multi_day)) && line
            == grouped_entry_line(time, s, colored)
}

/// `multi_day` says whether the group's first and last snapshots fall on
/// different local days (`%Y-%m-%d` texts); a group of fewer than two spans
/// one day.
pub open spec fn local_day_split(g: FileGroup, multi_day: bool) -> bool {
    if g.entries@.len() < 2 {
        !multi_day
    } else {
        exists|first: Seq<char>, last: Seq<char>|
            is_local_text(first, g.entries@[0].timestamp as int, "%Y-%m-%d"@) && is_local_text(
                last,
                g.entries@.last().timestamp as int,
                "%Y-%m-%d"@,
            ) && multi_day == (first != last)
    }
}

/// `line` heads group `g`: with the local `%b %d` dates of its first and
/// last snapshots when it spans several days, without dates otherwise.
pub open spec fn is_group_header(line: Seq<char>, g: FileGroup, colored: bool, multi_day: bool) -> bool {
    if multi_day {
        exists|first: Seq<char>, last: Seq<char>|
            is_local_text(first, g.entries@[0].timestamp as int, "%b %d"@) && is_local_text(
                last,
                g.entries@.last().timestamp as int,
                "%b %d"@,
            ) && line == group_header(g.path@, g.entries@.len(), colored, Some((first, last)))
    } else {
        line == group_header(g.path@, g.entries@.len(), colored, None)
    }
}

/// Appends the event column.
fn push_event_cell(out: &mut String, e: EventType, colored: bool)
    ensures
        final(out)@ == old(out)@ + event_cell(e, colored),
{
    if colored {
        let color = match e {
            EventType::Create => GREEN,
            EventType::Modify => YELLOW,
            EventType::Delete => RED,
        };
        push_str(out, color);
        push_padded_right(out, e.label(), 9);
        push_str(out, RESET);
    } else {
        push_padded_right(out, e.label(), 9);
    }
    assert(final(out)@ =~= old(out)@ + event_cell(e, colored));
}

/// Appends the size and statistics columns.
fn push_size_and_stats(out: &mut String, s: &Snapshot, colored: bool)
    ensures
        final(out)@ == old(out)@ + size_cell(*s) + stats_cell(*s, colored),
{
    let deleted = match s.event_type {
        EventType::Delete => true,
        _ => false,
    };
    if !deleted {
        let size = format_size(s.size_bytes);
        push_padded_left(out, size.as_str(), 8);
    }
    let quiet = deleted || (s.lines_added == 0 && s.lines_removed == 0 && s.size_bytes > 0);
    if !quiet {
        push_str(out, "  ");
        if colored {
            push_str(out, GREEN);
        }
        push_str(out, "+");
        push_decimal(out, s.lines_added);
        if colored {
            push_str(out, RESET);
        }
        push_str(out, "/");
        if colored {
            push_str(out, RED);
        }
        push_str(out, "-");
        push_decimal(out, s.lines_removed);
        if colored {
            push_str(out, RESET);
        }
    }
    assert(final(out)@ =~= old(out)@ + size_cell(*s) + stats_cell(*s, colored));
}

/// A flat-listing line for a snapshot whose wall-clock text is `time`.
pub fn snapshot_line_at(time: &str, snapshot: &Snapshot, use_color: bool) -> (r: String)
    ensures
        r@ == snapshot_line(time@, *snapshot, use_color),
{
    let mut r = String::from_str("  ");
    push_str(&mut r, time);
    push_str(&mut r, "  ");
    push_event_cell(&mut r, snapshot.event_type, use_color);
    push_str(&mut r, "  ");
    push_str(&mut r, snapshot.file_path.as_str());
    push_str(&mut r, "  ");
    push_size_and_stats(&mut r, snapshot, use_color);
    assert(r@ =~= snapshot_line(time@, *snapshot, use_color));
    r
}

/// A flat-listing line for a snapshot, its instant shown as local
/// `YYYY-MM-DD HH:MM:SS`.
pub fn format_snapshot_line(snapshot: &Snapshot, use_color: bool) -> (r: String)
    ensures
        exists|time: Seq<char>|
            is_local_text(time, snapshot.timestamp as int, "%Y-%m-%d %H:%M:%S"@) && r@
                == snapshot_line(time, *snapshot, use_color),
{
    let time = local_time_text(snapshot.timestamp, "%Y-%m-%d %H:%M:%S");
    let r = snapshot_line_at(time.as_str(), snapshot, use_color);
    assert(is_local_text(time@, snapshot.timestamp as int, "%Y-%m-%d %H:%M:%S"@) && r@
        == snapshot_line(time@, *snapshot, use_color));
    r
}

/// A line inside a file group for a snapshot whose wall-clock text is `time`.
pub fn grouped_entry_at(time: &str, snapshot: &Snapshot, use_color: bool) -> (r: String)
    ensures
        r@ == grouped_entry_line(time@, *snapshot, use_color),
{
    let mut r = String::from_str("    ");
    push_str(&mut r, time);
    push_str(&mut r, "  ");
    push_event_cell(&mut r, snapshot.event_type, use_color);
    push_str(&mut r, "  ");
    push_size_and_stats(&mut r, snapshot, use_color);
    assert(r@ =~= grouped_entry_line(time@, *snapshot, use_color));
    r
}

/// A line inside a file group; its instant shown as local `HH:MM:SS`, or as
/// `Www DD HH:MM:SS` when the group spans several days.
pub fn format_grouped_entry(snapshot: &Snapshot, use_color: bool, multi_day: bool) -> (r: String)
    ensures
        is_grouped_entry(r@, *snapshot, use_color, multi_day),
{
    let time = if multi_day {
        local_time_text(snapshot.timestamp, "%a %d %H:%M:%S")
    } else {
        local_time_text(snapshot.timestamp, "%H:%M:%S")
    };
    let r = grouped_entry_at(time.as_str(), snapshot, use_color);
    assert(is_local_text(time@, snapshot.timestamp as int, entry_pattern(multi_day)) && r@
        == grouped_entry_line(time@, *snapshot, use_color));
    r
}

/// Whether a group's first and last snapshots fall on different local
/// calendar days. A group of fewer than two snapshots spans one day.
pub fn spans_multiple_days(group: &FileGroup) -> (r: bool)
    ensures
        local_day_split(*group, r),
{
    let n = group.entries.len();
    if n < 2 {
        return false;
    }
    let first = local_time_text(group.entries[0].timestamp, "%Y-%m-%d");
    let last = local_time_text(group.entries[n - 1].timestamp, "%Y-%m-%d");
    let r = !str_eq(first.as_str(), last.as_str());
    assert(is_local_text(first@, group.entries@[0].timestamp as int, "%Y-%m-%d"@)
        && is_local_text(last@, group.entries@.last().timestamp as int, "%Y-%m-%d"@)
        && r == (first@ != last@));
    r
}

/// `change` for one, `changes` otherwise.
pub open spec fn change_word(n: nat) -> Seq<char> {
    if n == 1 {
        "change"@
    } else {
        "changes"@
    }
}

/// `file` for one, `files` otherwise.
pub open spec fn file_word(n: nat) -> Seq<char> {
    if n == 1 {
        "file"@
    } else {
        "files"@
    }
}

/// `project` for one, `projects` otherwise.
pub open spec fn project_word(n: nat) -> Seq<char> {
    if n == 1 {
        "project"@
    } else {
        "projects"@
    }
}

/// Appends `n`, a space and the singular or plural word.
fn push_count(out: &mut String, n: usize, one: &str, many: &str)
    ensures
        final(out)@ == old(out)@ + decimal(n as nat) + " "@ + (if n == 1 {
            one@
        } else {
            many@
        }),
{
    push_decimal(out, n as u64);
    push_str(out, " ");
    if n == 1 {
        push_str(out, one);
    } else {
        push_str(out, many);
    }
}

/// The header of a file group: the path (bold when colored), its number of
/// changes and, for a group spanning several days, its first and last dates.
pub open spec fn group_header(
    path: Seq<char>,
    count: nat,
    colored: bool,
    dates: Option<(Seq<char>, Seq<char>)>,
) -> Seq<char> {
    let shown = if colored {
        BOLD@ + path + RESET@
    } else {
        path
    };
    let counted = shown + "  ("@ + decimal(count) + " "@ + change_word(count);
    match dates {
        Some(d) => counted + ", "@ + d.0 + " - "@ + d.1 + ")"@,
        None => counted + ")"@,
    }
}

/// The header line of a file group with the given local dates.
pub fn group_header_at(path: &str, count: usize, use_color: bool, dates: Option<(&str, &str)>) -> (r:
    String)
    ensures
        r@ == group_header(
            path@,
            count as nat,
            use_color,
            match dates {
                Some(d) => Some((d.0@, d.1@)),
                None => None,
            },
        ),
{
    let mut r = String::new();
    if use_color {
        push_str(&mut r, BOLD);
        push_str(&mut r, path);
        push_str(&mut r, RESET);
    } else {
        push_str(&mut r, path);
    }
    push_str(&mut r, "  (");
    push_count(&mut r, count, "change", "changes");
    match dates {
        Some(d) => {
            push_str(&mut r, ", ");
            push_str(&mut r, d.0);
            push_str(&mut r, " - ");
            push_str(&mut r, d.1);
            push_str(&mut r, ")");
        },
        None => {
            push_str(&mut r, ")");
        },
    }
    proof {
        let ghost ds = match dates {
            Some(d) => Some((d.0@, d.1@)),
            None => None,
        };
        assert(r@ =~= group_header(path@, count as nat, use_color, ds));
    }
    r
}

/// The lines showing one file group: its header, then one line per
/// snapshot. Dates and times are local; a group spanning several local days
/// shows its first and last dates in the header and the weekday and day in
/// each line.
pub fn group_lines(group: &FileGroup, use_color: bool) -> (r: Vec<String>)
    requires
        group.entries@.len() > 0,
    ensures
        r@.len() == group.entries@.len() + 1,
        exists|multi_day: bool|
            local_day_split(*group, multi_day) && is_group_header(
                r@[0]@,
                *group,
                use_color,
                multi_day,
            ) && forall|k: int|
                0 <= k < group.entries@.len() ==> is_grouped_entry(
                    (#[trigger] r@[k + 1])@,
                    group.entries@[k],
                    use_color,
                    multi_day,
                ),
{
    let multi_day = spans_multiple_days(group);
    let n = group.entries.len();
    let mut r: Vec<String> = Vec::new();
    if multi_day {
        let first = local_time_text(group.entries[0].timestamp, "%b %d");
        let last = local_time_text(group.entries[n - 1].timestamp, "%b %d");
        let h = group_header_at(group.path.as_str(), n, use_color, Some((first.as_str(), last.as_str())));
        assert(is_local_text(first@, group.entries@[0].timestamp as int, "%b %d"@) && is_local_text(
            last@,
            group.entries@.last().timestamp as int,
            "%b %d"@,
        ) && h@ == group_header(group.path@, group.entries@.len(), use_color, Some((first@, last@))));
        r.push(h);
    } else {
        r.push(group_header_at(group.path.as_str(), n, use_color, None));
    }
    let mut k: usize = 0;
    while k < n
        invariant
            n == group.entries@.len(),
            k <= n,
            r@.len() == k + 1,
            is_group_header(r@[0]@, *group, use_color, multi_day),
            forall|j: int|
                0 <= j < k ==> is_grouped_entry(
                    (#[trigger] r@[j + 1])@,
                    group.entries@[j],
                    use_color,
                    multi_day,
                ),
        decreases n - k,
    {
        let line = format_grouped_entry(&group.entries[k], use_color, multi_day);
        let ghost old_r = r@;
        r.push(line);
        proof {
            assert(r@[0] == old_r[0]);
            assert forall|j: int| 0 <= j < k + 1 implies is_grouped_entry(
                (#[trigger] r@[j + 1])@,
                group.entries@[j],
                use_color,
                multi_day,
            ) by {
                if j < k {
                    assert(r@[j + 1] == old_r[j + 1]);
                }
            }
        }
        k = k + 1;
    }
    r
}

/// Total number of snapshots over the groups.
pub open spec fn total_entries(groups: Seq<FileGroup>) -> int
    decreases groups.len(),
{
    if groups.len() == 0 {
        0
    } else {
        total_entries(groups.drop_last()) + groups.last().entries@.len()
    }
}

/// The closing line of the grouped listing: `-- F files, C changes --`.
pub open spec fn grouped_footer(files: nat, changes: nat) -> Seq<char> {
    "-- "@ + decimal(files) + " "@ + file_word(files) + ", "@ + decimal(changes) + " "@
        + change_word(changes) + " --"@
}

/// The closing line of the grouped listing.
pub fn grouped_footer_line(files: usize, changes: usize) -> (r: String)
    ensures
        r@ == grouped_footer(files as nat, changes as nat),
{
    let mut r = String::from_str("-- ");
    push_count(&mut r, files, "file", "files");
    push_str(&mut r, ", ");
    push_count(&mut r, changes, "change", "changes");
    push_str(&mut r, " --");
    assert(r@ =~= grouped_footer(files as nat, changes as nat));
    r
}

/// The closing line of the flat cross-project listing:
/// `\n-- C changes across P projects --`.
pub open spec fn global_flat_footer(changes: nat, projects: nat) -> Seq<char> {
    "\n-- "@ + decimal(changes) + " "@ + change_word(changes) + " across "@ + decimal(projects)
        + " "@ + project_word(projects) + " --"@
}

/// The closing line of the flat cross-project listing.
pub fn global_flat_footer_line(changes: usize, projects: usize) -> (r: String)
    ensures
        r@ == global_flat_footer(changes as nat, projects as nat),
{
    let mut r = String::from_str("\n-- ");
    push_count(&mut r, changes, "change", "changes");
    push_str(&mut r, " across ");
    push_count(&mut r, projects, "project", "projects");
    push_str(&mut r, " --");
    assert(r@ =~= global_flat_footer(changes as nat, projects as nat));
    r
}

/// The closing line of the grouped cross-project listing:
/// `-- P projects, F files, C changes --`.
pub open spec fn global_grouped_footer(projects: nat, files: nat, changes: nat) -> Seq<char> {
    "-- "@ + decimal(projects) + " "@ + project_word(projects) + ", "@ + decimal(files) + " "@
        + file_word(files) + ", "@ + decimal(changes) + " "@ + change_word(changes) + " --"@
}

/// The closing line of the grouped cross-project listing.
pub fn global_grouped_footer_line(projects: usize, files: usize, changes: usize) -> (r: String)
    ensures
        r@ == global_grouped_footer(projects as nat, files as nat, changes as nat),
{
    let mut r = String::from_str("-- ");
    push_count(&mut r, projects, "project", "projects");
    push_str(&mut r, ", ");
    push_count(&mut r, files, "file", "files");
    push_str(&mut r, ", ");
    push_count(&mut r, changes, "change", "changes");
    push_str(&mut r, " --");
    assert(r@ =~= global_grouped_footer(projects as nat, files as nat, changes as nat));
    r
}

/// A project header: `-- PATH --` in the flat listing, `=== PATH ===` in
/// the grouped one; bold when colored.
pub open spec fn project_header(path: Seq<char>, grouped: bool, colored: bool) -> Seq<char> {
    let plain = if grouped {
        "=== "@ + path + " ==="@
    } else {
        "-- "@ + path + " --"@
    };
    if colored {
        BOLD@ + plain + RESET@
    } else {
        plain
    }
}

/// A project header line of a cross-project listing.
pub fn project_header_line(path: &str, grouped: bool, use_color: bool) -> (r: String)
    ensures
        r@ == project_header(path@, grouped, use_color),
{
    let mut r = String::new();
    if use_color {
        push_str(&mut r, BOLD);
    }
    if grouped {
        push_str(&mut r, "=== ");
        push_str(&mut r, path);
        push_str(&mut r, " ===");
    } else {
        push_str(&mut r, "-- ");
        push_str(&mut r, path);
        push_str(&mut r, " --");
    }
    if use_color {
        push_str(&mut r, RESET);
    }
    assert(r@ =~= project_header(path@, grouped, use_color));
    r
}

// ---------------------------------------------------------------------------
// Records for JSON output
// ---------------------------------------------------------------------------

/// One history entry in its serialisable form.
#[derive(Clone, Debug)]
pub struct LogEntry {
    pub id: i64,
    pub file: String,
    pub event: String,
    pub bytes: u64,
    pub size_human: String,
    pub timestamp: String,
    pub hash: String,
    pub lines: u64,
    pub lines_added: u64,
    pub lines_removed: u64,
}

/// `e` is the serialisable form of `s`.
pub open spec fn entry_of(s: Snapshot, e: LogEntry) -> bool {
    &&& e.id == s.id.0
    &&& e.file@ == s.file_path@
    &&& e.event@ == s.event_type.spec_label()
    &&& e.bytes == s.size_bytes
    &&& e.size_human@ == size_text(s.size_bytes as nat)
    &&& e.timestamp@ == rfc3339_text(s.timestamp as int)
    &&& e.hash@ == s.content_hash.0@
    &&& e.lines == s.line_count
    &&& e.lines_added == s.lines_added
    &&& e.lines_removed == s.lines_removed
}

/// The serialisable form of a snapshot.
pub fn log_entry(s: &Snapshot) -> (r: LogEntry)
    ensures
        entry_of(*s, r),
{
    LogEntry {
        id: s.id.0,
        file: s.file_path.clone(),
        event: String::from_str(s.event_type.label()),
        bytes: s.size_bytes,
        size_human: format_size(s.size_bytes),
        timestamp: rfc3339_of(s.timestamp),
        hash: s.content_hash.0.clone(),
        lines: s.line_count,
        lines_added: s.lines_added,
        lines_removed: s.lines_removed,
    }
}

/// The serialisable forms of a list of snapshots, in order.
pub fn log_entries(snapshots: &[Snapshot]) -> (r: Vec<LogEntry>)
    ensures
        r@.len() == snapshots@.len(),
        forall|k: int| 0 <= k < r@.len() ==> entry_of(snapshots@[k], #[trigger] r@[k]),
{
    let mut r: Vec<LogEntry> = Vec::new();
    let mut k: usize = 0;
    while k < snapshots.len()
        invariant
            k <= snapshots@.len(),
            r@.len() == k,
            forall|j: int| 0 <= j < k ==> entry_of(snapshots@[j], #[trigger] r@[j]),
        decreases snapshots@.len() - k,
    {
        r.push(log_entry(&snapshots[k]));
        k = k + 1;
    }
    r
}

/// One file's history in the grouped JSON listing.
#[derive(Clone, Debug)]
pub struct GroupedFileEntry {
    pub path: String,
    pub change_count: usize,
    pub entries: Vec<LogEntry>,
}

/// Totals of the grouped JSON listing.
#[derive(Clone, Debug)]
pub struct GroupedSummary {
    pub total_files: usize,
    pub total_changes: usize,
}

/// The grouped JSON listing.
#[derive(Clone, Debug)]
pub struct GroupedLogOutput {
    pub files: Vec<GroupedFileEntry>,
    pub summary: GroupedSummary,
}

/// `f` is the serialisable form of group `g`.
pub open spec fn file_entry_of(g: FileGroup, f: GroupedFileEntry) -> bool {
    &&& f.path@ == g.path@
    &&& f.change_count == g.entries@.len()
    &&& f.entries@.len() == g.entries@.len()
    &&& forall|k: int| 0 <= k < f.entries@.len() ==> entry_of(g.entries@[k], #[trigger] f.entries@[k])
}

/// The total never decreases along a list of groups.
proof fn lemma_total_entries_prefix(groups: Seq<FileGroup>, i: int)
    requires
        0 <= i <= groups.len(),
    ensures
        0 <= total_entries(groups.subrange(0, i)) <= total_entries(groups),
    decreases groups.len(),
{
    if i < groups.len() {
        lemma_total_entries_prefix(groups.drop_last(), i);
        assert(groups.drop_last().subrange(0, i) =~= groups.subrange(0, i));
    } else {
        assert(groups.subrange(0, i) =~= groups);
        lemma_total_entries_nonneg(groups);
    }
}

/// Totals are never negative.
proof fn lemma_total_entries_nonneg(groups: Seq<FileGroup>)
    ensures
        total_entries(groups) >= 0,
    decreases groups.len(),
{
    if groups.len() > 0 {
        lemma_total_entries_nonneg(groups.drop_last());
    }
}

/// The grouped JSON listing of file groups, in their order, with the number
/// of files and of changes.
pub fn render_grouped_json(groups: &Vec<FileGroup>) -> (r: GroupedLogOutput)
    requires
        total_entries(groups@) <= usize::MAX,
    ensures
        r.files@.len() == groups@.len(),
        forall|k: int| 0 <= k < groups@.len() ==> file_entry_of(groups@[k], #[trigger] r.files@[k]),
        r.summary.total_files == groups@.len(),
        r.summary.total_changes == total_entries(groups@),
{
    let mut files: Vec<GroupedFileEntry> = Vec::new();
    let mut total: usize = 0;
    let mut k: usize = 0;
    while k < groups.len()
        invariant
            k <= groups@.len(),
            total_entries(groups@) <= usize::MAX,
            files@.len() == k,
            forall|j: int| 0 <= j < k ==> file_entry_of(groups@[j], #[trigger] files@[j]),
            total == total_entries(groups@.subrange(0, k as int)),
        decreases groups@.len() - k,
    {
        let g = &groups[k];
        let entries = log_entries(g.entries.as_slice());
        proof {
            let next = groups@.subrange(0, k + 1);
            assert(next.drop_last() =~= groups@.subrange(0, k as int));
            lemma_total_entries_prefix(groups@, k + 1);
        }
        total = total + g.entries.len();
        files.push(GroupedFileEntry { path: g.path.clone(), change_count: g.entries.len(), entries });
        k = k + 1;
    }
    assert(groups@.subrange(0, groups@.len() as int) =~= groups@);
    let n = files.len();
    GroupedLogOutput { files, summary: GroupedSummary { total_files: n, total_changes: total } }
}

/// Groups shown per page of the grouped listing on a terminal.
pub const GROUPED_PAGE_SIZE: usize = 20;

/// The grouped listing pauses before a group on a terminal after every
/// full page.
pub fn page_break_before(displayed: usize, is_tty: bool) -> (r: bool)
    ensures
        r == (is_tty && displayed > 0 && displayed % GROUPED_PAGE_SIZE == 0),
{
    is_tty && displayed > 0 && displayed % GROUPED_PAGE_SIZE == 0
}

/// The prompt of a pause.
pub fn page_prompt(displayed: usize) -> (r: String)
    ensures
        r@ == "-- more ("@ + decimal(displayed as nat) + " groups displayed, Enter to continue, q to quit) --"@,
{
    let mut r = String::from_str("-- more (");
    push_decimal(&mut r, displayed as u64);
    push_str(&mut r, " groups displayed, Enter to continue, q to quit) --");
    r
}

/// The line shown when the reader stops the listing.
pub fn page_stop_line(displayed: usize) -> (r: String)
    ensures
        r@ == "-- "@ + decimal(displayed as nat) + " groups shown --"@,
{
    let mut r = String::from_str("-- ");
    push_decimal(&mut r, displayed as u64);
    push_str(&mut r, " groups shown --");
    r
}

/// The answer to a pause stops the listing: `q` in either case, white
/// space around it ignored.
pub open spec fn is_quit_answer(input: Seq<char>) -> bool {
    let n = input.len() as int;
    let a = skip_white(input, 0, n);
    let e = trim_end_at(input, a, n);
    e == a + 1 && (input[a] == 'q' || input[a] == 'Q')
}

/// Whether the answer to a pause stops the listing (see `is_quit_answer`).
pub fn quits(input: &str) -> (r: bool)
    ensures
        r == is_quit_answer(input@),
{
    let n = crate::text::char_len(input);
    let a = skip_white_from(input, 0, n);
    let e = trim_end_from(input, a, n);
    if a >= n || e != a + 1 {
        return false;
    }
    let c = vstd::string::StrSliceExecFns::get_char(input, a);
    c == 'q' || c == 'Q'
}

} // verus!
