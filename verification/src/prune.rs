//! Pruning old history: the confirmation gate, and the report.
//!
//! Pruning is the one command that destroys recorded history with no undo,
//! so a wide prune that nobody can confirm is refused.

use vstd::prelude::*;
use vstd::string::StringExecFns;
use crate::output::{format_number, format_size, group_thousands, size_text};
use crate::text::{decimal, push_decimal, push_str};
use crate::types::{OutputFormat, UnfError};

verus! {

/// What a prune must do before it may delete anything.
#[derive(Clone, Copy, Debug, PartialEq, Eq, Structural)]
pub enum PruneGate {
    /// Delete now: consent was given, or only one project is affected.
    Proceed,
    /// Report what would go and delete nothing.
    DryRunOnly,
    /// Report what would go, then ask on the terminal.
    Prompt,
    /// Refuse: the prune is destructive and wide, and nobody can answer.
    RefuseNoTty,
}

/// How a prune is gated, by these rules in order: a dry run deletes
/// nothing; a single-project prune, or one with `--yes`, proceeds; JSON
/// output, or no terminal, refuses; otherwise the terminal is asked.
pub open spec fn gate(all_projects: bool, yes: bool, dry_run: bool, is_tty: bool, format: OutputFormat) -> PruneGate {
    if dry_run {
        PruneGate::DryRunOnly
    } else if !all_projects || yes {
        PruneGate::Proceed
    } else if format == OutputFormat::Json || !is_tty {
        PruneGate::RefuseNoTty
    } else {
        PruneGate::Prompt
    }
}

/// Decides how a prune invocation is gated (see `gate`).
pub fn decide(all_projects: bool, yes: bool, dry_run: bool, is_tty: bool, format: OutputFormat) -> (r: PruneGate)
    ensures
        r == gate(all_projects, yes, dry_run, is_tty, format),
{
    if dry_run {
        return PruneGate::DryRunOnly;
    }
    if !all_projects || yes {
        return PruneGate::Proceed;
    }
    if format == OutputFormat::Json || !is_tty {
        return PruneGate::RefuseNoTty;
    }
    PruneGate::Prompt
}

/// A dry run never deletes, whatever else is asked.
pub proof fn lemma_dry_run_never_deletes(all_projects: bool, yes: bool, is_tty: bool, format: OutputFormat)
    ensures
        gate(all_projects, yes, true, is_tty, format) == PruneGate::DryRunOnly,
{
}

/// A single-project prune is never gated: it proceeds, or previews under
/// `--dry-run`; it never prompts and never refuses.
pub proof fn lemma_single_project_never_gated(yes: bool, dry_run: bool, is_tty: bool, format: OutputFormat)
    ensures
        gate(false, yes, dry_run, is_tty, format) == (if dry_run {
            PruneGate::DryRunOnly
        } else {
            PruneGate::Proceed
        }),
{
}

/// Only a wide prune without consent, where nobody can be asked, is
/// refused; and a prune that deletes always had consent or was narrow.
pub proof fn lemma_refusal_only_without_consent(all_projects: bool, yes: bool, dry_run: bool, is_tty: bool, format: OutputFormat)
    ensures
        gate(all_projects, yes, dry_run, is_tty, format) == PruneGate::RefuseNoTty <==> (!dry_run
            && all_projects && !yes && (format == OutputFormat::Json || !is_tty)),
        gate(all_projects, yes, dry_run, is_tty, format) == PruneGate::Proceed ==> !dry_run && (
        !all_projects || yes),
{
}

/// The message of the refusal: it names both ways forward.
pub const REFUSAL_MESSAGE: &'static str = "refusing to prune every project without confirmation. --all-projects permanently deletes snapshots from every registered project and writes no safety snapshot, so there is no undo. Re-run with --dry-run to preview it, or --yes to confirm it.";

/// The error for a wide prune that cannot ask for consent.
pub fn refusal() -> (r: UnfError)
    ensures
        r is InvalidArgument,
        r.spec_message() == REFUSAL_MESSAGE@,
{
    UnfError::InvalidArgument(String::from_str(REFUSAL_MESSAGE))
}

/// What a prune removed (or would remove).
#[derive(Clone, Copy, Debug, Default, PartialEq, Eq, Structural)]
pub struct PruneStats {
    pub snapshots_removed: u64,
    pub objects_removed: u64,
    pub bytes_freed: u64,
}

/// The prune report in serialisable form.
#[derive(Clone, Copy, Debug, PartialEq, Eq, Structural)]
pub struct PruneOutput {
    pub dry_run: bool,
    pub snapshots_removed: u64,
    pub objects_removed: u64,
    pub bytes_freed: u64,
    /// Stale registry entries removed (prunes of every project only).
    pub registry_entries_cleaned: Option<u64>,
}

/// The sum of what several projects' prunes removed.
pub open spec fn sum_stats(v: Seq<PruneStats>) -> (int, int, int)
    decreases v.len(),
{
    if v.len() == 0 {
        (0, 0, 0)
    } else {
        let s = sum_stats(v.drop_last());
        (s.0 + v.last().snapshots_removed, s.1 + v.last().objects_removed, s.2 + v.last().bytes_freed)
    }
}

/// Sums never go negative and grow along the list.
proof fn lemma_sum_prefix(v: Seq<PruneStats>, k: int)
    requires
        0 <= k <= v.len(),
    ensures
        0 <= sum_stats(v.subrange(0, k)).0 <= sum_stats(v).0,
        0 <= sum_stats(v.subrange(0, k)).1 <= sum_stats(v).1,
        0 <= sum_stats(v.subrange(0, k)).2 <= sum_stats(v).2,
    decreases v.len(),
{
    if k < v.len() {
        lemma_sum_prefix(v.drop_last(), k);
        assert(v.drop_last().subrange(0, k) =~= v.subrange(0, k));
    } else {
        assert(v.subrange(0, k) =~= v);
        lemma_sum_nonneg(v);
    }
}

/// Sums are never negative.
proof fn lemma_sum_nonneg(v: Seq<PruneStats>)
    ensures
        sum_stats(v).0 >= 0 && sum_stats(v).1 >= 0 && sum_stats(v).2 >= 0,
    decreases v.len(),
{
    if v.len() > 0 {
        lemma_sum_nonneg(v.drop_last());
    }
}

/// The totals over several projects' prunes.
pub fn total_stats(v: &[PruneStats]) -> (r: PruneStats)
    requires
        sum_stats(v@).0 <= u64::MAX,
        sum_stats(v@).1 <= u64::MAX,
        sum_stats(v@).2 <= u64::MAX,
    ensures
        r.snapshots_removed == sum_stats(v@).0,
        r.objects_removed == sum_stats(v@).1,
        r.bytes_freed == sum_stats(v@).2,
{
    let mut t = PruneStats { snapshots_removed: 0, objects_removed: 0, bytes_freed: 0 };
    let mut k: usize = 0;
    while k < v.len()
        invariant
            k <= v@.len(),
            sum_stats(v@).0 <= u64::MAX,
            sum_stats(v@).1 <= u64::MAX,
            sum_stats(v@).2 <= u64::MAX,
            t.snapshots_removed == sum_stats(v@.subrange(0, k as int)).0,
            t.objects_removed == sum_stats(v@.subrange(0, k as int)).1,
            t.bytes_freed == sum_stats(v@.subrange(0, k as int)).2,
        decreases v@.len() - k,
    {
        proof {
            let next = v@.subrange(0, k + 1);
            assert(next.drop_last() =~= v@.subrange(0, k as int));
            lemma_sum_prefix(v@, k + 1);
        }
        t = PruneStats {
            snapshots_removed: t.snapshots_removed + v[k].snapshots_removed,
            objects_removed: t.objects_removed + v[k].objects_removed,
            bytes_freed: t.bytes_freed + v[k].bytes_freed,
        };
        k = k + 1;
    }
    assert(v@.subrange(0, v@.len() as int) =~= v@);
    t
}

/// `[dry run] ` before each result line of a dry run.
pub open spec fn dry_prefix(dry_run: bool) -> Seq<char> {
    if dry_run {
        "[dry run] "@
    } else {
        Seq::empty()
    }
}

/// The first line of every prune report: the cutoff, in local time.
pub open spec fn cutoff_line(cutoff_local: Seq<char>) -> Seq<char> {
    "Pruning snapshots older than "@ + cutoff_local + "\n"@
}

/// The line counting pruned snapshots, or nothing when there are none.
pub open spec fn snapshots_part(dry_run: bool, n: u64, suffix: Seq<char>) -> Seq<char> {
    if n > 0 {
        dry_prefix(dry_run) + "Pruned "@ + group_thousands(decimal(n as nat)) + suffix
    } else {
        Seq::empty()
    }
}

/// The line counting removed objects, or nothing when there are none.
pub open spec fn objects_part(dry_run: bool, objects: u64, bytes: u64) -> Seq<char> {
    if objects > 0 {
        dry_prefix(dry_run) + "Removed "@ + group_thousands(decimal(objects as nat)) + " orphaned objects ("@
            + size_text(bytes as nat) + " freed).\n"@
    } else {
        Seq::empty()
    }
}

/// The line counting cleaned registry entries, or nothing when there are none.
pub open spec fn registry_part(dry_run: bool, entries: u64) -> Seq<char> {
    if entries > 0 {
        dry_prefix(dry_run) + "Cleaned "@ + group_thousands(decimal(entries as nat))
            + " stale registry entries.\n"@
    } else {
        Seq::empty()
    }
}

/// The report of a single-project prune, given the cutoff's local text.
pub open spec fn report_text(dry_run: bool, cutoff_local: Seq<char>, s: PruneStats) -> Seq<char> {
    cutoff_line(cutoff_local) + if s.snapshots_removed == 0 && s.objects_removed == 0 {
        dry_prefix(dry_run) + "Nothing to prune.\n"@
    } else {
        snapshots_part(dry_run, s.snapshots_removed, " snapshots.\n"@) + objects_part(
            dry_run,
            s.objects_removed,
            s.bytes_freed,
        )
    }
}

/// The report of a prune of every project, given the cutoff's local text.
pub open spec fn all_report_text(dry_run: bool, cutoff_local: Seq<char>, s: PruneStats, registry_entries: u64) -> Seq<char> {
    cutoff_line(cutoff_local) + if s.snapshots_removed == 0 && s.objects_removed == 0
        && registry_entries == 0 {
        dry_prefix(dry_run) + "Nothing to prune.\n"@
    } else {
        snapshots_part(dry_run, s.snapshots_removed, " snapshots across all projects.\n"@)
            + objects_part(dry_run, s.objects_removed, s.bytes_freed) + registry_part(
            dry_run,
            registry_entries,
        )
    }
}

/// Appends the line counting pruned snapshots.
fn push_snapshots_part(out: &mut String, dry_run: bool, n: u64, suffix: &str)
    ensures
        final(out)@ == old(out)@ + snapshots_part(dry_run, n, suffix@),
{
    let ghost start = out@;
    if n > 0 {
        push_prefix(out, dry_run);
        push_str(out, "Pruned ");
        let t = format_number(n);
        push_str(out, t.as_str());
        push_str(out, suffix);
    }
    assert(out@ =~= start + snapshots_part(dry_run, n, suffix@));
}

/// Appends the line counting cleaned registry entries.
fn push_registry_part(out: &mut String, dry_run: bool, entries: u64)
    ensures
        final(out)@ == old(out)@ + registry_part(dry_run, entries),
{
    let ghost start = out@;
    if entries > 0 {
        push_prefix(out, dry_run);
        push_str(out, "Cleaned ");
        let t = format_number(entries);
        push_str(out, t.as_str());
        push_str(out, " stale registry entries.\n");
    }
    assert(out@ =~= start + registry_part(dry_run, entries));
}

/// Appends the dry-run prefix.
fn push_prefix(out: &mut String, dry_run: bool)
    ensures
        final(out)@ == old(out)@ + dry_prefix(dry_run),
{
    if dry_run {
        push_str(out, "[dry run] ");
    } else {
        assert(old(out)@ + dry_prefix(dry_run) =~= old(out)@);
    }
}

/// Appends the objects line of a report.
fn push_objects_line(out: &mut String, dry_run: bool, objects: u64, bytes: u64)
    ensures
        final(out)@ == old(out)@ + objects_part(dry_run, objects, bytes),
{
    let ghost start = out@;
    if objects == 0 {
        assert(out@ =~= start + objects_part(dry_run, objects, bytes));
        return;
    }
    push_prefix(out, dry_run);
    push_str(out, "Removed ");
    let n = format_number(objects);
    push_str(out, n.as_str());
    push_str(out, " orphaned objects (");
    let b = format_size(bytes);
    push_str(out, b.as_str());
    push_str(out, " freed).\n");
    assert(out@ =~= start + objects_part(dry_run, objects, bytes));
}

/// The report of a single-project prune, given the cutoff's local text (see
/// `report_text`); a dry run and a real run report the same cutoff.
pub fn human_output(dry_run: bool, cutoff_local: &str, stats: &PruneStats) -> (r: String)
    ensures
        r@ == report_text(dry_run, cutoff_local@, *stats),
{
    let mut out = String::from_str("Pruning snapshots older than ");
    push_str(&mut out, cutoff_local);
    push_str(&mut out, "\n");
    let ghost head = out@;
    if stats.snapshots_removed == 0 && stats.objects_removed == 0 {
        push_prefix(&mut out, dry_run);
        push_str(&mut out, "Nothing to prune.\n");
        assert(out@ =~= report_text(dry_run, cutoff_local@, *stats));
        return out;
    }
    let ghost before_snap = out@;
    push_snapshots_part(&mut out, dry_run, stats.snapshots_removed, " snapshots.\n");
    push_objects_line(&mut out, dry_run, stats.objects_removed, stats.bytes_freed);
    assert(out@ =~= report_text(dry_run, cutoff_local@, *stats));
    out
}

/// The report of a prune of every project, given the cutoff's local text
/// (see `all_report_text`).
pub fn human_output_with_registry(
    dry_run: bool,
    cutoff_local: &str,
    total_snapshots: u64,
    total_objects: u64,
    total_bytes: u64,
    registry_entries: u64,
) -> (r: String)
    ensures
        r@ == all_report_text(
            dry_run,
            cutoff_local@,
            PruneStats { snapshots_removed: total_snapshots, objects_removed: total_objects, bytes_freed: total_bytes },
            registry_entries,
        ),
{
    let ghost s = PruneStats { snapshots_removed: total_snapshots, objects_removed: total_objects, bytes_freed: total_bytes };
    let mut out = String::from_str("Pruning snapshots older than ");
    push_str(&mut out, cutoff_local);
    push_str(&mut out, "\n");
    if total_snapshots == 0 && total_objects == 0 && registry_entries == 0 {
        push_prefix(&mut out, dry_run);
        push_str(&mut out, "Nothing to prune.\n");
        assert(out@ =~= all_report_text(dry_run, cutoff_local@, s, registry_entries));
        return out;
    }
    let ghost a = out@;
    push_snapshots_part(&mut out, dry_run, total_snapshots, " snapshots across all projects.\n");
    push_objects_line(&mut out, dry_run, total_objects, total_bytes);
    push_registry_part(&mut out, dry_run, registry_entries);
    assert(out@ =~= all_report_text(dry_run, cutoff_local@, s, registry_entries));
    out
}

/// A dry run and a real run report the same cutoff: both reports begin with
/// the same cutoff line, for a single project and for every project.
pub proof fn lemma_same_cutoff(cutoff_local: Seq<char>, s: PruneStats, t: PruneStats, registry_entries: u64)
    ensures
        report_text(true, cutoff_local, s).subrange(0, cutoff_line(cutoff_local).len() as int)
            == cutoff_line(cutoff_local),
        report_text(false, cutoff_local, t).subrange(0, cutoff_line(cutoff_local).len() as int)
            == cutoff_line(cutoff_local),
        all_report_text(true, cutoff_local, s, registry_entries).subrange(0, cutoff_line(cutoff_local).len() as int)
            == cutoff_line(cutoff_local),
        all_report_text(false, cutoff_local, t, registry_entries).subrange(0, cutoff_line(cutoff_local).len() as int)
            == cutoff_line(cutoff_local),
{
    let c = cutoff_line(cutoff_local);
    assert(report_text(true, cutoff_local, s).subrange(0, c.len() as int) =~= c);
    assert(report_text(false, cutoff_local, t).subrange(0, c.len() as int) =~= c);
    assert(all_report_text(true, cutoff_local, s, registry_entries).subrange(0, c.len() as int) =~= c);
    assert(all_report_text(false, cutoff_local, t, registry_entries).subrange(0, c.len() as int) =~= c);
}

/// The serialisable report of a single-project prune.
pub fn prune_output(dry_run: bool, stats: &PruneStats) -> (r: PruneOutput)
    ensures
        r == (PruneOutput {
            dry_run,
            snapshots_removed: stats.snapshots_removed,
            objects_removed: stats.objects_removed,
            bytes_freed: stats.bytes_freed,
            registry_entries_cleaned: None,
        }),
{
    PruneOutput {
        dry_run,
        snapshots_removed: stats.snapshots_removed,
        objects_removed: stats.objects_removed,
        bytes_freed: stats.bytes_freed,
        registry_entries_cleaned: None,
    }
}

/// The serialisable report of a prune of every project: its totals, and
/// the stale registry entries removed (none counted on a dry run).
pub fn all_prune_output(dry_run: bool, totals: &PruneStats, registry_entries: u64) -> (r: PruneOutput)
    ensures
        r == (PruneOutput {
            dry_run,
            snapshots_removed: totals.snapshots_removed,
            objects_removed: totals.objects_removed,
            bytes_freed: totals.bytes_freed,
            registry_entries_cleaned: Some(if dry_run {
                0
            } else {
                registry_entries
            }),
        }),
{
    PruneOutput {
        dry_run,
        snapshots_removed: totals.snapshots_removed,
        objects_removed: totals.objects_removed,
        bytes_freed: totals.bytes_freed,
        registry_entries_cleaned: Some(
            if dry_run {
                0
            } else {
                registry_entries
            },
        ),
    }
}

/// The window of snapshots that survives a prune at `cutoff` (instants in
/// nanoseconds): from the later of the oldest snapshot and the cutoff, to
/// the newest. None without snapshots, or when even the newest is older
/// than the cutoff: the prune then erases the whole history.
pub open spec fn surviving(oldest: Option<i64>, newest: Option<i64>, cutoff: i64) -> Option<(i64, i64)> {
    match (oldest, newest) {
        (Some(o), Some(n)) => if n < cutoff {
            None
        } else {
            Some((if o < cutoff { cutoff } else { o }, n))
        },
        _ => None,
    }
}

/// The window that survives a prune (see `surviving`).
pub fn retained_range(oldest: Option<i64>, newest: Option<i64>, cutoff: i64) -> (r: Option<(i64, i64)>)
    ensures
        r == surviving(oldest, newest, cutoff),
{
    match (oldest, newest) {
        (Some(o), Some(n)) => {
            if n < cutoff {
                None
            } else {
                Some((if o < cutoff { cutoff } else { o }, n))
            }
        },
        _ => None,
    }
}

/// What a prune does, or would do, to one project.
#[derive(Clone, Debug)]
pub struct ProjectPrune {
    /// The project's root.
    pub path: String,
    /// What goes.
    pub stats: PruneStats,
    /// How many snapshots remain.
    pub snapshots_kept: u64,
    /// Local text of the surviving window's ends; none when nothing
    /// survives.
    pub retained: Option<(String, String)>,
}

/// One project's block of the preview: what goes, then what stays.
pub open spec fn project_block_text(p: ProjectPrune) -> Seq<char> {
    "  "@ + p.path@ + "\n"@ + "    delete  "@ + group_thousands(decimal(p.stats.snapshots_removed as nat))
        + " snapshots, "@ + group_thousands(decimal(p.stats.objects_removed as nat)) + " objects, "@
        + size_text(p.stats.bytes_freed as nat) + "\n"@ + match p.retained {
        Some(w) => "    keep    "@ + group_thousands(decimal(p.snapshots_kept as nat)) + " snapshots, "@
            + w.0@ + " to "@ + w.1@ + "\n\n"@,
        None => "    keep    nothing: this removes the project's entire history\n\n"@,
    }
}

/// The blocks of the first `k` projects.
pub open spec fn blocks_text(ps: Seq<ProjectPrune>, k: int) -> Seq<char>
    decreases k,
{
    if k <= 0 {
        Seq::empty()
    } else {
        blocks_text(ps, k - 1) + project_block_text(ps[k - 1])
    }
}

/// The stats of each project.
pub open spec fn stats_of(ps: Seq<ProjectPrune>) -> Seq<PruneStats> {
    Seq::new(ps.len(), |i: int| ps[i].stats)
}

/// The preview shown before a wide prune deletes anything: the cutoff line
/// a real run prints, each project's block, and the totals.
pub open spec fn preview_text(ps: Seq<ProjectPrune>, cutoff_local: Seq<char>) -> Seq<char> {
    let t = sum_stats(stats_of(ps));
    "Pruning snapshots older than "@ + cutoff_local + "\n\n"@ + blocks_text(ps, ps.len() as int)
        + "Total: "@ + group_thousands(decimal(t.0 as nat)) + " snapshots, "@ + group_thousands(
        decimal(t.1 as nat),
    ) + " objects, "@ + size_text(t.2 as nat) + " across "@ + decimal(ps.len()) + " project"@
        + if ps.len() == 1 {
        Seq::empty()
    } else {
        "s"@
    } + ".\n"@
}

/// Appends one project's block.
fn push_project_block(out: &mut String, p: &ProjectPrune)
    ensures
        final(out)@ == old(out)@ + project_block_text(*p),
{
    push_str(out, "  ");
    push_str(out, p.path.as_str());
    push_str(out, "\n");
    push_str(out, "    delete  ");
    let a = format_number(p.stats.snapshots_removed);
    push_str(out, a.as_str());
    push_str(out, " snapshots, ");
    let b = format_number(p.stats.objects_removed);
    push_str(out, b.as_str());
    push_str(out, " objects, ");
    let c = format_size(p.stats.bytes_freed);
    push_str(out, c.as_str());
    push_str(out, "\n");
    match &p.retained {
        Some(w) => {
            push_str(out, "    keep    ");
            let k = format_number(p.snapshots_kept);
            push_str(out, k.as_str());
            push_str(out, " snapshots, ");
            push_str(out, w.0.as_str());
            push_str(out, " to ");
            push_str(out, w.1.as_str());
            push_str(out, "\n\n");
        },
        None => {
            push_str(out, "    keep    nothing: this removes the project's entire history\n\n");
        },
    }
}

/// The preview of a prune of several projects (see `preview_text`).
pub fn preview(projects: &[ProjectPrune], cutoff_local: &str) -> (r: String)
    requires
        sum_stats(stats_of(projects@)).0 <= u64::MAX,
        sum_stats(stats_of(projects@)).1 <= u64::MAX,
        sum_stats(stats_of(projects@)).2 <= u64::MAX,
    ensures
        r@ == preview_text(projects@, cutoff_local@),
{
    let mut out = String::from_str("Pruning snapshots older than ");
    push_str(&mut out, cutoff_local);
    push_str(&mut out, "\n\n");
    let ghost head = out@;
    let mut stats: Vec<PruneStats> = Vec::new();
    let mut k: usize = 0;
    while k < projects.len()
        invariant
            k <= projects@.len(),
            out@ == head + blocks_text(projects@, k as int),
            stats@ == stats_of(projects@).subrange(0, k as int),
        decreases projects@.len() - k,
    {
        push_project_block(&mut out, &projects[k]);
        stats.push(projects[k].stats);
        proof {
            assert(stats_of(projects@).subrange(0, k + 1) =~= stats_of(projects@).subrange(
                0,
                k as int,
            ).push(projects@[k as int].stats));
        }
        k = k + 1;
    }
    proof {
        assert(stats@ =~= stats_of(projects@));
    }
    let t = total_stats(stats.as_slice());
    push_str(&mut out, "Total: ");
    let a = format_number(t.snapshots_removed);
    push_str(&mut out, a.as_str());
    push_str(&mut out, " snapshots, ");
    let b = format_number(t.objects_removed);
    push_str(&mut out, b.as_str());
    push_str(&mut out, " objects, ");
    let c = format_size(t.bytes_freed);
    push_str(&mut out, c.as_str());
    push_str(&mut out, " across ");
    push_decimal(&mut out, projects.len() as u64);
    push_str(&mut out, " project");
    if projects.len() != 1 {
        push_str(&mut out, "s");
    }
    push_str(&mut out, ".\n");
    proof {
        reveal_strlit("s");
        assert(out@ =~= preview_text(projects@, cutoff_local@));
    }
    out
}

} // verus!
