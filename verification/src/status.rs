//! The decisions and the text of `unf status`: which of the three modes a
//! directory is in, and what is shown for each.

use vstd::prelude::*;
use vstd::string::StrSliceExecFns;
use vstd::string::StringExecFns;
use crate::output::{format_number, format_size, group_thousands, size_text};
use crate::paths::{paths_equal, same_path};
use crate::text::{decimal, push_decimal, push_str};
use crate::types::{seconds_between, seconds_diff};

verus! {

/// What the registry says of a project.
#[derive(Clone, Copy, Debug, Default, PartialEq, Eq, Structural)]
pub struct RegistryFacts {
    /// The project has an entry in the registry.
    pub registered: bool,
    /// The entry carries `--force-watch-gitignore`.
    pub force_watch_gitignore: bool,
}

/// One entry of the registry, as the status command reads it.
#[derive(Clone, Debug)]
pub struct RegistryEntry {
    /// Path of the project.
    pub path: String,
    /// The project records what `.gitignore` excludes.
    pub force_watch_gitignore: bool,
}

/// The entry at `i` is the first one for `root`.
pub open spec fn first_entry_for(entries: Seq<RegistryEntry>, root: Seq<char>, i: int) -> bool {
    &&& 0 <= i < entries.len()
    &&& same_path(entries[i].path@, root)
    &&& forall|j: int| 0 <= j < i ==> !same_path(#[trigger] entries[j].path@, root)
}

/// The registry has an entry for `root`.
pub open spec fn has_entry_for(entries: Seq<RegistryEntry>, root: Seq<char>) -> bool {
    exists|i: int| 0 <= i < entries.len() && same_path(#[trigger] entries[i].path@, root)
}

/// Looks a project up in the registry's entries (`None`: the registry could
/// not be read). The first entry for the path gives the facts; without one
/// the project is not registered.
pub fn lookup_registry_facts(entries: Option<&Vec<RegistryEntry>>, root: &str) -> (r: RegistryFacts)
    ensures
        entries is None ==> r == RegistryFacts::default_facts(),
        entries is Some ==> r.registered == has_entry_for(entries->0@, root@),
        !r.registered ==> !r.force_watch_gitignore,
        r.registered ==> exists|i: int|
            first_entry_for(entries->0@, root@, i) && #[trigger] entries->0@[i].force_watch_gitignore
                == r.force_watch_gitignore,
{
    let es = match entries {
        None => {
            return RegistryFacts { registered: false, force_watch_gitignore: false };
        },
        Some(es) => es,
    };
    let mut i: usize = 0;
    while i < es.len()
        invariant
            i <= es@.len(),
            entries == Some(es),
            forall|j: int| 0 <= j < i ==> !same_path(#[trigger] es@[j].path@, root@),
        decreases es@.len() - i,
    {
        if paths_equal(es[i].path.as_str(), root) {
            let f = es[i].force_watch_gitignore;
            proof {
                assert(first_entry_for(es@, root@, i as int));
                assert(has_entry_for(es@, root@));
                assert(entries->0@[i as int].force_watch_gitignore == f);
                assert(exists|k: int|
                    first_entry_for(entries->0@, root@, k) && #[trigger] entries->0@[k].force_watch_gitignore
                        == f);
            }
            return RegistryFacts { registered: true, force_watch_gitignore: f };
        }
        i = i + 1;
    }
    RegistryFacts { registered: false, force_watch_gitignore: false }
}

impl RegistryFacts {
    /// Nothing known: not registered.
    pub open spec fn default_facts() -> RegistryFacts {
        RegistryFacts { registered: false, force_watch_gitignore: false }
    }
}

/// The three modes of a directory.
#[derive(Clone, Copy, Debug, PartialEq, Eq, Structural)]
pub enum StatusMode {
    /// The directory has never been watched.
    NeverWatched,
    /// The directory was watched before and is not now.
    PreviouslyWatched,
    /// The directory is being watched.
    ActivelyWatching,
}

/// A project is being watched when it is registered and the global daemon
/// is alive.
pub fn is_daemon_watching_project(facts: RegistryFacts, daemon_alive: bool) -> (r: bool)
    ensures
        r == (facts.registered && daemon_alive),
{
    if !facts.registered {
        return false;
    }
    daemon_alive
}

/// The mode of a directory: never watched without a registry entry;
/// watched when registered and the daemon is alive; else previously
/// watched.
pub fn determine_status_mode(facts: RegistryFacts, daemon_alive: bool) -> (r: StatusMode)
    ensures
        !facts.registered ==> r == StatusMode::NeverWatched,
        facts.registered && daemon_alive ==> r == StatusMode::ActivelyWatching,
        facts.registered && !daemon_alive ==> r == StatusMode::PreviouslyWatched,
{
    if !facts.registered {
        return StatusMode::NeverWatched;
    }
    if is_daemon_watching_project(facts, daemon_alive) {
        StatusMode::ActivelyWatching
    } else {
        StatusMode::PreviouslyWatched
    }
}

/// The number of a mode in the JSON output.
pub fn mode_number(mode: StatusMode) -> (r: u8)
    ensures
        r == match mode {
            StatusMode::NeverWatched => 0u8,
            StatusMode::PreviouslyWatched => 1u8,
            StatusMode::ActivelyWatching => 2u8,
        },
{
    match mode {
        StatusMode::NeverWatched => 0,
        StatusMode::PreviouslyWatched => 1,
        StatusMode::ActivelyWatching => 2,
    }
}

/// Why a directory is not recording, in the JSON output.
pub fn mode_reason(mode: StatusMode) -> (r: Option<String>)
    ensures
        match mode {
            StatusMode::NeverWatched => r matches Some(s) && s@ == "never_watched"@,
            StatusMode::PreviouslyWatched => r matches Some(s) && s@
                == "previously_watched_inactive"@,
            StatusMode::ActivelyWatching => r is None,
        },
{
    match mode {
        StatusMode::NeverWatched => Some(String::from_str("never_watched")),
        StatusMode::PreviouslyWatched => Some(String::from_str("previously_watched_inactive")),
        StatusMode::ActivelyWatching => None,
    }
}

/// `word`, with an `s` unless there is exactly one.
pub open spec fn plural_text(count: nat, word: Seq<char>) -> Seq<char> {
    if count == 1 {
        word
    } else {
        word + "s"@
    }
}

/// The singular or plural form of a word.
pub fn plural(count: u64, singular: &str) -> (r: String)
    ensures
        r@ == plural_text(count as nat, singular@),
{
    let mut r = String::from_str(singular);
    if count != 1 {
        push_str(&mut r, "s");
        proof {
            reveal_strlit("s");
        }
    }
    r
}

/// How long ago recording started, in the largest whole unit: `30 seconds
/// ago` (seconds keep their `s`), `1 minute ago`, `2 hours ago`, `3 days ago`.
pub open spec fn ago_text(secs: nat) -> Seq<char> {
    if secs < 60 {
        decimal(secs) + " seconds ago"@
    } else if secs < 3600 {
        decimal(secs / 60) + " "@ + plural_text(secs / 60, "minute"@) + " ago"@
    } else if secs < 86400 {
        decimal(secs / 3600) + " "@ + plural_text(secs / 3600, "hour"@) + " ago"@
    } else {
        decimal(secs / 86400) + " "@ + plural_text(secs / 86400, "day"@) + " ago"@
    }
}

fn push_count_ago(r: &mut String, n: u64, word: &str)
    ensures
        final(r)@ == old(r)@ + decimal(n as nat) + " "@ + plural_text(n as nat, word@) + " ago"@,
{
    push_decimal(r, n);
    push_str(r, " ");
    let w = plural(n, word);
    push_str(r, w.as_str());
    push_str(r, " ago");
}

/// Formats the time since recording started (see `ago_text`).
pub fn format_duration(duration_secs: u64) -> (r: String)
    ensures
        r@ == ago_text(duration_secs as nat),
{
    let mut r = String::new();
    if duration_secs < 60 {
        push_decimal(&mut r, duration_secs);
        push_str(&mut r, " seconds ago");
    } else if duration_secs < 3600 {
        push_count_ago(&mut r, duration_secs / 60, "minute");
    } else if duration_secs < 86400 {
        push_count_ago(&mut r, duration_secs / 3600, "hour");
    } else {
        push_count_ago(&mut r, duration_secs / 86400, "day");
    }
    r
}

/// The time since the oldest snapshot (nanoseconds since the epoch) at
/// `now`; `0 seconds ago` without snapshots. Time before it counts as none.
pub fn duration_since_text(oldest: Option<i64>, now: i64) -> (r: String)
    ensures
        match oldest {
            None => r@ == "0 seconds ago"@,
            Some(t) => r@ == ago_text(
                if seconds_between(t as int, now as int) < 0 {
                    0nat
                } else {
                    seconds_between(t as int, now as int) as nat
                },
            ),
        },
{
    match oldest {
        None => String::from_str("0 seconds ago"),
        Some(t) => {
            let s = seconds_diff(t, now);
            let secs: u64 = if s < 0 {
                0
            } else {
                s as u64
            };
            format_duration(secs)
        },
    }
}

/// The lines shown for a directory that is not being watched.
pub fn unwatched_lines(mode: StatusMode) -> (r: Vec<String>)
    requires
        mode != StatusMode::ActivelyWatching,
    ensures
        r@.len() == 2,
        mode == StatusMode::NeverWatched ==> r@[0]@ == "This directory is not being watched."@
            && r@[1]@ == "Run 'unf watch' to start recording changes."@,
        mode == StatusMode::PreviouslyWatched ==> r@[0]@
            == "This directory was previously watched but is not currently active."@ && r@[1]@
            == "Run 'unf watch' to resume recording. Your history is safe."@,
{
    let mut r: Vec<String> = Vec::new();
    match mode {
        StatusMode::NeverWatched => {
            r.push(String::from_str("This directory is not being watched."));
            r.push(String::from_str("Run 'unf watch' to start recording changes."));
        },
        _ => {
            r.push(
                String::from_str(
                    "This directory was previously watched but is not currently active.",
                ),
            );
            r.push(String::from_str("Run 'unf watch' to resume recording. Your history is safe."));
        },
    }
    r
}

/// The figures shown for a watched directory.
#[derive(Clone, Debug)]
pub struct WatchingFigures {
    /// How long ago recording started.
    pub since: String,
    pub snapshots: u64,
    pub files_tracked: u64,
    pub store_bytes: u64,
    pub force_watch_gitignore: bool,
    pub auto_restart: bool,
}

/// The lines shown for a watched directory: since when, the counts, the
/// store size, a line on `.gitignore` only when it is not applied, and the
/// auto-restart state.
pub open spec fn watching_text(f: WatchingFigures) -> Seq<Seq<char>> {
    let head = seq![
        "Watching since "@ + f.since@,
        "  Snapshots:  "@ + group_thousands(decimal(f.snapshots as nat)),
        "  Files tracked:  "@ + group_thousands(decimal(f.files_tracked as nat)),
        "  Store size:  "@ + size_text(f.store_bytes as nat),
    ];
    let with_gitignore = if f.force_watch_gitignore {
        head.push("  Gitignore:  not applied (--force-watch-gitignore)"@)
    } else {
        head
    };
    with_gitignore.push(
        "  Auto-restart: "@ + if f.auto_restart {
            "enabled"@
        } else {
            "disabled"@
        },
    )
}

/// The lines shown for a watched directory (see `watching_text`).
pub fn watching_lines(f: &WatchingFigures) -> (r: Vec<String>)
    ensures
        r@.len() == watching_text(*f).len(),
        forall|i: int| 0 <= i < r@.len() ==> #[trigger] r@[i]@ == watching_text(*f)[i],
{
    let mut r: Vec<String> = Vec::new();
    let mut l0 = String::from_str("Watching since ");
    push_str(&mut l0, f.since.as_str());
    r.push(l0);
    let mut l1 = String::from_str("  Snapshots:  ");
    let n1 = format_number(f.snapshots);
    push_str(&mut l1, n1.as_str());
    r.push(l1);
    let mut l2 = String::from_str("  Files tracked:  ");
    let n2 = format_number(f.files_tracked);
    push_str(&mut l2, n2.as_str());
    r.push(l2);
    let mut l3 = String::from_str("  Store size:  ");
    let n3 = format_size(f.store_bytes);
    push_str(&mut l3, n3.as_str());
    r.push(l3);
    if f.force_watch_gitignore {
        r.push(String::from_str("  Gitignore:  not applied (--force-watch-gitignore)"));
    }
    let mut l5 = String::from_str("  Auto-restart: ");
    if f.auto_restart {
        push_str(&mut l5, "enabled");
    } else {
        push_str(&mut l5, "disabled");
    }
    r.push(l5);
    proof {
        let t = watching_text(*f);
        assert(r@.len() == t.len());
        assert forall|i: int| 0 <= i < r@.len() implies #[trigger] r@[i]@ == t[i] by {}
    }
    r
}

} // verus!
