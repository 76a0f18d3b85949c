//! The decisions of `unf config --move-storage`: where the data goes,
//! whether the move may start, what the progress lines say, and the states
//! a move passes through.
//!
//! The copying, the daemon handling and the file system checks happen in
//! the program around the library; they hand their findings to these
//! functions as plain values.

use vstd::prelude::*;
use vstd::string::StrSliceExecFns;
use vstd::string::StringExecFns;
use crate::output::{format_size, plural_suffix, size_text};
use crate::paths::{
    is_absolute, join_path, joined, path_is_absolute, path_starts_with, paths_equal, same_path,
    starts_with_path,
};
use crate::places::home_dir_text;
use crate::text::{char_len, decimal, push_decimal, push_str, str_eq};
use crate::types::UnfError;

verus! {

// ---------------------------------------------------------------------------
// States of a move
// ---------------------------------------------------------------------------

/// The state of a move, recorded in its lock file. States follow one
/// another in the order of the variants.
#[derive(Clone, Copy, Debug, PartialEq, Eq, Structural)]
pub enum MigrationState {
    Preflight,
    DaemonStopped,
    Copying,
    Swapped,
}

impl MigrationState {
    /// The position of the state in the order of a move.
    pub open spec fn rank(self) -> nat {
        match self {
            MigrationState::Preflight => 0,
            MigrationState::DaemonStopped => 1,
            MigrationState::Copying => 2,
            MigrationState::Swapped => 3,
        }
    }

    /// The name under which the state is written.
    pub open spec fn spec_label(self) -> Seq<char> {
        match self {
            MigrationState::Preflight => "preflight"@,
            MigrationState::DaemonStopped => "daemon_stopped"@,
            MigrationState::Copying => "copying"@,
            MigrationState::Swapped => "swapped"@,
        }
    }

    /// The name under which the state is written (`preflight`,
    /// `daemon_stopped`, `copying`, `swapped`).
    pub fn to_string(&self) -> (r: String)
        ensures
            r@ == self.spec_label(),
    {
        match self {
            MigrationState::Preflight => String::from_str("preflight"),
            MigrationState::DaemonStopped => String::from_str("daemon_stopped"),
            MigrationState::Copying => String::from_str("copying"),
            MigrationState::Swapped => String::from_str("swapped"),
        }
    }

    /// The state that follows this one: one step further in the order;
    /// none after `Swapped`, the last.
    pub fn next(self) -> (r: Option<MigrationState>)
        ensures
            match r {
                Some(t) => t.rank() == self.rank() + 1,
                None => self.rank() == 3,
            },
    {
        match self {
            MigrationState::Preflight => Some(MigrationState::DaemonStopped),
            MigrationState::DaemonStopped => Some(MigrationState::Copying),
            MigrationState::Copying => Some(MigrationState::Swapped),
            MigrationState::Swapped => None,
        }
    }
}

/// A state is known by its position: so `next` has one possible result.
pub proof fn lemma_rank_identifies_state(a: MigrationState, b: MigrationState)
    requires
        a.rank() == b.rank(),
    ensures
        a == b,
{
}

/// The order of a move runs from `Preflight`, the first state, to
/// `Swapped`, the last, through four states.
pub proof fn lemma_states_in_order(s: MigrationState)
    ensures
        s.rank() <= 3,
        s.rank() == 3 <==> s == MigrationState::Swapped,
        s.rank() == 0 <==> s == MigrationState::Preflight,
{
}

// ---------------------------------------------------------------------------
// Resolving the destination
// ---------------------------------------------------------------------------

/// The error when the home directory is unknown.
pub const HOME_UNKNOWN_MESSAGE: &'static str =
    "Cannot determine home directory. No changes made.";

/// The error for a destination that is not absolute.
pub const RELATIVE_PATH_MESSAGE: &'static str = "Path must be absolute. No changes made.";

/// The name of the default storage directory in the home directory.
pub const DEFAULT_STORAGE_NAME: &'static str = ".unfudged";

/// The default storage directory of a home directory.
pub open spec fn default_storage(home: Seq<char>) -> Seq<char> {
    joined(home, DEFAULT_STORAGE_NAME@)
}

/// What resolving `dest_arg` gives with the home directory `home`:
/// `"default"` names the default storage directory; any other value must be
/// absolute, and is the default when it is that same path.
pub open spec fn is_resolution(
    dest_arg: Seq<char>,
    home: Option<Seq<char>>,
    r: Result<(String, bool), UnfError>,
) -> bool {
    match home {
        None => r matches Err(e) && e is Config && e.spec_message() == HOME_UNKNOWN_MESSAGE@,
        Some(h) => if dest_arg == "default"@ {
            r matches Ok(p) && p.0@ == default_storage(h) && p.1
        } else if !is_absolute(dest_arg) {
            r matches Err(e) && e is InvalidArgument && e.spec_message() == RELATIVE_PATH_MESSAGE@
        } else {
            r matches Ok(p) && p.0@ == dest_arg && p.1 == same_path(dest_arg, default_storage(h))
        },
    }
}

/// The view of an optional text.
pub open spec fn opt_view(o: Option<&str>) -> Option<Seq<char>> {
    match o {
        Some(s) => Some(s@),
        None => None,
    }
}

/// Resolves the destination of a move with the given home directory (see
/// `is_resolution`). Returns the path and whether it is the default.
pub fn resolve_destination_in(dest_arg: &str, home: Option<&str>) -> (r: Result<
    (String, bool),
    UnfError,
>)
    ensures
        is_resolution(dest_arg@, opt_view(home), r),
{
    let h = match home {
        None => {
            return Err(UnfError::Config(String::from_str(HOME_UNKNOWN_MESSAGE)));
        },
        Some(h) => h,
    };
    let default_path = join_path(h, DEFAULT_STORAGE_NAME);
    if str_eq(dest_arg, "default") {
        return Ok((default_path, true));
    }
    proof {
        reveal_strlit("default");
    }
    if !path_is_absolute(dest_arg) {
        return Err(UnfError::InvalidArgument(String::from_str(RELATIVE_PATH_MESSAGE)));
    }
    let is_default = paths_equal(dest_arg, default_path.as_str());
    Ok((String::from_str(dest_arg), is_default))
}

/// Resolves the destination of a move with the user's home directory.
///
/// The home directory comes from the environment: the result is the
/// resolution of `dest_arg` for whatever home directory was found, or for
/// none.
pub fn resolve_destination(dest_arg: &str) -> (r: Result<(String, bool), UnfError>)
    ensures
        exists|home: Option<Seq<char>>| is_resolution(dest_arg@, home, r),
{
    let home = home_dir_text();
    let r = match &home {
        Some(h) => resolve_destination_in(dest_arg, Some(h.as_str())),
        None => resolve_destination_in(dest_arg, None),
    };
    proof {
        let hv = match &home {
            Some(h) => Some(h@),
            None => None,
        };
        assert(is_resolution(dest_arg@, hv, r));
    }
    r
}

// ---------------------------------------------------------------------------
// Checks before a move
// ---------------------------------------------------------------------------

/// The error for a destination that is the current storage directory.
pub const SAME_LOCATION_MESSAGE: &'static str =
    "Destination is the same as the current storage location. No changes made.";

/// What the file system says of the destination before a move.
#[derive(Clone, Debug)]
pub struct DestinationFacts {
    /// The destination made canonical, where that succeeded.
    pub canonical_dest: Option<String>,
    /// The current storage directory made canonical, where that succeeded.
    pub canonical_source: Option<String>,
    /// The destination exists.
    pub present: bool,
    /// The destination could be listed and holds no entry.
    pub empty: bool,
}

/// The destination lies inside the current storage directory: judged on
/// the canonical paths where both could be had, else on the paths given.
pub open spec fn inside_source(dest: Seq<char>, source: Seq<char>, facts: DestinationFacts) -> bool {
    match (facts.canonical_dest, facts.canonical_source) {
        (Some(d), Some(s)) => path_starts_with(d@, s@),
        _ => path_starts_with(dest, source),
    }
}

/// The error for a destination inside the current storage directory.
pub open spec fn inside_message(dest: Seq<char>) -> Seq<char> {
    dest + " is inside the current storage directory. No changes made."@
}

/// The error for a destination that holds data, without `--force`.
pub open spec fn has_data_message(dest: Seq<char>) -> Seq<char> {
    dest + " already contains data. Use --force to overwrite. No changes made."@
}

/// The outcome of the checks before a move: the refusal's message, or
/// whether the data at the destination is to be removed first (it holds
/// data and `--force` was given).
pub open spec fn preflight_outcome(
    source: Seq<char>,
    dest: Seq<char>,
    force: bool,
    facts: DestinationFacts,
) -> Result<bool, Seq<char>> {
    if same_path(dest, source) {
        Err(SAME_LOCATION_MESSAGE@)
    } else if inside_source(dest, source, facts) {
        Err(inside_message(dest))
    } else if facts.present && !facts.empty && !force {
        Err(has_data_message(dest))
    } else {
        Ok(facts.present && !facts.empty)
    }
}

/// Refuses a destination that is the current storage directory.
pub fn check_dest_not_source(dest: &str, source: &str) -> (r: Result<(), UnfError>)
    ensures
        same_path(dest@, source@) ==> (r matches Err(e) && e is InvalidArgument
            && e.spec_message() == SAME_LOCATION_MESSAGE@),
        !same_path(dest@, source@) ==> r is Ok,
{
    if paths_equal(dest, source) {
        return Err(UnfError::InvalidArgument(String::from_str(SAME_LOCATION_MESSAGE)));
    }
    Ok(())
}

/// Refuses a destination inside the current storage directory, which the
/// copy would otherwise copy into itself.
pub fn check_dest_not_inside_source(dest: &str, source: &str, facts: &DestinationFacts) -> (r:
    Result<(), UnfError>)
    ensures
        inside_source(dest@, source@, *facts) ==> (r matches Err(e) && e is InvalidArgument
            && e.spec_message() == inside_message(dest@)),
        !inside_source(dest@, source@, *facts) ==> r is Ok,
{
    let inside = match (&facts.canonical_dest, &facts.canonical_source) {
        (Some(d), Some(s)) => starts_with_path(d.as_str(), s.as_str()),
        _ => starts_with_path(dest, source),
    };
    if inside {
        let mut m = String::from_str(dest);
        push_str(&mut m, " is inside the current storage directory. No changes made.");
        return Err(UnfError::InvalidArgument(m));
    }
    Ok(())
}

/// Refuses a destination that holds data unless `force` is given; with
/// `force`, says that the data there is to be removed first.
pub fn check_dest_empty_or_force(dest: &str, force: bool, present: bool, empty: bool) -> (r: Result<
    bool,
    UnfError,
>)
    ensures
        present && !empty && !force ==> (r matches Err(e) && e is InvalidArgument
            && e.spec_message() == has_data_message(dest@)),
        !(present && !empty && !force) ==> (r matches Ok(clear) && clear == (present && !empty)),
{
    if !present || empty {
        return Ok(false);
    }
    if !force {
        let mut m = String::from_str(dest);
        push_str(&mut m, " already contains data. Use --force to overwrite. No changes made.");
        return Err(UnfError::InvalidArgument(m));
    }
    Ok(true)
}

/// The checks before a move, in order (see `preflight_outcome`): the
/// destination is not the storage directory, not inside it, and empty
/// unless `force` is given. `Ok(true)` asks for the data at the destination
/// to be removed; the disk space is checked after that, by
/// `check_disk_space`.
pub fn preflight_checks(source: &str, dest: &str, force: bool, facts: &DestinationFacts) -> (r:
    Result<bool, UnfError>)
    ensures
        match preflight_outcome(source@, dest@, force, *facts) {
            Ok(clear) => r matches Ok(c) && c == clear,
            Err(m) => r matches Err(e) && e is InvalidArgument && e.spec_message() == m,
        },
{
    match check_dest_not_source(dest, source) {
        Err(e) => {
            return Err(e);
        },
        Ok(()) => {},
    }
    match check_dest_not_inside_source(dest, source, facts) {
        Err(e) => {
            return Err(e);
        },
        Ok(()) => {},
    }
    check_dest_empty_or_force(dest, force, facts.present, facts.empty)
}

/// The error for a destination without room for the data.
pub open spec fn space_message(dest: Seq<char>, need: nat, have: nat) -> Seq<char> {
    "Not enough space at "@ + dest + ". Need "@ + size_text(need) + ", have "@ + size_text(have)
        + " available. No changes made."@
}

/// There is data to move and less space known to be available than it.
pub open spec fn short_of_space(source_size: u64, available: Option<u64>) -> bool {
    match available {
        Some(a) => source_size > 0 && a < source_size,
        None => false,
    }
}

/// Refuses a move when the space known to be available at the destination
/// is less than the data to move. Nothing to move, or no known space, lets
/// the move go on.
pub fn check_disk_space(dest: &str, source_size: u64, available: Option<u64>) -> (r: Result<
    (),
    UnfError,
>)
    ensures
        short_of_space(source_size, available) ==> (r matches Err(e)
            && e is InvalidArgument && e.spec_message() == space_message(
            dest@,
            source_size as nat,
            available->0 as nat,
        )),
        !short_of_space(source_size, available) ==> r is Ok,
{
    if source_size == 0 {
        return Ok(());
    }
    match available {
        Some(a) => {
            if a < source_size {
                let mut m = String::from_str("Not enough space at ");
                push_str(&mut m, dest);
                push_str(&mut m, ". Need ");
                let need = format_size(source_size);
                push_str(&mut m, need.as_str());
                push_str(&mut m, ", have ");
                let have = format_size(a);
                push_str(&mut m, have.as_str());
                push_str(&mut m, " available. No changes made.");
                return Err(UnfError::InvalidArgument(m));
            }
            Ok(())
        },
        None => Ok(()),
    }
}

/// The error when the data at the destination could not be removed.
pub fn removal_failed(dest: &str, detail: &str) -> (r: UnfError)
    ensures
        r is InvalidArgument,
        r.spec_message() == "Failed to remove existing data at "@ + dest@ + ": "@ + detail@
            + ". No changes made."@,
{
    let mut m = String::from_str("Failed to remove existing data at ");
    push_str(&mut m, dest);
    push_str(&mut m, ": ");
    push_str(&mut m, detail);
    push_str(&mut m, ". No changes made.");
    UnfError::InvalidArgument(m)
}

/// The error when the destination's parent could not be created.
pub fn cannot_write(dest: &str, detail: &str) -> (r: UnfError)
    ensures
        r is Config,
        r.spec_message() == "Cannot write to "@ + dest@ + ". No changes made. ("@ + detail@ + ")"@,
{
    let mut m = String::from_str("Cannot write to ");
    push_str(&mut m, dest);
    push_str(&mut m, ". No changes made. (");
    push_str(&mut m, detail);
    push_str(&mut m, ")");
    UnfError::Config(m)
}

/// The error of a step that failed after the copy began: what failed, why,
/// and where the data is still safe.
pub fn failure_keeping_data(what: &str, detail: &str, place: &str) -> (r: UnfError)
    ensures
        r is Config,
        r.spec_message() == what@ + ": "@ + detail@ + ". Your data is safe at "@ + place@,
{
    let mut m = String::from_str(what);
    push_str(&mut m, ": ");
    push_str(&mut m, detail);
    push_str(&mut m, ". Your data is safe at ");
    push_str(&mut m, place);
    UnfError::Config(m)
}

// ---------------------------------------------------------------------------
// What the copy leaves out
// ---------------------------------------------------------------------------

/// The runtime files that are not moved.
pub open spec fn is_runtime_file(name: Seq<char>) -> bool {
    name == "daemon.pid"@ || name == "sentinel.pid"@ || name == "stopped"@
}

/// The extensions of SQLite's runtime journals, which are not moved.
pub open spec fn is_journal_extension(ext: Seq<char>) -> bool {
    ext == "sqlite3-wal"@ || ext == "sqlite3-shm"@
}

/// The index of the last `.` in `s`, or -1.
pub open spec fn last_dot(s: Seq<char>) -> int
    decreases s.len(),
{
    if s.len() == 0 {
        -1
    } else if s.last() == '.' {
        s.len() - 1
    } else {
        last_dot(s.drop_last())
    }
}

/// The extension of a file name, as `Path::extension` gives it: the text
/// after the last `.`, unless that dot starts the name or there is none
/// (and `..` has none).
pub open spec fn extension_of(name: Seq<char>) -> Option<Seq<char>> {
    let i = last_dot(name);
    if name == ".."@ || i <= 0 {
        None
    } else {
        Some(name.subrange(i + 1, name.len() as int))
    }
}

proof fn lemma_last_dot_bounds(s: Seq<char>)
    ensures
        -1 <= last_dot(s) < s.len(),
        last_dot(s) >= 0 ==> s[last_dot(s)] == '.',
        forall|k: int| last_dot(s) < k < s.len() ==> s[k] != '.',
    decreases s.len(),
{
    if s.len() > 0 && s.last() != '.' {
        lemma_last_dot_bounds(s.drop_last());
        assert forall|k: int| last_dot(s) < k < s.len() implies s[k] != '.' by {
            if k < s.len() - 1 {
                assert(s.drop_last()[k] == s[k]);
            }
        }
    }
}

/// The extension of a file name (see `extension_of`).
pub fn file_extension(name: &str) -> (r: Option<String>)
    ensures
        match extension_of(name@) {
            Some(e) => r matches Some(x) && x@ == e,
            None => r is None,
        },
{
    proof {
        lemma_last_dot_bounds(name@);
        reveal_strlit("..");
    }
    if str_eq(name, "..") {
        return None;
    }
    let n = char_len(name);
    let mut i: usize = n;
    while i > 0 && name.get_char(i - 1) != '.'
        invariant
            i <= n,
            n == name@.len(),
            forall|k: int| i <= k < n ==> name@[k] != '.',
        decreases i,
    {
        i = i - 1;
    }
    proof {
        assert(last_dot(name@) == i - 1) by {
            if i > 0 {
                assert(name@[i - 1] == '.');
                lemma_last_dot_bounds(name@);
                if last_dot(name@) > i - 1 {
                    assert(name@[last_dot(name@)] == '.');
                }
            } else {
                lemma_last_dot_bounds(name@);
                if last_dot(name@) >= 0 {
                    assert(name@[last_dot(name@)] == '.');
                }
            }
        }
    }
    if i <= 1 {
        return None;
    }
    let mut e = String::new();
    let mut k: usize = i;
    while k < n
        invariant
            i <= k <= n,
            n == name@.len(),
            e@ == name@.subrange(i as int, k as int),
        decreases n - k,
    {
        let c = name.get_char(k);
        crate::text::push_char(&mut e, c);
        proof {
            assert(name@.subrange(i as int, k + 1) =~= name@.subrange(i as int, k as int).push(c));
        }
        k = k + 1;
    }
    Some(e)
}

/// Whether a file's extension is one of `skip_extensions`.
pub fn should_skip_by_extension(name: &str, skip_extensions: &[&str]) -> (r: bool)
    ensures
        r == match extension_of(name@) {
            Some(e) => exists|i: int| 0 <= i < skip_extensions@.len() && skip_extensions@[i]@ == e,
            None => false,
        },
{
    let ext = match file_extension(name) {
        Some(e) => e,
        None => {
            return false;
        },
    };
    let mut i: usize = 0;
    while i < skip_extensions.len()
        invariant
            i <= skip_extensions@.len(),
            extension_of(name@) == Some(ext@),
            forall|j: int| 0 <= j < i ==> skip_extensions@[j]@ != ext@,
        decreases skip_extensions@.len() - i,
    {
        if str_eq(skip_extensions[i], ext.as_str()) {
            return true;
        }
        i = i + 1;
    }
    false
}

/// Whether a directory entry of this name is left out of the copy: a
/// runtime file, or a SQLite journal.
pub fn should_skip_entry(name: &str) -> (r: bool)
    ensures
        r == (is_runtime_file(name@) || match extension_of(name@) {
            Some(e) => is_journal_extension(e),
            None => false,
        }),
{
    proof {
        reveal_strlit("daemon.pid");
        reveal_strlit("sentinel.pid");
        reveal_strlit("stopped");
        reveal_strlit("sqlite3-wal");
        reveal_strlit("sqlite3-shm");
    }
    if str_eq(name, "daemon.pid") || str_eq(name, "sentinel.pid") || str_eq(name, "stopped") {
        return true;
    }
    match file_extension(name) {
        Some(e) => str_eq(e.as_str(), "sqlite3-wal") || str_eq(e.as_str(), "sqlite3-shm"),
        None => false,
    }
}

// ---------------------------------------------------------------------------
// After the copy
// ---------------------------------------------------------------------------

/// Where the old storage directory is kept: `<source>.migrated`, or, when
/// that exists already, `<source>.migrated.<seconds since the epoch>`.
pub open spec fn migrated_path(source: Seq<char>, base_exists: bool, now_secs: nat) -> Seq<char> {
    if base_exists {
        source + ".migrated."@ + decimal(now_secs)
    } else {
        source + ".migrated"@
    }
}

/// The name the old storage directory is renamed to (see `migrated_path`).
pub fn compute_migrated_path(source: &str, base_exists: bool, now_secs: u64) -> (r: String)
    ensures
        r@ == migrated_path(source@, base_exists, now_secs as nat),
{
    let mut r = String::from_str(source);
    push_str(&mut r, ".migrated");
    if base_exists {
        push_str(&mut r, ".");
        push_decimal(&mut r, now_secs);
        proof {
            reveal_strlit(".migrated");
            reveal_strlit(".");
            reveal_strlit(".migrated.");
            assert(r@ =~= source@ + ".migrated."@ + decimal(now_secs as nat));
        }
    }
    r
}

/// The error of the check of the destination after the copy: `projects.json`
/// is there but could not be read.
pub open spec fn unreadable_message(dest: Seq<char>, detail: Seq<char>) -> Seq<char> {
    "Verification failed: cannot read projects.json at "@ + dest + ": "@ + detail
        + ". Your data is safe at "@ + dest
}

/// The error of the check of the destination after the copy: there is no
/// `projects.json`.
pub open spec fn missing_registry_message(dest: Seq<char>) -> Seq<char> {
    "Verification failed: projects.json not found at "@ + dest + ". Your data is safe at "@ + dest
}

/// Checks the destination after the copy: its `projects.json` must exist
/// (`present`) and be readable (`read_error` is the error of reading it,
/// if any). A failed check is a configuration error that points to where
/// the data is safe.
pub fn verify_destination(dest: &str, present: bool, read_error: Option<&str>) -> (r: Result<
    (),
    UnfError,
>)
    ensures
        !present ==> (r matches Err(e) && e is Config && e.spec_message()
            == missing_registry_message(dest@)),
        present ==> match read_error {
            None => r is Ok,
            Some(d) => r matches Err(e) && e is Config && e.spec_message() == unreadable_message(
                dest@,
                d@,
            ),
        },
{
    if !present {
        let mut m = String::from_str("Verification failed: projects.json not found at ");
        push_str(&mut m, dest);
        push_str(&mut m, ". Your data is safe at ");
        push_str(&mut m, dest);
        return Err(UnfError::Config(m));
    }
    match read_error {
        None => Ok(()),
        Some(d) => {
            let mut m = String::from_str("Verification failed: cannot read projects.json at ");
            push_str(&mut m, dest);
            push_str(&mut m, ": ");
            push_str(&mut m, d);
            push_str(&mut m, ". Your data is safe at ");
            push_str(&mut m, dest);
            Err(UnfError::Config(m))
        },
    }
}

// ---------------------------------------------------------------------------
// Progress lines
// ---------------------------------------------------------------------------

/// The first progress line of a move.
pub fn started_message(total_bytes: u64, project_count: u64) -> (r: String)
    ensures
        r@ == "Stopping daemon... (moving "@ + size_text(total_bytes as nat) + " across "@
            + decimal(project_count as nat) + " project"@ + plural_suffix(project_count as nat)
            + ")"@,
{
    let mut r = String::from_str("Stopping daemon... (moving ");
    let size = format_size(total_bytes);
    push_str(&mut r, size.as_str());
    push_str(&mut r, " across ");
    push_decimal(&mut r, project_count);
    push_str(&mut r, " project");
    if project_count != 1 {
        push_str(&mut r, "s");
    }
    push_str(&mut r, ")");
    proof {
        reveal_strlit("s");
        if project_count == 1 {
            assert(plural_suffix(project_count as nat) =~= Seq::<char>::empty());
        }
    }
    r
}

/// The progress line of one project: its name and size, indented.
pub fn project_progress_line(name: &str, bytes: u64) -> (r: String)
    ensures
        r@ == "  "@ + name@ + " ("@ + size_text(bytes as nat) + ")"@,
{
    let mut r = String::from_str("  ");
    push_str(&mut r, name);
    push_str(&mut r, " (");
    let size = format_size(bytes);
    push_str(&mut r, size.as_str());
    push_str(&mut r, ")");
    r
}

/// The last progress line of a move.
pub fn done_message(backup: &str) -> (r: String)
    ensures
        r@ == "Done. Previous data saved at "@ + backup@,
{
    let mut r = String::from_str("Done. Previous data saved at ");
    push_str(&mut r, backup);
    r
}

/// What is said when a lock file shows an interrupted move: where the data
/// is (the lock's source, else `~/.unfudged`), and how to go on.
pub fn interrupted_lines(source_hint: Option<&str>, lock_file: &str) -> (r: Vec<String>)
    ensures
        r@.len() == 4,
        r@[0]@ == "Migration was interrupted."@,
        r@[1]@ == "Your data is safe at the original location: "@ + match source_hint {
            Some(s) => s@,
            None => "~/.unfudged"@,
        },
        r@[2]@ == "Run `unf config --move-storage <DEST>` to retry after removing the lock file, or"@,
        r@[3]@ == "delete "@ + lock_file@ + " to clear the lock and proceed."@,
{
    let mut r: Vec<String> = Vec::new();
    r.push(String::from_str("Migration was interrupted."));
    let mut l = String::from_str("Your data is safe at the original location: ");
    match source_hint {
        Some(s) => push_str(&mut l, s),
        None => push_str(&mut l, "~/.unfudged"),
    }
    r.push(l);
    r.push(
        String::from_str(
            "Run `unf config --move-storage <DEST>` to retry after removing the lock file, or",
        ),
    );
    let mut d = String::from_str("delete ");
    push_str(&mut d, lock_file);
    push_str(&mut d, " to clear the lock and proceed.");
    r.push(d);
    r
}

} // verus!
