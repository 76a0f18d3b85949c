//! Watch settings of a project, and the notes the watch command gives about
//! excluded directories.

use vstd::prelude::*;
use vstd::string::StrSliceExecFns;
use vstd::string::StringExecFns;
use crate::text::{
    char_len, insert_sorted, join, push_char, push_decimal,
    push_joined, push_joined_strs, push_str, starts_with, str_eq, str_starts_with,
    strictly_ascending, views,
};

verus! {

/// What a project records beyond the defaults.
#[derive(Clone, Debug)]
pub struct WatchSettings {
    /// Record files that `.gitignore` excludes, and hidden dotfiles.
    pub force_watch_gitignore: bool,
    /// Excluded directories and `.git` paths to record, sorted and distinct.
    pub unignored_dirs: Vec<String>,
}

impl WatchSettings {
    /// The settings are well formed: the directories are sorted and distinct.
    pub open spec fn wf(self) -> bool {
        strictly_ascending(views(self.unignored_dirs@))
    }

    /// The settings given by the watch command's flags: the directories
    /// sorted, each once.
    pub fn from_flags(force_watch_gitignore: bool, dirs: &[String]) -> (r: Self)
        ensures
            r.wf(),
            r.force_watch_gitignore == force_watch_gitignore,
            views(r.unignored_dirs@).to_set() == views(dirs@).to_set(),
    {
        let mut out: Vec<String> = Vec::new();
        proof {
            assert(views(out@).to_set() =~= Set::<Seq<char>>::empty());
        }
        let mut k: usize = 0;
        while k < dirs.len()
            invariant
                k <= dirs@.len(),
                strictly_ascending(views(out@)),
                views(out@).to_set() == views(dirs@.subrange(0, k as int)).to_set(),
            decreases dirs@.len() - k,
        {
            insert_sorted(&mut out, dirs[k].clone());
            proof {
                let v = views(dirs@);
                assert(views(dirs@.subrange(0, k + 1)) =~= views(dirs@.subrange(0, k as int)).push(v[k as int]));
                views(dirs@.subrange(0, k as int)).lemma_push_to_set_commute(v[k as int]);
            }
            k = k + 1;
        }
        assert(dirs@.subrange(0, dirs@.len() as int) =~= dirs@);
        WatchSettings { force_watch_gitignore, unignored_dirs: out }
    }
}

/// The directories UNF skips in every project.
pub open spec fn is_ignored_dir(name: Seq<char>) -> bool {
    ||| name == ".git"@
    ||| name == "node_modules"@
    ||| name == "target"@
    ||| name == ".next"@
    ||| name == "__pycache__"@
    ||| name == ".venv"@
    ||| name == "venv"@
    ||| name == ".tox"@
    ||| name == "dist"@
    ||| name == "build"@
}

/// The paths inside `.git` that can be recorded on request.
pub open spec fn is_allowed_git_path(p: Seq<char>) -> bool {
    p == ".git/hooks"@ || p == ".git/config"@ || p == ".git/info/exclude"@
}

/// A value of `--unignore-dir` with `\` written as `/`.
pub open spec fn forward_slashes(s: Seq<char>) -> Seq<char> {
    Seq::new(s.len(), |i: int| if s[i] == '\\' { '/' } else { s[i] })
}

/// `s` without its trailing slashes.
pub open spec fn trim_trailing_slashes(s: Seq<char>) -> Seq<char>
    decreases s.len(),
{
    if s.len() > 0 && s.last() == '/' {
        trim_trailing_slashes(s.drop_last())
    } else {
        s
    }
}

/// The normal form of a value of `--unignore-dir`: `/` as separator, no
/// trailing slash.
pub open spec fn normal_form(s: Seq<char>) -> Seq<char> {
    trim_trailing_slashes(forward_slashes(s))
}

/// The message for the bare `.git` directory.
pub const BARE_GIT_MESSAGE: &'static str =
    "UNF never records .git as a whole: recording git's object store while git rewrites it could damage the repository";

/// The message for any other path inside `.git`.
pub const GIT_PATH_MESSAGE: &'static str =
    "only .git/hooks, .git/config and .git/info/exclude can be recorded inside .git";

/// The message for a directory UNF does not skip.
pub const NOT_EXCLUDED_MESSAGE: &'static str =
    "not an excluded directory: node_modules, target, .next, __pycache__, .venv, venv, .tox, dist and build can be recorded";

/// What the watch command accepts for `--unignore-dir`, in normal form: an
/// excluded directory other than `.git`, or one of the allowed `.git`
/// paths; else the reason it is refused.
pub open spec fn spec_parse_unignore_dir(value: Seq<char>) -> Result<Seq<char>, Seq<char>> {
    let v = normal_form(value);
    if v == ".git"@ {
        Err(BARE_GIT_MESSAGE@)
    } else if starts_with(v, ".git/"@) {
        if is_allowed_git_path(v) {
            Ok(v)
        } else {
            Err(GIT_PATH_MESSAGE@)
        }
    } else if is_ignored_dir(v) {
        Ok(v)
    } else {
        Err(NOT_EXCLUDED_MESSAGE@)
    }
}

/// Validates a value of `--unignore-dir` (see `spec_parse_unignore_dir`).
pub fn parse_unignore_dir(value: &str) -> (r: Result<String, String>)
    ensures
        match spec_parse_unignore_dir(value@) {
            Ok(v) => r matches Ok(s) && s@ == v,
            Err(m) => r matches Err(s) && s@ == m,
        },
{
    let n = char_len(value);
    let mut fwd = String::new();
    let mut i: usize = 0;
    while i < n
        invariant
            n == value@.len(),
            i <= n,
            fwd@ == forward_slashes(value@).subrange(0, i as int),
        decreases n - i,
    {
        let c = value.get_char(i);
        if c == '\\' {
            push_char(&mut fwd, '/');
        } else {
            push_char(&mut fwd, c);
        }
        i = i + 1;
        assert(fwd@ =~= forward_slashes(value@).subrange(0, i as int));
    }
    assert(fwd@ =~= forward_slashes(value@));
    let mut end = char_len(fwd.as_str());
    while end > 0 && fwd.as_str().get_char(end - 1) == '/'
        invariant
            end <= fwd@.len(),
            trim_trailing_slashes(fwd@) == trim_trailing_slashes(fwd@.subrange(0, end as int)),
        decreases end,
    {
        let ghost pre = fwd@.subrange(0, end as int);
        assert(pre.drop_last() =~= fwd@.subrange(0, end - 1));
        end = end - 1;
    }
    proof {
        let pre = fwd@.subrange(0, end as int);
        assert(fwd@.subrange(0, fwd@.len() as int) =~= fwd@);
        if end == 0 {
            assert(pre =~= Seq::<char>::empty());
        }
    }
    let v = String::from_str(fwd.as_str().substring_char(0, end));
    assert(v@ == normal_form(value@));
    let s = v.as_str();
    if str_eq(s, ".git") {
        return Err(String::from_str(BARE_GIT_MESSAGE));
    }
    if str_starts_with(s, ".git/") {
        if str_eq(s, ".git/hooks") || str_eq(s, ".git/config") || str_eq(s, ".git/info/exclude") {
            return Ok(v);
        }
        return Err(String::from_str(GIT_PATH_MESSAGE));
    }
    if str_eq(s, ".git") || str_eq(s, "node_modules") || str_eq(s, "target") || str_eq(s, ".next")
        || str_eq(s, "__pycache__") || str_eq(s, ".venv") || str_eq(s, "venv") || str_eq(s, ".tox")
        || str_eq(s, "dist") || str_eq(s, "build") {
        return Ok(v);
    }
    Err(String::from_str(NOT_EXCLUDED_MESSAGE))
}

/// What the flag accepts is recordable: an excluded directory other than
/// `.git` itself, or one of the three `.git` paths; and the bare `.git` is
/// always refused.
pub proof fn lemma_accepted_values_are_recordable(value: Seq<char>)
    ensures
        spec_parse_unignore_dir(value) matches Ok(v) ==> ((is_ignored_dir(v) && v != ".git"@)
            || is_allowed_git_path(v)),
        normal_form(value) == ".git"@ ==> spec_parse_unignore_dir(value) is Err,
{
}

/// Every path inside `.git` but the three allowed ones is refused.
pub proof fn lemma_other_git_paths_refused(value: Seq<char>)
    requires
        starts_with(normal_form(value), ".git/"@),
        !is_allowed_git_path(normal_form(value)),
    ensures
        spec_parse_unignore_dir(value) is Err,
{
    reveal_strlit(".git");
    reveal_strlit(".git/");
    let v = normal_form(value);
    if v == ".git"@ {
        assert(v.len() == 4);
        assert(".git/"@.len() == 5);
    }
}

/// An entry of the settings is a `.git`-rooted path rather than a bare
/// directory name.
pub fn is_git_path_entry(dir: &str) -> (r: bool)
    ensures
        r == starts_with(dir@, ".git/"@),
{
    str_starts_with(dir, ".git/")
}

/// The settings entries that `.gitignore` could shadow: every entry but the
/// `.git` paths (git never applies `.gitignore` inside `.git`), in order.
pub open spec fn shadow_candidate_list(dirs: Seq<Seq<char>>) -> Seq<Seq<char>> {
    dirs.filter(|d: Seq<char>| !starts_with(d, ".git/"@))
}

/// The settings entries that `.gitignore` could shadow.
pub fn shadow_candidates(dirs: &[String]) -> (r: Vec<String>)
    ensures
        views(r@) == shadow_candidate_list(views(dirs@)),
{
    let mut r: Vec<String> = Vec::new();
    let mut k: usize = 0;
    while k < dirs.len()
        invariant
            k <= dirs@.len(),
            views(r@) == shadow_candidate_list(views(dirs@.subrange(0, k as int))),
        decreases dirs@.len() - k,
    {
        proof {
            reveal(Seq::filter);
            let next = views(dirs@.subrange(0, k + 1));
            assert(next.drop_last() =~= views(dirs@.subrange(0, k as int)));
            assert(next.last() == dirs@[k as int]@);
        }
        if !is_git_path_entry(dirs[k].as_str()) {
            r.push(dirs[k].clone());
        }
        proof {
            assert(views(r@) =~= shadow_candidate_list(views(dirs@.subrange(0, k + 1))));
        }
        k = k + 1;
    }
    assert(dirs@.subrange(0, dirs@.len() as int) =~= dirs@);
    r
}

/// The excluded directories present in a project that it does not record:
/// those not among the settings' entries, in their order.
pub open spec fn not_recorded_list(present: Seq<Seq<char>>, unignored: Seq<Seq<char>>) -> Seq<Seq<char>> {
    present.filter(|d: Seq<char>| !unignored.contains(d))
}

/// The views of a list of string slices.
pub open spec fn str_views(v: Seq<&str>) -> Seq<Seq<char>> {
    Seq::new(v.len(), |i: int| v[i]@)
}

/// Whether `d` is among `v`.
fn contains_str(v: &[String], d: &str) -> (r: bool)
    ensures
        r == views(v@).contains(d@),
{
    let mut k: usize = 0;
    while k < v.len()
        invariant
            k <= v@.len(),
            forall|j: int| 0 <= j < k ==> v@[j]@ != d@,
        decreases v@.len() - k,
    {
        if str_eq(v[k].as_str(), d) {
            assert(views(v@)[k as int] == d@);
            return true;
        }
        k = k + 1;
    }
    proof {
        if views(v@).contains(d@) {
            let j = choose|j: int| 0 <= j < views(v@).len() && views(v@)[j] == d@;
            assert(v@[j]@ == d@);
        }
    }
    false
}

/// The excluded directories present that the project does not record.
pub fn not_recorded_dirs<'a>(present: &[&'a str], unignored: &[String]) -> (r: Vec<&'a str>)
    ensures
        str_views(r@) == not_recorded_list(str_views(present@), views(unignored@)),
{
    let mut r: Vec<&'a str> = Vec::new();
    let mut k: usize = 0;
    while k < present.len()
        invariant
            k <= present@.len(),
            str_views(r@) == not_recorded_list(str_views(present@.subrange(0, k as int)), views(unignored@)),
        decreases present@.len() - k,
    {
        proof {
            reveal(Seq::filter);
            let next = str_views(present@.subrange(0, k + 1));
            assert(next.drop_last() =~= str_views(present@.subrange(0, k as int)));
            assert(next.last() == present@[k as int]@);
        }
        let d = present[k];
        if !contains_str(unignored, d) {
            r.push(d);
        }
        proof {
            assert(str_views(r@) =~= not_recorded_list(str_views(present@.subrange(0, k + 1)), views(unignored@)));
        }
        k = k + 1;
    }
    assert(present@.subrange(0, present@.len() as int) =~= present@);
    r
}

/// The hint that names how to record a directory.
pub open spec fn unignore_hint_text(name: Seq<char>) -> Seq<char> {
    "Record one with `unf watch --unignore-dir "@ + name + "`. See `unf watch --help`."@
}

/// The hint that names how to record a directory.
pub fn unignore_hint(name: &str) -> (r: String)
    ensures
        r@ == unignore_hint_text(name@),
{
    let mut r = String::from_str("Record one with `unf watch --unignore-dir ");
    push_str(&mut r, name);
    push_str(&mut r, "`. See `unf watch --help`.");
    r
}

/// The note about excluded directories that are not recorded: the list,
/// then a hint naming the first of them; nothing when there is none.
pub open spec fn not_recorded_note(names: Seq<Seq<char>>) -> Seq<Seq<char>> {
    if names.len() == 0 {
        Seq::empty()
    } else {
        seq!["not recorded in this project: "@ + join(names, ", "@), unignore_hint_text(names[0])]
    }
}

/// The lines of the note about excluded directories that are not recorded.
pub fn not_recorded_note_lines(not_recorded: &[&str]) -> (r: Vec<String>)
    ensures
        views(r@) == not_recorded_note(str_views(not_recorded@)),
{
    let mut r: Vec<String> = Vec::new();
    if not_recorded.len() == 0 {
        assert(views(r@) =~= not_recorded_note(str_views(not_recorded@)));
        return r;
    }
    let mut head = String::from_str("not recorded in this project: ");
    push_joined_strs(&mut head, not_recorded, ", ");
    r.push(head);
    r.push(unignore_hint(not_recorded[0]));
    proof {
        assert(str_views(not_recorded@)[0] == not_recorded@[0]@);
        assert(views(r@) =~= not_recorded_note(str_views(not_recorded@)));
    }
    r
}

/// The warning about directories that `.gitignore` still excludes.
pub open spec fn shadow_warning(names: Seq<Seq<char>>) -> Seq<Seq<char>> {
    if names.len() == 0 {
        Seq::empty()
    } else {
        let joined = join(names, ", "@);
        seq![
            ".gitignore also excludes "@ + joined + ", so it is still not recorded"@,
            "--unignore-dir lifts UNF's built-in exclusion only."@,
            "Add --force-watch-gitignore as well, or remove "@ + joined + " from .gitignore."@,
        ]
    }
}

/// The lines of the warning about directories `.gitignore` still excludes.
pub fn gitignore_shadow_warning_lines(shadowed: &[&str]) -> (r: Vec<String>)
    ensures
        views(r@) == shadow_warning(str_views(shadowed@)),
{
    let mut r: Vec<String> = Vec::new();
    if shadowed.len() == 0 {
        assert(views(r@) =~= shadow_warning(str_views(shadowed@)));
        return r;
    }
    let mut names = String::new();
    push_joined_strs(&mut names, shadowed, ", ");
    let mut first = String::from_str(".gitignore also excludes ");
    push_str(&mut first, names.as_str());
    push_str(&mut first, ", so it is still not recorded");
    let mut third = String::from_str("Add --force-watch-gitignore as well, or remove ");
    push_str(&mut third, names.as_str());
    push_str(&mut third, " from .gitignore.");
    r.push(first);
    r.push(String::from_str("--unignore-dir lifts UNF's built-in exclusion only."));
    r.push(third);
    assert(views(r@) =~= shadow_warning(str_views(shadowed@)));
    r
}

/// The note confirming what a project also records, or nothing when it
/// records no excluded directory.
pub open spec fn recording_note(entries: Seq<Seq<char>>) -> Option<Seq<char>> {
    if entries.len() == 0 {
        None
    } else {
        Some("recording normally-excluded: "@ + join(entries, ", "@))
    }
}

/// The note confirming what a project also records.
pub fn recording_note_line(unignored: &Vec<String>) -> (r: Option<String>)
    ensures
        match recording_note(views(unignored@)) {
            Some(t) => r matches Some(s) && s@ == t,
            None => r is None,
        },
{
    if unignored.len() == 0 {
        return None;
    }
    let mut s = String::from_str("recording normally-excluded: ");
    push_joined(&mut s, unignored, ", ");
    Some(s)
}

/// What the watch command reports: `resumed` with the number of snapshots
/// kept, or `started` for a project without snapshots.
pub fn watch_status(snapshot_count: u64) -> (r: (&'static str, Option<u64>))
    ensures
        snapshot_count > 0 ==> r.0@ == "resumed"@ && r.1 == Some(snapshot_count),
        snapshot_count == 0 ==> r.0@ == "started"@ && r.1 is None,
{
    if snapshot_count > 0 {
        ("resumed", Some(snapshot_count))
    } else {
        ("started", None)
    }
}

/// The subject of the watch command's status line: the project, and how
/// many snapshots were kept when there are some.
pub open spec fn watch_subject_text(root: Seq<char>, snapshot_count: nat) -> Seq<char> {
    if snapshot_count > 0 {
        root + " ("@ + crate::text::decimal(snapshot_count) + " snapshots preserved)"@
    } else {
        root
    }
}

/// The subject of the watch command's status line.
pub fn watch_subject(root: &str, snapshot_count: u64) -> (r: String)
    ensures
        r@ == watch_subject_text(root@, snapshot_count as nat),
{
    let mut r = String::from_str(root);
    if snapshot_count > 0 {
        push_str(&mut r, " (");
        push_decimal(&mut r, snapshot_count);
        push_str(&mut r, " snapshots preserved)");
    }
    r
}

} // verus!
