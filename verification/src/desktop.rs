//! What the desktop app asks of `unf`: the arguments of its commands, the
//! binary it runs, and which part of the output it reads.

use vstd::prelude::*;
use vstd::string::StrSliceExecFns;
use vstd::string::StringExecFns;
use crate::command_scan::{lines_of, skip_white, skip_white_from, split_lines};
use crate::text::{decimal, decimal_signed, decimal_string, push_signed, views};

verus! {

/// `[flag, value]` when there is a value, else nothing.
pub open spec fn opt_pair(flag: Seq<char>, v: Option<Seq<char>>) -> Seq<Seq<char>> {
    match v {
        Some(x) => seq![flag, x],
        None => Seq::empty(),
    }
}

/// The view of an optional text.
pub open spec fn opt_text(o: Option<String>) -> Option<Seq<char>> {
    match o {
        Some(s) => Some(s@),
        None => None,
    }
}

fn push_text(args: &mut Vec<String>, s: String)
    ensures
        views(final(args)@) == views(old(args)@).push(s@),
{
    args.push(s);
    assert(views(args@) =~= views(old(args)@).push(s@));
}

fn push_pair(args: &mut Vec<String>, flag: &str, v: Option<String>)
    ensures
        views(final(args)@) == views(old(args)@) + opt_pair(flag@, opt_text(v)),
{
    match v {
        Some(x) => {
            let ghost xv = x@;
            push_text(args, String::from_str(flag));
            push_text(args, x);
            assert(views(args@) =~= views(old(args)@) + opt_pair(flag@, Some(xv)));
        },
        None => {
            assert(views(args@) =~= views(old(args)@) + opt_pair(flag@, None));
        },
    }
}

/// What selects the diff: a snapshot alone, or the instants and the file.
pub open spec fn diff_selection(
    at: Option<Seq<char>>,
    from: Option<Seq<char>>,
    to: Option<Seq<char>>,
    file: Option<Seq<char>>,
    snapshot: Option<i64>,
) -> Seq<Seq<char>> {
    match snapshot {
        Some(id) => seq!["--snapshot"@, decimal_signed(id as int)],
        None => opt_pair("--at"@, at) + opt_pair("--from"@, from) + opt_pair("--to"@, to) + match file {
            Some(f) => seq![f],
            None => Seq::empty(),
        },
    }
}

/// The arguments of `unf diff` for the desktop app: what selects the diff,
/// then the context radius.
pub open spec fn diff_args_text(
    at: Option<Seq<char>>,
    from: Option<Seq<char>>,
    to: Option<Seq<char>>,
    file: Option<Seq<char>>,
    snapshot: Option<i64>,
    context: Option<u64>,
) -> Seq<Seq<char>> {
    seq!["diff"@] + diff_selection(at, from, to, file, snapshot) + match context {
        Some(c) => seq!["--context"@, decimal(c as nat)],
        None => Seq::empty(),
    }
}

fn push_snapshot(args: &mut Vec<String>, id: i64)
    ensures
        views(final(args)@) == views(old(args)@) + seq!["--snapshot"@, decimal_signed(id as int)],
{
    push_text(args, String::from_str("--snapshot"));
    let mut s = String::new();
    push_signed(&mut s, id);
    let ghost sv = s@;
    push_text(args, s);
    assert(views(args@) =~= views(old(args)@) + seq!["--snapshot"@, sv]);
}

fn push_diff_selection(
    args: &mut Vec<String>,
    at: Option<String>,
    from: Option<String>,
    to: Option<String>,
    file: Option<String>,
    snapshot: Option<i64>,
)
    ensures
        views(final(args)@) == views(old(args)@) + diff_selection(
            opt_text(at),
            opt_text(from),
            opt_text(to),
            opt_text(file),
            snapshot,
        ),
{
    let ghost (a, f, t, fi) = (opt_text(at), opt_text(from), opt_text(to), opt_text(file));
    match snapshot {
        Some(id) => {
            push_snapshot(args, id);
        },
        None => {
            push_pair(args, "--at", at);
            push_pair(args, "--from", from);
            push_pair(args, "--to", to);
            match file {
                Some(x) => push_text(args, x),
                None => {},
            }
            assert(views(args@) =~= views(old(args)@) + diff_selection(a, f, t, fi, snapshot));
        },
    }
}

/// Builds the arguments of `unf diff` (see `diff_args_text`).
pub fn diff_args(
    at: Option<String>,
    from: Option<String>,
    to: Option<String>,
    file: Option<String>,
    snapshot: Option<i64>,
    context: Option<u64>,
) -> (r: Vec<String>)
    ensures
        views(r@) == diff_args_text(opt_text(at), opt_text(from), opt_text(to), opt_text(file), snapshot, context),
{
    let ghost sel = diff_selection(opt_text(at), opt_text(from), opt_text(to), opt_text(file), snapshot);
    let mut args: Vec<String> = Vec::new();
    push_text(&mut args, String::from_str("diff"));
    push_diff_selection(&mut args, at, from, to, file, snapshot);
    let ghost mid = views(args@);
    match context {
        Some(c) => {
            push_text(&mut args, String::from_str("--context"));
            push_text(&mut args, decimal_string(c));
        },
        None => {},
    }
    assert(views(args@) =~= seq!["diff"@] + sel + match context {
        Some(c) => seq!["--context"@, decimal(c as nat)],
        None => Seq::<Seq<char>>::empty(),
    });
    args
}

/// The arguments of `unf cat` for the desktop app.
pub open spec fn content_args_text(file: Seq<char>, at: Option<Seq<char>>, snapshot: Option<i64>) -> Seq<Seq<char>> {
    seq!["cat"@, file] + opt_pair("--at"@, at) + match snapshot {
        Some(id) => seq!["--snapshot"@, decimal_signed(id as int)],
        None => Seq::empty(),
    }
}

/// Builds the arguments of `unf cat` (see `content_args_text`).
pub fn content_args(file: String, at: Option<String>, snapshot: Option<i64>) -> (r: Vec<String>)
    ensures
        views(r@) == content_args_text(file@, opt_text(at), snapshot),
{
    let ghost (fv, av) = (file@, opt_text(at));
    let mut args: Vec<String> = Vec::new();
    push_text(&mut args, String::from_str("cat"));
    push_text(&mut args, file);
    push_pair(&mut args, "--at", at);
    match snapshot {
        Some(id) => push_snapshot(&mut args, id),
        None => {},
    }
    assert(views(args@) =~= content_args_text(fv, av, snapshot));
    args
}

/// The arguments of a storage move from the desktop app, which asks for
/// confirmation itself and so always forces.
pub fn move_storage_args(path: String) -> (r: Vec<String>)
    ensures
        views(r@) == seq!["config"@, "--move-storage"@, path@, "--force"@],
{
    let ghost pv = path@;
    let mut args: Vec<String> = Vec::new();
    push_text(&mut args, String::from_str("config"));
    push_text(&mut args, String::from_str("--move-storage"));
    push_text(&mut args, path);
    push_text(&mut args, String::from_str("--force"));
    assert(views(args@) =~= seq!["config"@, "--move-storage"@, pv, "--force"@]);
    args
}

/// The arguments that stop watching a project.
pub fn unwatch_args(path: String) -> (r: Vec<String>)
    ensures
        views(r@) == seq!["unwatch"@, "--project"@, path@],
{
    let ghost pv = path@;
    let mut args: Vec<String> = Vec::new();
    push_text(&mut args, String::from_str("unwatch"));
    push_text(&mut args, String::from_str("--project"));
    push_text(&mut args, path);
    assert(views(args@) =~= seq!["unwatch"@, "--project"@, pv]);
    args
}

/// The binary the desktop app runs: the first well-known install that
/// exists, else `unf` from the search path.
pub fn choose_unf(homebrew_present: bool, usr_local_present: bool) -> (r: &'static str)
    ensures
        homebrew_present ==> r@ == "/opt/homebrew/bin/unf"@,
        !homebrew_present && usr_local_present ==> r@ == "/usr/local/bin/unf"@,
        !homebrew_present && !usr_local_present ==> r@ == "unf"@,
{
    if homebrew_present {
        "/opt/homebrew/bin/unf"
    } else if usr_local_present {
        "/usr/local/bin/unf"
    } else {
        "unf"
    }
}

/// A line with something other than white space.
pub open spec fn has_content(l: Seq<char>) -> bool {
    skip_white(l, 0, l.len() as int) < l.len()
}

/// The last line of the output with something other than white space,
/// which carries the final result of a command that reports progress line
/// by line.
pub open spec fn is_last_content_line(lines: Seq<Seq<char>>, r: Option<Seq<char>>) -> bool {
    match r {
        Some(l) => exists|i: int|
            0 <= i < lines.len() && lines[i] == l && has_content(l) && forall|j: int|
                i < j < lines.len() ==> !has_content(#[trigger] lines[j]),
        None => forall|j: int| 0 <= j < lines.len() ==> !has_content(#[trigger] lines[j]),
    }
}

/// The last line of `output` with content (see `is_last_content_line`).
pub fn last_content_line(output: &str) -> (r: Option<String>)
    ensures
        is_last_content_line(lines_of(output@), opt_text(r)),
{
    let lines = split_lines(output);
    let ghost ls = lines_of(output@);
    let mut i: usize = lines.len();
    while i > 0
        invariant
            i <= lines@.len(),
            ls == lines_of(output@),
            lines@.len() == ls.len(),
            forall|k: int| 0 <= k < lines@.len() ==> #[trigger] lines@[k]@ == ls[k],
            forall|j: int| i <= j < ls.len() ==> !has_content(#[trigger] ls[j]),
        decreases i,
    {
        let l = lines[i - 1].as_str();
        let n = crate::text::char_len(l);
        if skip_white_from(l, 0, n) < n {
            let r = lines[i - 1].clone();
            let out = Some(r);
            proof {
                assert(ls[i - 1] == out->0@);
                assert(opt_text(out) == Some(out->0@));
                assert(is_last_content_line(ls, Some(out->0@)));
            }
            return out;
        }
        proof {
            assert(ls[i - 1] == l@);
        }
        i = i - 1;
    }
    None
}


// ---------------------------------------------------------------------------
// History queries
// ---------------------------------------------------------------------------

/// `[flag, v]` for each value `v`, in order.
pub open spec fn flag_each(flag: Seq<char>, vs: Seq<Seq<char>>) -> Seq<Seq<char>>
    decreases vs.len(),
{
    if vs.len() == 0 {
        Seq::empty()
    } else {
        flag_each(flag, vs.drop_last()) + seq![flag, vs.last()]
    }
}

/// The texts of an optional list (none when absent).
pub open spec fn opt_list(o: Option<Vec<String>>) -> Seq<Seq<char>> {
    match o {
        Some(v) => views(v@),
        None => Seq::empty(),
    }
}

/// `[flag, N]` for a count when there is one.
pub open spec fn opt_count(flag: Seq<char>, n: Option<u32>) -> Seq<Seq<char>> {
    match n {
        Some(x) => seq![flag, decimal(x as nat)],
        None => Seq::empty(),
    }
}

/// `--group-by-file` when grouping is asked for.
pub open spec fn group_flag(g: Option<bool>) -> Seq<Seq<char>> {
    if g == Some(true) {
        seq!["--group-by-file"@]
    } else {
        Seq::empty()
    }
}

fn push_each(args: &mut Vec<String>, flag: &str, vs: Option<Vec<String>>)
    ensures
        views(final(args)@) == views(old(args)@) + flag_each(flag@, opt_list(vs)),
{
    match vs {
        None => {
            assert(views(args@) =~= views(old(args)@) + flag_each(flag@, Seq::empty()));
        },
        Some(v) => {
            let ghost all = views(v@);
            let mut i: usize = 0;
            while i < v.len()
                invariant
                    i <= v@.len(),
                    all == views(v@),
                    views(args@) == views(old(args)@) + flag_each(flag@, all.subrange(0, i as int)),
                decreases v@.len() - i,
            {
                let ghost before = views(args@);
                push_text(args, String::from_str(flag));
                push_text(args, v[i].clone());
                proof {
                    let next = all.subrange(0, i + 1);
                    assert(next.drop_last() =~= all.subrange(0, i as int));
                    assert(next.last() == all[i as int]);
                    assert(views(args@) =~= views(old(args)@) + flag_each(flag@, next));
                }
                i = i + 1;
            }
            assert(all.subrange(0, v@.len() as int) =~= all);
        },
    }
}

fn push_count(args: &mut Vec<String>, flag: &str, n: Option<u32>)
    ensures
        views(final(args)@) == views(old(args)@) + opt_count(flag@, n),
{
    match n {
        Some(x) => {
            push_text(args, String::from_str(flag));
            push_text(args, decimal_string(x as u64));
            assert(views(args@) =~= views(old(args)@) + opt_count(flag@, n));
        },
        None => {
            assert(views(args@) =~= views(old(args)@) + opt_count(flag@, n));
        },
    }
}

fn push_group(args: &mut Vec<String>, g: Option<bool>)
    ensures
        views(final(args)@) == views(old(args)@) + group_flag(g),
{
    if g == Some(true) {
        push_text(args, String::from_str("--group-by-file"));
    }
    assert(views(args@) =~= views(old(args)@) + group_flag(g));
}

/// The arguments of `unf log` for a project's history page in the desktop
/// app (the program adds `--json`).
pub open spec fn log_args_text(
    target: Option<Seq<char>>,
    since: Option<Seq<char>>,
    until: Option<Seq<char>>,
    limit: Option<u32>,
    cursor: Option<Seq<char>>,
    included: Seq<Seq<char>>,
    excluded: Seq<Seq<char>>,
    group_by_file: Option<bool>,
) -> Seq<Seq<char>> {
    seq!["log"@] + match target {
        Some(t) => seq![t],
        None => Seq::empty(),
    } + opt_pair("--since"@, since) + opt_pair("--until"@, until) + opt_count("--limit"@, limit)
        + opt_pair("--cursor"@, cursor) + flag_each("--include"@, included) + flag_each(
        "--exclude"@,
        excluded,
    ) + group_flag(group_by_file)
}

/// Builds the arguments of `get_log` (see `log_args_text`).
pub fn log_args(
    target: Option<String>,
    since: Option<String>,
    until: Option<String>,
    limit: Option<u32>,
    cursor: Option<String>,
    included: Option<Vec<String>>,
    excluded: Option<Vec<String>>,
    group_by_file: Option<bool>,
) -> (r: Vec<String>)
    ensures
        views(r@) == log_args_text(
            opt_text(target),
            opt_text(since),
            opt_text(until),
            limit,
            opt_text(cursor),
            opt_list(included),
            opt_list(excluded),
            group_by_file,
        ),
{
    let ghost (t, si, u, c, inc, exc) = (
        opt_text(target),
        opt_text(since),
        opt_text(until),
        opt_text(cursor),
        opt_list(included),
        opt_list(excluded),
    );
    let mut args: Vec<String> = Vec::new();
    push_text(&mut args, String::from_str("log"));
    match target {
        Some(x) => push_text(&mut args, x),
        None => {},
    }
    let ghost head = views(args@);
    assert(head =~= seq!["log"@] + match t {
        Some(x) => seq![x],
        None => Seq::<Seq<char>>::empty(),
    });
    push_pair(&mut args, "--since", since);
    push_pair(&mut args, "--until", until);
    push_count(&mut args, "--limit", limit);
    push_pair(&mut args, "--cursor", cursor);
    push_each(&mut args, "--include", included);
    push_each(&mut args, "--exclude", excluded);
    push_group(&mut args, group_by_file);
    assert(views(args@) =~= log_args_text(t, si, u, limit, c, inc, exc, group_by_file));
    args
}

/// The arguments of `unf log --global` in the desktop app.
pub open spec fn global_log_args_text(
    since: Option<Seq<char>>,
    until: Option<Seq<char>>,
    limit: Option<u32>,
    included: Seq<Seq<char>>,
    excluded: Seq<Seq<char>>,
    group_by_file: Option<bool>,
    projects_in: Seq<Seq<char>>,
    projects_out: Seq<Seq<char>>,
) -> Seq<Seq<char>> {
    seq!["log"@, "--global"@] + opt_pair("--since"@, since) + opt_pair("--until"@, until)
        + opt_count("--limit"@, limit) + flag_each("--include"@, included) + flag_each(
        "--exclude"@,
        excluded,
    ) + group_flag(group_by_file) + flag_each("--include-project"@, projects_in) + flag_each(
        "--exclude-project"@,
        projects_out,
    )
}

/// Builds the arguments of `get_global_log` (see `global_log_args_text`).
pub fn global_log_args(
    since: Option<String>,
    until: Option<String>,
    limit: Option<u32>,
    included: Option<Vec<String>>,
    excluded: Option<Vec<String>>,
    group_by_file: Option<bool>,
    projects_in: Option<Vec<String>>,
    projects_out: Option<Vec<String>>,
) -> (r: Vec<String>)
    ensures
        views(r@) == global_log_args_text(
            opt_text(since),
            opt_text(until),
            limit,
            opt_list(included),
            opt_list(excluded),
            group_by_file,
            opt_list(projects_in),
            opt_list(projects_out),
        ),
{
    let ghost (si, u, inc, exc, pi, po) = (
        opt_text(since),
        opt_text(until),
        opt_list(included),
        opt_list(excluded),
        opt_list(projects_in),
        opt_list(projects_out),
    );
    let mut args: Vec<String> = Vec::new();
    push_text(&mut args, String::from_str("log"));
    push_text(&mut args, String::from_str("--global"));
    push_pair(&mut args, "--since", since);
    push_pair(&mut args, "--until", until);
    push_count(&mut args, "--limit", limit);
    push_each(&mut args, "--include", included);
    push_each(&mut args, "--exclude", excluded);
    push_group(&mut args, group_by_file);
    push_each(&mut args, "--include-project", projects_in);
    push_each(&mut args, "--exclude-project", projects_out);
    assert(views(args@) =~= global_log_args_text(si, u, limit, inc, exc, group_by_file, pi, po));
    args
}

/// Buckets asked for by default.
pub const DEFAULT_BUCKETS: u32 = 100;

/// The bucket count a density query asks for.
pub open spec fn bucket_arg(buckets: Option<u32>) -> Seq<char> {
    decimal(
        match buckets {
            Some(b) => b as nat,
            None => DEFAULT_BUCKETS as nat,
        },
    )
}

/// The arguments of `unf log --density` (with `--global` first for all
/// projects) in the desktop app.
pub open spec fn density_args_text(
    global: bool,
    buckets: Option<u32>,
    since: Option<Seq<char>>,
    included: Seq<Seq<char>>,
    excluded: Seq<Seq<char>>,
) -> Seq<Seq<char>> {
    seq!["log"@] + (if global {
        seq!["--global"@]
    } else {
        Seq::empty()
    }) + seq!["--density"@, "--buckets"@, bucket_arg(buckets)] + opt_pair("--since"@, since)
        + flag_each("--include"@, included) + flag_each("--exclude"@, excluded)
}

/// Builds the arguments of `get_density` (`global` false) and
/// `get_global_density` (`global` true); see `density_args_text`.
pub fn density_args(
    global: bool,
    buckets: Option<u32>,
    since: Option<String>,
    included: Option<Vec<String>>,
    excluded: Option<Vec<String>>,
) -> (r: Vec<String>)
    ensures
        views(r@) == density_args_text(
            global,
            buckets,
            opt_text(since),
            opt_list(included),
            opt_list(excluded),
        ),
{
    let ghost (si, inc, exc) = (opt_text(since), opt_list(included), opt_list(excluded));
    let mut args: Vec<String> = Vec::new();
    push_text(&mut args, String::from_str("log"));
    if global {
        push_text(&mut args, String::from_str("--global"));
    }
    push_text(&mut args, String::from_str("--density"));
    push_text(&mut args, String::from_str("--buckets"));
    let n: u32 = match buckets {
        Some(b) => b,
        None => DEFAULT_BUCKETS,
    };
    push_text(&mut args, decimal_string(n as u64));
    push_pair(&mut args, "--since", since);
    push_each(&mut args, "--include", included);
    push_each(&mut args, "--exclude", excluded);
    assert(views(args@) =~= density_args_text(global, buckets, si, inc, exc));
    args
}

} // verus!
