//! Reading what git prints: the branch, the porcelain status and the
//! one-line log that make up a recap's repository state.

use vstd::prelude::*;
use crate::command_scan::{lines_of, split_lines, trim_text, trimmed};
use crate::diff::{text_of_bytes, utf8_lossy};
use crate::recap::{GitCommit, GitInfo};
use crate::text::push_chars_between;
use vstd::string::StringExecFns;

verus! {

/// Bytes taken by `c` in UTF-8.
pub open spec fn utf8_width(c: char) -> int {
    let u = c as u32;
    if u < 0x80 {
        1
    } else if u < 0x800 {
        2
    } else if u < 0x10000 {
        3
    } else {
        4
    }
}

/// Bytes taken by `s[i..]` in UTF-8.
pub open spec fn utf8_len_from(s: Seq<char>, i: int) -> int
    decreases s.len() - i,
{
    if i < 0 || i >= s.len() {
        0
    } else {
        utf8_width(s[i]) + utf8_len_from(s, i + 1)
    }
}

/// The character position of `s` that begins `b` bytes after position `i`,
/// when a character boundary lies there.
pub open spec fn boundary_from(s: Seq<char>, i: int, b: int) -> Option<int>
    decreases s.len() - i,
{
    if b == 0 {
        Some(i)
    } else if b < 0 || i < 0 || i >= s.len() {
        None
    } else {
        boundary_from(s, i + 1, b - utf8_width(s[i]))
    }
}

/// Whether a porcelain status line can be cut after its three bytes of
/// status: it is no longer than three bytes, or a character begins at
/// the fourth byte.
pub open spec fn status_line_ok(line: Seq<char>) -> bool {
    utf8_len_from(line, 0) > 3 ==> boundary_from(line, 0, 3) is Some
}

/// Whether every line of a porcelain status can be cut.
pub open spec fn status_text_ok(text: Seq<char>) -> bool {
    forall|k: int| 0 <= k < lines_of(text).len() ==> status_line_ok(#[trigger] lines_of(text)[k])
}

/// The files named by porcelain status lines: of each line longer than
/// three bytes, what follows its first three bytes.
pub open spec fn status_files(lines: Seq<Seq<char>>) -> Seq<Seq<char>>
    decreases lines.len(),
{
    if lines.len() == 0 {
        Seq::empty()
    } else {
        let before = status_files(lines.drop_last());
        let line = lines.last();
        if utf8_len_from(line, 0) > 3 {
            before.push(line.subrange(boundary_from(line, 0, 3)->0, line.len() as int))
        } else {
            before
        }
    }
}

/// Position of the first space in `s` at or after `i`, if any.
pub open spec fn first_space_from(s: Seq<char>, i: int) -> Option<int>
    decreases s.len() - i,
{
    if i < 0 || i >= s.len() {
        None
    } else if s[i] == ' ' {
        Some(i)
    } else {
        first_space_from(s, i + 1)
    }
}

/// The commits of one-line log lines: each line with a space gives the
/// text before its first space as hash and the rest as message; other
/// lines give nothing.
pub open spec fn log_commits(lines: Seq<Seq<char>>) -> Seq<(Seq<char>, Seq<char>)>
    decreases lines.len(),
{
    if lines.len() == 0 {
        Seq::empty()
    } else {
        let before = log_commits(lines.drop_last());
        let line = lines.last();
        match first_space_from(line, 0) {
            Some(p) => before.push((line.subrange(0, p), line.subrange(p + 1, line.len() as int))),
            None => before,
        }
    }
}

/// A commit as a pair of hash and message.
pub open spec fn commit_view(c: GitCommit) -> (Seq<char>, Seq<char>) {
    (c.hash@, c.message@)
}

fn width_of(c: char) -> (r: usize)
    ensures
        r == utf8_width(c),
{
    let u = c as u32;
    if u < 0x80 {
        1
    } else if u < 0x800 {
        2
    } else if u < 0x10000 {
        3
    } else {
        4
    }
}

/// Whether `s[i..]` takes more than `b` bytes.
fn longer_than_from(s: &str, i: usize, b: usize) -> (r: bool)
    requires
        i <= s@.len(),
    ensures
        r == (utf8_len_from(s@, i as int) > b),
    decreases s@.len() - i,
{
    proof {
        lemma_len_from_nonneg(s@, i as int + 1);
    }
    if i >= s.unicode_len() {
        false
    } else {
        let w = width_of(s.get_char(i));
        if w > b {
            true
        } else {
            longer_than_from(s, i + 1, b - w)
        }
    }
}

proof fn lemma_len_from_nonneg(s: Seq<char>, i: int)
    ensures
        utf8_len_from(s, i) >= 0,
    decreases s.len() - i,
{
    if 0 <= i < s.len() {
        lemma_len_from_nonneg(s, i + 1);
    }
}

/// The position `b` bytes after position `i`, if a character begins there.
fn boundary_at(s: &str, i: usize, b: usize) -> (r: Option<usize>)
    requires
        i <= s@.len(),
    ensures
        match r {
            Some(k) => boundary_from(s@, i as int, b as int) == Some(k as int) && k <= s@.len(),
            None => boundary_from(s@, i as int, b as int) is None,
        },
    decreases s@.len() - i,
{
    if b == 0 {
        Some(i)
    } else if i >= s.unicode_len() {
        None
    } else {
        let w = width_of(s.get_char(i));
        if w > b {
            proof {
                lemma_boundary_negative(s@, i as int + 1, b - w);
            }
            None
        } else {
            boundary_at(s, i + 1, b - w)
        }
    }
}

proof fn lemma_boundary_negative(s: Seq<char>, i: int, b: int)
    requires
        b < 0,
    ensures
        boundary_from(s, i, b) is None,
{
}

/// The branch name that `git rev-parse --abbrev-ref HEAD` printed: its
/// output without surrounding white space.
pub fn git_branch_text(text: &str) -> (r: String)
    ensures
        r@ == trimmed(text@),
{
    trim_text(text)
}

/// Whether every line of a porcelain status can be cut after its status
/// bytes (see `status_text_ok`).
pub fn status_text_cuttable(text: &str) -> (r: bool)
    ensures
        r == status_text_ok(text@),
{
    let lines = split_lines(text);
    let mut k: usize = 0;
    while k < lines.len()
        invariant
            k <= lines@.len(),
            lines@.len() == lines_of(text@).len(),
            forall|j: int| 0 <= j < lines@.len() ==> #[trigger] lines@[j]@ == lines_of(text@)[j],
            forall|j: int| 0 <= j < k ==> status_line_ok(#[trigger] lines_of(text@)[j]),
        decreases lines@.len() - k,
    {
        let line = lines[k].as_str();
        if longer_than_from(line, 0, 3) {
            let cut = boundary_at(line, 0, 3);
            if cut.is_none() {
                proof {
                    assert(!status_line_ok(lines_of(text@)[k as int]));
                }
                return false;
            }
        }
        k = k + 1;
    }
    true
}

/// The files of `git status --porcelain` output: of each line longer
/// than three bytes, what follows the three bytes of status.
pub fn parse_git_status(text: &str) -> (r: Vec<String>)
    requires
        status_text_ok(text@),
    ensures
        r@.map_values(|s: String| s@) == status_files(lines_of(text@)),
{
    let lines = split_lines(text);
    let ghost all = lines_of(text@);
    let mut files: Vec<String> = Vec::new();
    let mut k: usize = 0;
    while k < lines.len()
        invariant
            k <= lines@.len(),
            lines@.len() == all.len(),
            all == lines_of(text@),
            status_text_ok(text@),
            forall|j: int| 0 <= j < lines@.len() ==> #[trigger] lines@[j]@ == all[j],
            files@.map_values(|s: String| s@) == status_files(all.subrange(0, k as int)),
        decreases lines@.len() - k,
    {
        let line = lines[k].as_str();
        proof {
            assert(all.subrange(0, k + 1).drop_last() =~= all.subrange(0, k as int));
            assert(all.subrange(0, k + 1).last() == all[k as int]);
            assert(status_line_ok(all[k as int]));
        }
        if longer_than_from(line, 0, 3) {
            let cut = boundary_at(line, 0, 3);
            match cut {
                Some(c) => {
                    let mut name = String::new();
                    push_chars_between(&mut name, line, c, line.unicode_len());
                    files.push(name);
                    proof {
                        assert(files@.map_values(|s: String| s@) =~= status_files(
                            all.subrange(0, k + 1),
                        ));
                    }
                },
                None => {},
            }
        } else {
            proof {
                assert(files@.map_values(|s: String| s@) =~= status_files(all.subrange(0, k + 1)));
            }
        }
        k = k + 1;
    }
    proof {
        assert(all.subrange(0, lines@.len() as int) =~= all);
    }
    files
}

/// The first space of `s` at or after `i`.
fn find_space_from(s: &str, i: usize) -> (r: Option<usize>)
    requires
        i <= s@.len(),
    ensures
        match r {
            Some(p) => first_space_from(s@, i as int) == Some(p as int) && p < s@.len(),
            None => first_space_from(s@, i as int) is None,
        },
    decreases s@.len() - i,
{
    if i >= s.unicode_len() {
        None
    } else if s.get_char(i) == ' ' {
        Some(i)
    } else {
        find_space_from(s, i + 1)
    }
}

/// The commits of `git log --oneline --no-decorate` output: of each line
/// with a space, the hash before its first space and the message after.
pub fn parse_git_log(text: &str) -> (r: Vec<GitCommit>)
    ensures
        r@.map_values(|c: GitCommit| commit_view(c)) == log_commits(lines_of(text@)),
{
    let lines = split_lines(text);
    let ghost all = lines_of(text@);
    let mut commits: Vec<GitCommit> = Vec::new();
    let mut k: usize = 0;
    while k < lines.len()
        invariant
            k <= lines@.len(),
            lines@.len() == all.len(),
            forall|j: int| 0 <= j < lines@.len() ==> #[trigger] lines@[j]@ == all[j],
            commits@.map_values(|c: GitCommit| commit_view(c)) == log_commits(
                all.subrange(0, k as int),
            ),
        decreases lines@.len() - k,
    {
        let line = lines[k].as_str();
        proof {
            assert(all.subrange(0, k + 1).drop_last() =~= all.subrange(0, k as int));
            assert(all.subrange(0, k + 1).last() == all[k as int]);
        }
        match find_space_from(line, 0) {
            Some(p) => {
                let mut hash = String::new();
                push_chars_between(&mut hash, line, 0, p);
                let n = line.unicode_len();
                let mut message = String::new();
                push_chars_between(&mut message, line, p + 1, n);
                commits.push(GitCommit { hash, message });
            },
            None => {},
        }
        proof {
            assert(commits@.map_values(|c: GitCommit| commit_view(c)) =~= log_commits(
                all.subrange(0, k + 1),
            ));
        }
        k = k + 1;
    }
    proof {
        assert(all.subrange(0, lines@.len() as int) =~= all);
    }
    commits
}

/// The repository state from the texts that git printed: the branch
/// output, and the status and log outputs where those commands succeeded
/// (`None` where one failed, which leaves its list empty).
pub fn git_info_from_texts(branch: &str, status: Option<&str>, log: Option<&str>) -> (r: GitInfo)
    requires
        status matches Some(s) ==> status_text_ok(s@),
    ensures
        r.branch@ == trimmed(branch@),
        r.uncommitted_files@.map_values(|s: String| s@) == match status {
            Some(s) => status_files(lines_of(s@)),
            None => Seq::<Seq<char>>::empty(),
        },
        r.recent_commits@.map_values(|c: GitCommit| commit_view(c)) == match log {
            Some(l) => log_commits(lines_of(l@)),
            None => Seq::<(Seq<char>, Seq<char>)>::empty(),
        },
{
    let branch_name = git_branch_text(branch);
    let uncommitted_files = match status {
        Some(s) => parse_git_status(s),
        None => {
            let v: Vec<String> = Vec::new();
            proof {
                assert(v@.map_values(|s: String| s@) =~= Seq::<Seq<char>>::empty());
            }
            v
        },
    };
    let recent_commits = match log {
        Some(l) => parse_git_log(l),
        None => {
            let v: Vec<GitCommit> = Vec::new();
            proof {
                assert(v@.map_values(|c: GitCommit| commit_view(c)) =~= Seq::<
                    (Seq<char>, Seq<char>),
                >::empty());
            }
            v
        },
    };
    GitInfo { branch: branch_name, uncommitted_files, recent_commits }
}

/// The repository state from the raw bytes that git printed, each
/// decoded as lossy UTF-8. `None` where a status line could not be cut
/// after its status bytes, an output that git does not print.
pub fn git_info_from_output(branch: &[u8], status: Option<&[u8]>, log: Option<&[u8]>) -> (r:
    Option<GitInfo>)
    ensures
        r is Some <==> (status matches Some(s) ==> status_text_ok(utf8_lossy(s@))),
        r matches Some(g) ==> {
            &&& g.branch@ == trimmed(utf8_lossy(branch@))
            &&& g.uncommitted_files@.map_values(|s: String| s@) == match status {
                Some(s) => status_files(lines_of(utf8_lossy(s@))),
                None => Seq::<Seq<char>>::empty(),
            }
            &&& g.recent_commits@.map_values(|c: GitCommit| commit_view(c)) == match log {
                Some(l) => log_commits(lines_of(utf8_lossy(l@))),
                None => Seq::<(Seq<char>, Seq<char>)>::empty(),
            }
        },
{
    let branch_text = text_of_bytes(branch);
    let status_text = match status {
        Some(s) => Some(text_of_bytes(s)),
        None => None,
    };
    let log_text = match log {
        Some(l) => Some(text_of_bytes(l)),
        None => None,
    };
    let status_ref: Option<&str> = match &status_text {
        Some(s) => {
            if !status_text_cuttable(s.as_str()) {
                return None;
            }
            Some(s.as_str())
        },
        None => None,
    };
    let log_ref: Option<&str> = match &log_text {
        Some(l) => Some(l.as_str()),
        None => None,
    };
    Some(git_info_from_texts(branch_text.as_str(), status_ref, log_ref))
}

} // verus!
