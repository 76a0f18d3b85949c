//! A check on the desktop app's source: every `#[tauri::command]` must be an
//! `async fn`, since a synchronous command blocks the window's thread.
//!
//! The scan reads the text line by line. After a command attribute it skips
//! blank lines, doc comments and other attributes; the first other line must
//! declare an `async fn` (optionally `pub` or `pub(...)`).

use vstd::prelude::*;
use vstd::string::StrSliceExecFns;
use vstd::string::StringExecFns;
use crate::text::{char_len, push_char, push_chars_between};

verus! {

// ---------------------------------------------------------------------------
// Characters and positions
// ---------------------------------------------------------------------------

/// White space as Unicode defines it (the `White_Space` property).
pub open spec fn is_white(c: char) -> bool {
    let u = c as u32;
    ||| 9 <= u <= 13
    ||| u == 32
    ||| u == 0x85
    ||| u == 0xA0
    ||| u == 0x1680
    ||| 0x2000 <= u <= 0x200A
    ||| u == 0x2028
    ||| u == 0x2029
    ||| u == 0x202F
    ||| u == 0x205F
    ||| u == 0x3000
}

/// A character that can begin a function's name: an ASCII letter, digit or
/// `_`, or a character beyond ASCII that is not white space.
pub open spec fn is_name_char(c: char) -> bool {
    let u = c as u32;
    ||| 48 <= u <= 57
    ||| 65 <= u <= 90
    ||| 97 <= u <= 122
    ||| u == 95
    ||| (u >= 128 && !is_white(c))
}

/// A lower-case ASCII letter.
pub open spec fn is_lower(c: char) -> bool {
    97 <= (c as u32) <= 122
}

/// The first position from `i` on, before `end`, that is not white space
/// (`end` when there is none).
pub open spec fn skip_white(s: Seq<char>, i: int, end: int) -> int
    decreases end - i,
{
    if i < end && is_white(s[i]) {
        skip_white(s, i + 1, end)
    } else {
        i
    }
}

/// The end of `s[start..end]` without its trailing white space.
pub open spec fn trim_end_at(s: Seq<char>, start: int, end: int) -> int
    decreases end - start,
{
    if start < end && is_white(s[end - 1]) {
        trim_end_at(s, start, end - 1)
    } else {
        end
    }
}

/// `s` without leading and trailing white space (`str::trim`).
pub open spec fn trimmed(s: Seq<char>) -> Seq<char> {
    let start = skip_white(s, 0, s.len() as int);
    s.subrange(start, trim_end_at(s, start, s.len() as int))
}

/// The end of the run of lower-case letters from `i`.
pub open spec fn lower_run(s: Seq<char>, i: int) -> int
    decreases s.len() - i,
{
    if 0 <= i < s.len() && is_lower(s[i]) {
        lower_run(s, i + 1)
    } else {
        i
    }
}

/// `lit` stands in `s` at `i`.
pub open spec fn has_at(s: Seq<char>, i: int, lit: Seq<char>) -> bool {
    0 <= i && i + lit.len() <= s.len() && s.subrange(i, i + lit.len()) == lit
}

// ---------------------------------------------------------------------------
// The three kinds of line
// ---------------------------------------------------------------------------

/// A line that is only a command attribute: `#[tauri::command]`, or with
/// arguments in round brackets, white space allowed around the parts.
pub open spec fn is_command_attr(s: Seq<char>) -> bool {
    let n = s.len() as int;
    let a = skip_white(s, 0, n);
    let b = skip_white(s, a + 2, n);
    let c = b + 14;
    let e1 = trim_end_at(s, c, n);
    let e2 = trim_end_at(s, c, e1 - 1);
    let d = skip_white(s, c, e2);
    &&& has_at(s, a, "#["@)
    &&& has_at(s, b, "tauri::command"@)
    &&& e1 > c
    &&& s[e1 - 1] == ']'
    &&& (d == e2 || (e2 - d >= 2 && s[d] == '(' && s[e2 - 1] == ')'))
}

/// A line that begins an attribute.
pub open spec fn is_attr(s: Seq<char>) -> bool {
    has_at(s, skip_white(s, 0, s.len() as int), "#["@)
}

/// A line the scan passes over between a command attribute and its
/// function: blank, a doc comment, or another attribute.
pub open spec fn is_skippable(s: Seq<char>) -> bool {
    let t = skip_white(s, 0, s.len() as int);
    ||| t == s.len()
    ||| has_at(s, t, "///"@)
    ||| has_at(s, t, "//!"@)
    ||| is_attr(s)
}

/// After `async` at `p`: white space, `fn`, white space, and a name.
pub open spec fn async_rest(s: Seq<char>, p: int) -> bool {
    let n = s.len() as int;
    let q = skip_white(s, p, n);
    let u = skip_white(s, q + 2, n);
    &&& q > p
    &&& has_at(s, q, "fn"@)
    &&& u > q + 2
    &&& u < n
    &&& is_name_char(s[u])
}

/// The end of an optional `(word)` after `pub` at `r`.
pub open spec fn visibility_end(s: Seq<char>, r: int) -> int {
    let k = lower_run(s, r + 1);
    if 0 <= r < s.len() && s[r] == '(' && k > r + 1 && k < s.len() && s[k] == ')' {
        k + 1
    } else {
        r
    }
}

/// A line that declares an `async fn`, optionally `pub` or `pub(word)`.
pub open spec fn is_async_fn(s: Seq<char>) -> bool {
    let n = s.len() as int;
    let t = skip_white(s, 0, n);
    if has_at(s, t, "async"@) {
        async_rest(s, t + 5)
    } else if has_at(s, t, "pub"@) {
        let r2 = visibility_end(s, t + 3);
        let r3 = skip_white(s, r2, n);
        r3 > r2 && has_at(s, r3, "async"@) && async_rest(s, r3 + 5)
    } else {
        false
    }
}

// ---------------------------------------------------------------------------
// Lines of a text
// ---------------------------------------------------------------------------

/// The text split at every `\n`: always one piece more than there are
/// newlines.
pub open spec fn raw_lines(s: Seq<char>) -> Seq<Seq<char>>
    decreases s.len(),
{
    if s.len() == 0 {
        seq![Seq::empty()]
    } else {
        let p = raw_lines(s.drop_last());
        if s.last() == '\n' {
            p.push(Seq::empty())
        } else {
            p.update(p.len() - 1, p.last().push(s.last()))
        }
    }
}

/// A line ended by `\n` loses a `\r` before it.
pub open spec fn strip_cr(l: Seq<char>) -> Seq<char> {
    if l.len() > 0 && l.last() == '\r' {
        l.drop_last()
    } else {
        l
    }
}

/// The lines of a text, as `str::lines` gives them: split at `\n`, a `\r`
/// before the `\n` dropped, and no empty last line after a final newline.
pub open spec fn lines_of(s: Seq<char>) -> Seq<Seq<char>> {
    let r = raw_lines(s);
    let body = Seq::new((r.len() - 1) as nat, |k: int| strip_cr(r[k]));
    if r.last().len() == 0 {
        body
    } else {
        body.push(r.last())
    }
}

proof fn lemma_raw_lines_nonempty(s: Seq<char>)
    ensures
        raw_lines(s).len() >= 1,
    decreases s.len(),
{
    if s.len() > 0 {
        lemma_raw_lines_nonempty(s.drop_last());
    }
}

/// `l` without its last character.
fn drop_last_char(l: &String) -> (r: String)
    requires
        l@.len() > 0,
    ensures
        r@ == l@.drop_last(),
{
    let n = char_len(l.as_str());
    let mut r = String::new();
    let mut k: usize = 0;
    while k + 1 < n
        invariant
            n == l@.len(),
            n > 0,
            k < n,
            r@ == l@.subrange(0, k as int),
        decreases n - k,
    {
        let c = l.as_str().get_char(k);
        push_char(&mut r, c);
        assert(l@.subrange(0, k + 1) =~= l@.subrange(0, k as int).push(c));
        k = k + 1;
    }
    assert(l@.drop_last() =~= l@.subrange(0, k as int));
    r
}

/// A line ended by `\n`, without a `\r` before the `\n`.
fn ended_line(l: &String) -> (r: String)
    ensures
        r@ == strip_cr(l@),
{
    let n = char_len(l.as_str());
    if n > 0 && l.as_str().get_char(n - 1) == '\r' {
        drop_last_char(l)
    } else {
        l.clone()
    }
}

/// Splits a text into lines (see `lines_of`).
pub fn split_lines(src: &str) -> (r: Vec<String>)
    ensures
        r@.len() == lines_of(src@).len(),
        forall|k: int| 0 <= k < r@.len() ==> #[trigger] r@[k]@ == lines_of(src@)[k],
{
    let n = char_len(src);
    let mut done: Vec<String> = Vec::new();
    let mut cur = String::new();
    let mut i: usize = 0;
    proof {
        assert(src@.subrange(0, 0) =~= Seq::<char>::empty());
    }
    while i < n
        invariant
            n == src@.len(),
            i <= n,
            raw_lines(src@.subrange(0, i as int)).len() == done@.len() + 1,
            forall|k: int|
                0 <= k < done@.len() ==> #[trigger] done@[k]@ == strip_cr(
                    raw_lines(src@.subrange(0, i as int))[k],
                ),
            cur@ == raw_lines(src@.subrange(0, i as int)).last(),
        decreases n - i,
    {
        let c = src.get_char(i);
        let ghost before = src@.subrange(0, i as int);
        let ghost after = src@.subrange(0, i + 1);
        proof {
            assert(after.drop_last() =~= before);
            assert(after.last() == c);
            lemma_raw_lines_nonempty(before);
        }
        if c == '\n' {
            let l = ended_line(&cur);
            done.push(l);
            cur = String::new();
            proof {
                assert(raw_lines(after) == raw_lines(before).push(Seq::empty()));
                assert forall|k: int| 0 <= k < done@.len() implies #[trigger] done@[k]@ == strip_cr(
                    raw_lines(after)[k],
                ) by {
                    if k < done@.len() - 1 {
                        assert(raw_lines(after)[k] == raw_lines(before)[k]);
                    }
                }
            }
        } else {
            push_char(&mut cur, c);
            proof {
                let p = raw_lines(before);
                assert(raw_lines(after) == p.update(p.len() - 1, p.last().push(c)));
                assert forall|k: int| 0 <= k < done@.len() implies #[trigger] done@[k]@ == strip_cr(
                    raw_lines(after)[k],
                ) by {
                    assert(raw_lines(after)[k] == p[k]);
                }
            }
        }
        i = i + 1;
    }
    proof {
        assert(src@.subrange(0, n as int) =~= src@);
    }
    let ghost body = Seq::new(
        (raw_lines(src@).len() - 1) as nat,
        |k: int| strip_cr(raw_lines(src@)[k]),
    );
    if char_len(cur.as_str()) > 0 {
        done.push(cur);
        proof {
            assert(lines_of(src@) == body.push(raw_lines(src@).last()));
            assert forall|k: int| 0 <= k < done@.len() implies #[trigger] done@[k]@ == lines_of(
                src@,
            )[k] by {
                if k < done@.len() - 1 {
                    assert(lines_of(src@)[k] == body[k]);
                }
            }
        }
    } else {
        proof {
            assert(lines_of(src@) == body);
        }
    }
    done
}

// ---------------------------------------------------------------------------
// Recognising lines
// ---------------------------------------------------------------------------

/// Whether `c` is white space (see `is_white`).
fn white_char(c: char) -> (r: bool)
    ensures
        r == is_white(c),
{
    let u = c as u32;
    (9 <= u && u <= 13) || u == 32 || u == 0x85 || u == 0xA0 || u == 0x1680 || (0x2000 <= u && u
        <= 0x200A) || u == 0x2028 || u == 0x2029 || u == 0x202F || u == 0x205F || u == 0x3000
}

/// Whether `c` can begin a name (see `is_name_char`).
fn name_char(c: char) -> (r: bool)
    ensures
        r == is_name_char(c),
{
    let u = c as u32;
    (48 <= u && u <= 57) || (65 <= u && u <= 90) || (97 <= u && u <= 122) || u == 95 || (u >= 128
        && !white_char(c))
}

/// The first position from `i` that is not white space, before `end`
/// (see `skip_white`).
pub fn skip_white_from(s: &str, i: usize, end: usize) -> (r: usize)
    requires
        i <= end <= s@.len(),
    ensures
        r == skip_white(s@, i as int, end as int),
        i <= r <= end,
    decreases end - i,
{
    if i < end && white_char(s.get_char(i)) {
        skip_white_from(s, i + 1, end)
    } else {
        i
    }
}

/// The end of `s[start..end]` without trailing white space.
pub fn trim_end_from(s: &str, start: usize, end: usize) -> (r: usize)
    requires
        start <= end <= s@.len(),
    ensures
        r == trim_end_at(s@, start as int, end as int),
        start <= r <= end,
    decreases end - start,
{
    if start < end && white_char(s.get_char(end - 1)) {
        trim_end_from(s, start, end - 1)
    } else {
        end
    }
}

/// The end of the run of lower-case letters from `i`.
fn lower_run_exec(s: &str, i: usize, n: usize) -> (r: usize)
    requires
        n == s@.len(),
        i <= n,
    ensures
        r == lower_run(s@, i as int),
        i <= r <= n,
    decreases n - i,
{
    if i < n {
        let u = s.get_char(i) as u32;
        if 97 <= u && u <= 122 {
            return lower_run_exec(s, i + 1, n);
        }
    }
    i
}

/// Whether `lit` stands in `s` at `i`.
fn has_at_exec(s: &str, i: usize, lit: &str) -> (r: bool)
    requires
        i <= s@.len(),
    ensures
        r == has_at(s@, i as int, lit@),
{
    let n = char_len(s);
    let m = char_len(lit);
    if m > n - i {
        return false;
    }
    let mut k: usize = 0;
    while k < m
        invariant
            n == s@.len(),
            m == lit@.len(),
            i + m <= n,
            k <= m,
            forall|j: int| 0 <= j < k ==> s@[i + j] == lit@[j],
        decreases m - k,
    {
        if s.get_char(i + k) != lit.get_char(k) {
            assert(s@.subrange(i as int, i + m)[k as int] != lit@[k as int]);
            return false;
        }
        k = k + 1;
    }
    assert(s@.subrange(i as int, i + m) =~= lit@);
    true
}

/// Whether a line is a command attribute (see `is_command_attr`).
pub fn command_attr_line(s: &str) -> (r: bool)
    ensures
        r == is_command_attr(s@),
{
    proof {
        reveal_strlit("#[");
        reveal_strlit("tauri::command");
    }
    let n = char_len(s);
    let a = skip_white_from(s, 0, n);
    if !has_at_exec(s, a, "#[") {
        return false;
    }
    let b = skip_white_from(s, a + 2, n);
    if !has_at_exec(s, b, "tauri::command") {
        return false;
    }
    let c = b + 14;
    let e1 = trim_end_from(s, c, n);
    if !(e1 > c) || s.get_char(e1 - 1) != ']' {
        return false;
    }
    let e2 = trim_end_from(s, c, e1 - 1);
    let d = skip_white_from(s, c, e2);
    d == e2 || (e2 - d >= 2 && s.get_char(d) == '(' && s.get_char(e2 - 1) == ')')
}

/// Whether a line begins an attribute.
pub fn attr_line(s: &str) -> (r: bool)
    ensures
        r == is_attr(s@),
{
    let n = char_len(s);
    let t = skip_white_from(s, 0, n);
    has_at_exec(s, t, "#[")
}

/// Whether the scan passes over a line (see `is_skippable`).
fn skippable_line(s: &str) -> (r: bool)
    ensures
        r == is_skippable(s@),
{
    let n = char_len(s);
    let t = skip_white_from(s, 0, n);
    t == n || has_at_exec(s, t, "///") || has_at_exec(s, t, "//!") || attr_line(s)
}

/// `async_rest` at `p`.
fn async_rest_exec(s: &str, p: usize) -> (r: bool)
    requires
        p <= s@.len(),
    ensures
        r == async_rest(s@, p as int),
{
    proof {
        reveal_strlit("fn");
    }
    let n = char_len(s);
    let q = skip_white_from(s, p, n);
    if !(q > p) || !has_at_exec(s, q, "fn") {
        return false;
    }
    let u = skip_white_from(s, q + 2, n);
    u > q + 2 && u < n && name_char(s.get_char(u))
}

/// Whether a line declares an `async fn` (see `is_async_fn`).
pub fn async_fn_line(s: &str) -> (r: bool)
    ensures
        r == is_async_fn(s@),
{
    proof {
        reveal_strlit("async");
        reveal_strlit("pub");
    }
    let n = char_len(s);
    let t = skip_white_from(s, 0, n);
    if has_at_exec(s, t, "async") {
        return async_rest_exec(s, t + 5);
    }
    if !has_at_exec(s, t, "pub") {
        return false;
    }
    let r = t + 3;
    let k = if r < n {
        lower_run_exec(s, r + 1, n)
    } else {
        n
    };
    let r2 = if r < n && s.get_char(r) == '(' && k > r + 1 && k < n && s.get_char(k) == ')' {
        k + 1
    } else {
        r
    };
    proof {
        assert(r2 == visibility_end(s@, r as int));
    }
    let r3 = skip_white_from(s, r2, n);
    r3 > r2 && has_at_exec(s, r3, "async") && async_rest_exec(s, r3 + 5)
}

// ---------------------------------------------------------------------------
// The scan
// ---------------------------------------------------------------------------

/// The first line from `j` that the scan does not pass over.
pub open spec fn next_code_line(lines: Seq<Seq<char>>, j: int) -> int
    decreases lines.len() - j,
{
    if 0 <= j < lines.len() && is_skippable(lines[j]) {
        next_code_line(lines, j + 1)
    } else {
        j
    }
}

/// What the scan reports at line `idx`: for a command attribute whose
/// function is not `async` (or missing), its line number and the line that
/// should have declared it.
pub open spec fn site_error(lines: Seq<Seq<char>>, idx: int) -> Option<(int, Seq<char>)> {
    let j = next_code_line(lines, idx + 1);
    let candidate = if j < lines.len() {
        lines[j]
    } else {
        Seq::empty()
    };
    if is_command_attr(lines[idx]) && !is_async_fn(candidate) {
        Some((idx + 1, candidate))
    } else {
        None
    }
}

/// The reports for the first `k` lines, in order.
pub open spec fn errors_upto(lines: Seq<Seq<char>>, k: int) -> Seq<(int, Seq<char>)>
    decreases k,
{
    if k <= 0 {
        Seq::empty()
    } else {
        match site_error(lines, k - 1) {
            Some(e) => errors_upto(lines, k - 1).push(e),
            None => errors_upto(lines, k - 1),
        }
    }
}

/// A command that is not an `async fn`.
#[derive(Clone, Debug)]
pub struct ScanError {
    /// Where the text came from.
    pub source: String,
    /// The line of the attribute, counted from 1.
    pub attr_line: usize,
    /// The line found where the `async fn` should be.
    pub offending: String,
}

fn code_line_after(lines: &Vec<String>, j: usize) -> (r: usize)
    requires
        j <= lines@.len(),
    ensures
        r == next_code_line(Seq::new(lines@.len(), |k: int| lines@[k]@), j as int),
        j <= r <= lines@.len(),
    decreases lines@.len() - j,
{
    let ghost ls = Seq::new(lines@.len(), |k: int| lines@[k]@);
    if j < lines.len() && skippable_line(lines[j].as_str()) {
        code_line_after(lines, j + 1)
    } else {
        j
    }
}

/// Scans a source text for command attributes not followed by an
/// `async fn`; `label` names the text in the reports.
pub fn scan(source: &str, label: &str) -> (r: Vec<ScanError>)
    ensures
        r@.len() == errors_upto(lines_of(source@), lines_of(source@).len() as int).len(),
        forall|k: int|
            0 <= k < r@.len() ==> {
                let e = errors_upto(lines_of(source@), lines_of(source@).len() as int)[k];
                &&& (#[trigger] r@[k]).source@ == label@
                &&& r@[k].attr_line == e.0
                &&& r@[k].offending@ == e.1
            },
{
    let lines = split_lines(source);
    let ghost ls = Seq::new(lines@.len(), |k: int| lines@[k]@);
    proof {
        assert(ls =~= lines_of(source@));
    }
    let mut errors: Vec<ScanError> = Vec::new();
    let mut idx: usize = 0;
    while idx < lines.len()
        invariant
            idx <= lines@.len(),
            ls == Seq::new(lines@.len(), |k: int| lines@[k]@),
            ls == lines_of(source@),
            errors@.len() == errors_upto(ls, idx as int).len(),
            forall|k: int|
                0 <= k < errors@.len() ==> {
                    let e = errors_upto(ls, idx as int)[k];
                    &&& (#[trigger] errors@[k]).source@ == label@
                    &&& errors@[k].attr_line == e.0
                    &&& errors@[k].offending@ == e.1
                },
        decreases lines@.len() - idx,
    {
        if command_attr_line(lines[idx].as_str()) {
            let j = code_line_after(&lines, idx + 1);
            let candidate = if j < lines.len() {
                lines[j].clone()
            } else {
                String::new()
            };
            proof {
                assert(ls[idx as int] == lines@[idx as int]@);
                if j < lines@.len() {
                    assert(candidate@ == ls[j as int]);
                }
            }
            if !async_fn_line(candidate.as_str()) {
                errors.push(
                    ScanError {
                        source: String::from_str(label),
                        attr_line: idx + 1,
                        offending: candidate,
                    },
                );
            }
        }
        proof {
            assert(ls[idx as int] == lines@[idx as int]@);
        }
        idx = idx + 1;
    }
    errors
}

/// `s` without leading and trailing white space, as `str::trim` gives it.
pub fn trim_text(s: &str) -> (r: String)
    ensures
        r@ == trimmed(s@),
{
    let n = char_len(s);
    let start = skip_white_from(s, 0, n);
    let end = trim_end_from(s, start, n);
    let mut out = String::new();
    push_chars_between(&mut out, s, start, end);
    proof {
        assert(out@ =~= trimmed(s@));
    }
    out
}

} // verus!
