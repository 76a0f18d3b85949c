//! Line diffs between two versions of a file, through the `similar` crate,
//! and what the diff command reports from them.

use similar::{ChangeTag, TextDiff};
use vstd::prelude::*;
use crate::output::{BOLD, CYAN, GREEN, RED, RESET};
use crate::text::{lex_lt, lemma_lex_total, lemma_lex_transitive, push_str, str_eq, str_lt};
use crate::types::{EventType, Snapshot};
use crate::clock::{rfc3339_of, rfc3339_text};
use crate::text::{decimal_signed, pad_right, push_padded_right, push_signed};
use crate::types::UnfError;
use vstd::string::StringExecFns;

verus! {

/// What a diff line does.
#[derive(Clone, Copy, Debug, PartialEq, Eq, Structural)]
pub enum ChangeKind {
    /// Present only in the old version.
    Delete,
    /// Present only in the new version.
    Insert,
    /// Present in both.
    Equal,
}

/// One line of a line diff.
#[derive(Clone, Debug)]
pub struct LineChange {
    pub kind: ChangeKind,
    /// The line's text, with its line terminator when it has one.
    pub text: String,
    /// 0-based index of the line in the old version, if it is there.
    pub old_index: Option<usize>,
    /// 0-based index of the line in the new version, if it is there.
    pub new_index: Option<usize>,
}

/// A line change as plain values.
pub open spec fn change_view(c: LineChange) -> (ChangeKind, Seq<char>, Option<usize>, Option<usize>) {
    (c.kind, c.text@, c.old_index, c.new_index)
}

/// The line changes that `similar`'s `TextDiff::from_lines(old, new)`
/// reports through `iter_all_changes`, in order.
pub uninterp spec fn line_diff(old: Seq<char>, new: Seq<char>) -> Seq<
    (ChangeKind, Seq<char>, Option<usize>, Option<usize>),
>;

/// The hunks of `similar`'s unified diff of `old` and `new` with the given
/// context radius: each hunk's `@@` header text, its line changes, and the
/// text it is written as in a unified diff.
pub uninterp spec fn unified_hunks(old: Seq<char>, new: Seq<char>, radius: int) -> Seq<
    (Seq<char>, Seq<(ChangeKind, Seq<char>, Option<usize>, Option<usize>)>, Seq<char>),
>;

/// The text std's `String::from_utf8_lossy` makes of `bytes`.
pub uninterp spec fn utf8_lossy(bytes: Seq<u8>) -> Seq<char>;

/// Decodes bytes as UTF-8 with `String::from_utf8_lossy`, each invalid
/// sequence becoming U+FFFD.
///
/// Trusted: the text is `utf8_lossy(bytes)`, and it has no more characters
/// than there are bytes (every character comes from at least one byte).
#[verifier::external_body]
pub(crate) fn text_of_bytes(bytes: &[u8]) -> (r: String)
    ensures
        r@ == utf8_lossy(bytes@),
        r@.len() <= bytes@.len(),
{
    String::from_utf8_lossy(bytes).into_owned()
}

/// The line changes of `TextDiff::from_lines(old, new)`, from
/// `iter_all_changes`.
///
/// Trusted: they are `line_diff(old, new)`; there are no more of them than
/// characters in both texts together (each change is a non-empty line of
/// one of them, and an unchanged line counts once).
#[verifier::external_body]
pub(crate) fn diff_lines(old: &str, new: &str) -> (r: Vec<LineChange>)
    ensures
        r@.len() == line_diff(old@, new@).len(),
        forall|i: int| 0 <= i < r@.len() ==> change_view(#[trigger] r@[i]) == line_diff(old@, new@)[i],
        r@.len() <= old@.len() + new@.len(),
{
    let mut out = Vec::new();
    for c in TextDiff::from_lines(old, new).iter_all_changes() {
        let kind = match c.tag() {
            ChangeTag::Delete => ChangeKind::Delete,
            ChangeTag::Insert => ChangeKind::Insert,
            ChangeTag::Equal => ChangeKind::Equal,
        };
        out.push(LineChange { kind, text: c.to_string_lossy().into_owned(), old_index: c.old_index(), new_index: c.new_index() });
    }
    out
}

/// A hunk of a unified diff, as plain values.
#[derive(Clone, Debug)]
pub struct RawHunk {
    /// The `@@ -a,b +c,d @@` header text.
    pub header: String,
    pub changes: Vec<LineChange>,
    /// The hunk as written in a unified diff: header line and marked lines.
    pub text: String,
}

/// The hunks of `TextDiff::from_lines(old, new).unified_diff()` with the
/// given context radius, from `iter_hunks`, `header`, `iter_changes` and the
/// hunk's `Display`.
///
/// Trusted: they are `unified_hunks(old, new, radius)`; no hunk has more
/// changes than the two texts have characters together.
#[verifier::external_body]
pub(crate) fn diff_hunks(old: &str, new: &str, radius: usize) -> (r: Vec<RawHunk>)
    requires
        radius <= usize::MAX / 2,
    ensures
        r@.len() == unified_hunks(old@, new@, radius as int).len(),
        forall|i: int|
            0 <= i < r@.len() ==> {
                &&& (#[trigger] r@[i]).header@ == unified_hunks(old@, new@, radius as int)[i].0
                &&& r@[i].text@ == unified_hunks(old@, new@, radius as int)[i].2
                &&& r@[i].changes@.len() == unified_hunks(old@, new@, radius as int)[i].1.len()
                &&& r@[i].changes@.len() <= old@.len() + new@.len()
                &&& forall|j: int|
                    0 <= j < r@[i].changes@.len() ==> change_view(#[trigger] r@[i].changes@[j])
                        == unified_hunks(old@, new@, radius as int)[i].1[j]
            },
{
    let diff = TextDiff::from_lines(old, new);
    let mut binding = diff.unified_diff();
    let mut out = Vec::new();
    for h in binding.context_radius(radius).iter_hunks() {
        let mut changes = Vec::new();
        for c in h.iter_changes() {
            let kind = match c.tag() { ChangeTag::Delete => ChangeKind::Delete, ChangeTag::Insert => ChangeKind::Insert, ChangeTag::Equal => ChangeKind::Equal };
            changes.push(LineChange { kind, text: c.to_string_lossy().into_owned(), old_index: c.old_index(), new_index: c.new_index() });
        }
        out.push(RawHunk { header: h.header().to_string(), changes, text: h.to_string() });
    }
    out
}

// ---------------------------------------------------------------------------
// Line statistics
// ---------------------------------------------------------------------------

/// Lines added and removed between two versions.
#[derive(Clone, Copy, Debug, Default, PartialEq, Eq, Structural)]
pub struct DiffStats {
    pub lines_added: u32,
    pub lines_removed: u32,
}

/// Number of changes of kind `k` in `s`.
pub open spec fn count_kind(s: Seq<(ChangeKind, Seq<char>, Option<usize>, Option<usize>)>, k: ChangeKind) -> int
    decreases s.len(),
{
    if s.len() == 0 {
        0
    } else {
        count_kind(s.drop_last(), k) + (if s.last().0 == k {
            1int
        } else {
            0int
        })
    }
}

/// Counts never exceed the number of changes.
proof fn lemma_count_kind_bound(s: Seq<(ChangeKind, Seq<char>, Option<usize>, Option<usize>)>, k: ChangeKind)
    ensures
        0 <= count_kind(s, k) <= s.len(),
    decreases s.len(),
{
    if s.len() > 0 {
        lemma_count_kind_bound(s.drop_last(), k);
    }
}

/// The views of a list of line changes.
pub open spec fn change_views(v: Seq<LineChange>) -> Seq<(ChangeKind, Seq<char>, Option<usize>, Option<usize>)> {
    Seq::new(v.len(), |i: int| change_view(v[i]))
}

/// A prefix has no more changes of a kind than the whole.
proof fn lemma_count_kind_prefix(
    s: Seq<(ChangeKind, Seq<char>, Option<usize>, Option<usize>)>,
    k: ChangeKind,
    i: int,
)
    requires
        0 <= i <= s.len(),
    ensures
        count_kind(s.subrange(0, i), k) <= count_kind(s, k),
    decreases s.len(),
{
    if i < s.len() {
        lemma_count_kind_prefix(s.drop_last(), k, i);
        assert(s.drop_last().subrange(0, i) =~= s.subrange(0, i));
        lemma_count_kind_bound(s.drop_last(), k);
    } else {
        assert(s.subrange(0, i) =~= s);
    }
}

/// Both counts of the line diff of two byte blobs fit the `u32` fields of
/// `DiffStats`.
pub open spec fn stats_fit(old: Seq<u8>, new: Seq<u8>) -> bool {
    &&& count_kind(line_diff(utf8_lossy(old), utf8_lossy(new)), ChangeKind::Insert) <= u32::MAX
    &&& count_kind(line_diff(utf8_lossy(old), utf8_lossy(new)), ChangeKind::Delete) <= u32::MAX
}

/// Lines added and removed between two byte blobs, each read as UTF-8
/// (invalid sequences replaced): the insertions and deletions of their
/// line diff. The counts must fit the `u32` fields.
pub fn compute_diff_stats(old: &[u8], new: &[u8]) -> (r: DiffStats)
    requires
        stats_fit(old@, new@),
    ensures
        r.lines_added == count_kind(
            line_diff(utf8_lossy(old@), utf8_lossy(new@)),
            ChangeKind::Insert,
        ),
        r.lines_removed == count_kind(
            line_diff(utf8_lossy(old@), utf8_lossy(new@)),
            ChangeKind::Delete,
        ),
{
    let old_text = text_of_bytes(old);
    let new_text = text_of_bytes(new);
    let changes = diff_lines(old_text.as_str(), new_text.as_str());
    let ghost all = line_diff(old_text@, new_text@);
    assert(change_views(changes@) =~= all);
    let mut added: u32 = 0;
    let mut removed: u32 = 0;
    let mut i: usize = 0;
    while i < changes.len()
        invariant
            i <= changes@.len(),
            change_views(changes@) == all,
            count_kind(all, ChangeKind::Insert) <= u32::MAX,
            count_kind(all, ChangeKind::Delete) <= u32::MAX,
            added == count_kind(all.subrange(0, i as int), ChangeKind::Insert),
            removed == count_kind(all.subrange(0, i as int), ChangeKind::Delete),
        decreases changes@.len() - i,
    {
        proof {
            let next = all.subrange(0, i + 1);
            assert(next.drop_last() =~= all.subrange(0, i as int));
            assert(next.last() == change_view(changes@[i as int]));
            lemma_count_kind_prefix(all, ChangeKind::Insert, i + 1);
            lemma_count_kind_prefix(all, ChangeKind::Delete, i + 1);
        }
        match changes[i].kind {
            ChangeKind::Insert => {
                added = added + 1;
            },
            ChangeKind::Delete => {
                removed = removed + 1;
            },
            ChangeKind::Equal => {},
        }
        i = i + 1;
    }
    assert(all.subrange(0, all.len() as int) =~= all);
    DiffStats { lines_added: added, lines_removed: removed }
}

/// Lines added and removed between two byte blobs (see
/// `compute_diff_stats`), or `None` when a count would not fit a `u32`.
pub fn diff_stats_checked(old: &[u8], new: &[u8]) -> (r: Option<DiffStats>)
    ensures
        r is Some <==> stats_fit(old@, new@),
        r matches Some(d) ==> d.lines_added == count_kind(
            line_diff(utf8_lossy(old@), utf8_lossy(new@)),
            ChangeKind::Insert,
        ) && d.lines_removed == count_kind(
            line_diff(utf8_lossy(old@), utf8_lossy(new@)),
            ChangeKind::Delete,
        ),
{
    let old_text = text_of_bytes(old);
    let new_text = text_of_bytes(new);
    let changes = diff_lines(old_text.as_str(), new_text.as_str());
    let ghost all = line_diff(old_text@, new_text@);
    assert(change_views(changes@) =~= all);
    let mut added: usize = 0;
    let mut removed: usize = 0;
    let mut i: usize = 0;
    while i < changes.len()
        invariant
            i <= changes@.len(),
            change_views(changes@) == all,
            added == count_kind(all.subrange(0, i as int), ChangeKind::Insert),
            removed == count_kind(all.subrange(0, i as int), ChangeKind::Delete),
            added <= i,
            removed <= i,
        decreases changes@.len() - i,
    {
        proof {
            let next = all.subrange(0, i + 1);
            assert(next.drop_last() =~= all.subrange(0, i as int));
            assert(next.last() == change_view(changes@[i as int]));
        }
        match changes[i].kind {
            ChangeKind::Insert => {
                added = added + 1;
            },
            ChangeKind::Delete => {
                removed = removed + 1;
            },
            ChangeKind::Equal => {},
        }
        i = i + 1;
    }
    assert(all.subrange(0, all.len() as int) =~= all);
    if added <= 4294967295 && removed <= 4294967295 {
        Some(compute_diff_stats(old, new))
    } else {
        None
    }
}

// ---------------------------------------------------------------------------
// Hunks with line numbers
// ---------------------------------------------------------------------------

/// One line of a hunk, with its line numbers.
#[derive(Clone, Debug)]
pub struct DiffHunkLine {
    /// `delete`, `insert` or `equal`.
    pub op: String,
    /// The line's text, ending in a newline.
    pub content: String,
    /// 1-based line number in the old version, if the line is there.
    pub old_num: Option<u32>,
    /// 1-based line number in the new version, if the line is there.
    pub new_num: Option<u32>,
}

/// A hunk with the ranges it covers.
#[derive(Clone, Debug)]
pub struct DiffHunk {
    pub old_start: u32,
    pub old_count: u32,
    pub new_start: u32,
    pub new_count: u32,
    pub lines: Vec<DiffHunkLine>,
}

/// The name of a change kind in reports.
pub open spec fn kind_name(k: ChangeKind) -> Seq<char> {
    match k {
        ChangeKind::Delete => "delete"@,
        ChangeKind::Insert => "insert"@,
        ChangeKind::Equal => "equal"@,
    }
}

/// The name of a change kind in reports: `delete`, `insert` or `equal`.
pub fn kind_label(k: ChangeKind) -> (r: &'static str)
    ensures
        r@ == kind_name(k),
{
    match k {
        ChangeKind::Delete => "delete",
        ChangeKind::Insert => "insert",
        ChangeKind::Equal => "equal",
    }
}

/// `s` ends with a line terminator (`\n` or `\r`).
pub open spec fn ends_with_newline(s: Seq<char>) -> bool {
    s.len() > 0 && (s.last() == '\n' || s.last() == '\r')
}

/// How a diff line is shown: its text, followed by a newline when it has
/// no line terminator of its own.
pub open spec fn shown_line(s: Seq<char>) -> Seq<char> {
    if ends_with_newline(s) {
        s
    } else {
        s.push('\n')
    }
}

/// Whether a text ends with a line terminator.
fn has_line_end(s: &str) -> (r: bool)
    ensures
        r == ends_with_newline(s@),
{
    let n = crate::text::char_len(s);
    if n == 0 {
        return false;
    }
    let c = vstd::string::StrSliceExecFns::get_char(s, n - 1);
    c == '\n' || c == '\r'
}

/// The shown form of a diff line's text.
pub fn shown_text(s: &str) -> (r: String)
    ensures
        r@ == shown_line(s@),
{
    let mut r = String::from_str(s);
    if !has_line_end(s) {
        crate::text::push_char(&mut r, '\n');
    }
    r
}

/// A 0-based index as a 1-based line number, wrapped to 32 bits as
/// `(i + 1) as u32` does.
pub open spec fn line_number(i: usize) -> u32 {
    ((i + 1) % 0x1_0000_0000) as u32
}

/// The line number of an optional index.
pub open spec fn line_number_of(i: Option<usize>) -> Option<u32> {
    match i {
        Some(k) => Some(line_number(k)),
        None => None,
    }
}

/// The 1-based line number of an optional 0-based index.
fn number_of(i: Option<usize>) -> (r: Option<u32>)
    ensures
        r == line_number_of(i),
{
    match i {
        Some(k) => Some((((k as u128) + 1) % 0x1_0000_0000u128) as u32),
        None => None,
    }
}

/// How many changes of `s` have a line on the old side (`old == true`) or
/// on the new side.
pub open spec fn count_side(s: Seq<(ChangeKind, Seq<char>, Option<usize>, Option<usize>)>, old: bool) -> int
    decreases s.len(),
{
    if s.len() == 0 {
        0
    } else {
        count_side(s.drop_last(), old) + (if (if old {
            s.last().2 is Some
        } else {
            s.last().3 is Some
        }) {
            1int
        } else {
            0int
        })
    }
}

/// Side counts never exceed the number of changes.
proof fn lemma_count_side_bound(s: Seq<(ChangeKind, Seq<char>, Option<usize>, Option<usize>)>, old: bool)
    ensures
        0 <= count_side(s, old) <= s.len(),
    decreases s.len(),
{
    if s.len() > 0 {
        lemma_count_side_bound(s.drop_last(), old);
    }
}

/// `h` reports the changes `cs` of one hunk: each line with its kind name,
/// shown text and line numbers; the ranges start at the first change's line
/// numbers (1 for a side it lacks, 0 for a hunk without changes) and count
/// the changes present on each side.
pub open spec fn reports_hunk(cs: Seq<(ChangeKind, Seq<char>, Option<usize>, Option<usize>)>, h: DiffHunk) -> bool {
    &&& h.lines@.len() == cs.len()
    &&& forall|j: int|
        0 <= j < cs.len() ==> {
            &&& (#[trigger] h.lines@[j]).op@ == kind_name(cs[j].0)
            &&& h.lines@[j].content@ == shown_line(cs[j].1)
            &&& h.lines@[j].old_num == line_number_of(cs[j].2)
            &&& h.lines@[j].new_num == line_number_of(cs[j].3)
        }
    &&& h.old_start == (if cs.len() == 0 {
        0
    } else {
        match cs[0].2 {
            Some(k) => line_number(k),
            None => 1,
        }
    })
    &&& h.new_start == (if cs.len() == 0 {
        0
    } else {
        match cs[0].3 {
            Some(k) => line_number(k),
            None => 1,
        }
    })
    &&& h.old_count == count_side(cs, true)
    &&& h.new_count == count_side(cs, false)
}

/// The report of one hunk's changes.
fn hunk_report(changes: &Vec<LineChange>) -> (r: DiffHunk)
    requires
        changes@.len() <= u32::MAX,
    ensures
        reports_hunk(change_views(changes@), r),
{
    let ghost cs = change_views(changes@);
    let mut lines: Vec<DiffHunkLine> = Vec::new();
    let mut old_start: u32 = 0;
    let mut new_start: u32 = 0;
    let mut old_count: u32 = 0;
    let mut new_count: u32 = 0;
    let mut j: usize = 0;
    while j < changes.len()
        invariant
            j <= changes@.len(),
            changes@.len() <= u32::MAX,
            cs == change_views(changes@),
            lines@.len() == j,
            forall|k: int|
                0 <= k < j ==> {
                    &&& (#[trigger] lines@[k]).op@ == kind_name(cs[k].0)
                    &&& lines@[k].content@ == shown_line(cs[k].1)
                    &&& lines@[k].old_num == line_number_of(cs[k].2)
                    &&& lines@[k].new_num == line_number_of(cs[k].3)
                },
            j == 0 ==> old_start == 0 && new_start == 0,
            j > 0 ==> old_start == (match cs[0].2 {
                Some(k) => line_number(k),
                None => 1,
            }) && new_start == (match cs[0].3 {
                Some(k) => line_number(k),
                None => 1,
            }),
            old_count == count_side(cs.subrange(0, j as int), true),
            new_count == count_side(cs.subrange(0, j as int), false),
        decreases changes@.len() - j,
    {
        let c = &changes[j];
        let old_num = number_of(c.old_index);
        let new_num = number_of(c.new_index);
        if j == 0 {
            old_start = match old_num {
                Some(n) => n,
                None => 1,
            };
            new_start = match new_num {
                Some(n) => n,
                None => 1,
            };
        }
        proof {
            let next = cs.subrange(0, j + 1);
            assert(next.drop_last() =~= cs.subrange(0, j as int));
            assert(next.last() == change_view(changes@[j as int]));
            lemma_count_side_bound(cs.subrange(0, j as int), true);
            lemma_count_side_bound(cs.subrange(0, j as int), false);
        }
        if old_num.is_some() {
            old_count = old_count + 1;
        }
        if new_num.is_some() {
            new_count = new_count + 1;
        }
        lines.push(
            DiffHunkLine {
                op: String::from_str(kind_label(c.kind)),
                content: shown_text(c.text.as_str()),
                old_num,
                new_num,
            },
        );
        j = j + 1;
    }
    assert(cs.subrange(0, cs.len() as int) =~= cs);
    DiffHunk { old_start, old_count, new_start, new_count, lines }
}

/// The hunks of a unified diff with line numbers and ranges, one report per
/// hunk (see `reports_hunk`).
pub fn generate_hunks(hunks: &Vec<RawHunk>) -> (r: Vec<DiffHunk>)
    requires
        forall|i: int| 0 <= i < hunks@.len() ==> (#[trigger] hunks@[i]).changes@.len() <= u32::MAX,
    ensures
        r@.len() == hunks@.len(),
        forall|i: int|
            0 <= i < hunks@.len() ==> reports_hunk(
                change_views(hunks@[i].changes@),
                #[trigger] r@[i],
            ),
{
    let mut out: Vec<DiffHunk> = Vec::new();
    let mut i: usize = 0;
    while i < hunks.len()
        invariant
            i <= hunks@.len(),
            forall|k: int| 0 <= k < hunks@.len() ==> (#[trigger] hunks@[k]).changes@.len() <= u32::MAX,
            out@.len() == i,
            forall|k: int|
                0 <= k < i ==> reports_hunk(change_views(hunks@[k].changes@), #[trigger] out@[k]),
        decreases hunks@.len() - i,
    {
        out.push(hunk_report(&hunks[i].changes));
        i = i + 1;
    }
    out
}

/// The hunks, with line numbers, of the unified diff of two texts.
pub fn hunks_between(old: &str, new: &str, radius: usize) -> (r: Vec<DiffHunk>)
    requires
        radius <= usize::MAX / 2,
        old@.len() + new@.len() <= u32::MAX,
    ensures
        r@.len() == unified_hunks(old@, new@, radius as int).len(),
        forall|i: int|
            0 <= i < r@.len() ==> reports_hunk(
                unified_hunks(old@, new@, radius as int)[i].1,
                #[trigger] r@[i],
            ),
{
    let raw = diff_hunks(old, new, radius);
    let r = generate_hunks(&raw);
    proof {
        assert forall|i: int| 0 <= i < r@.len() implies reports_hunk(
            unified_hunks(old@, new@, radius as int)[i].1,
            #[trigger] r@[i],
        ) by {
            assert(change_views(raw@[i].changes@) =~= unified_hunks(old@, new@, radius as int)[i].1);
        }
    }
    r
}

// ---------------------------------------------------------------------------
// Changed lines
// ---------------------------------------------------------------------------

/// One changed line, without line numbers.
#[derive(Clone, Debug)]
pub struct DiffLine {
    /// `delete` or `insert`.
    pub op: String,
    /// The line's text, ending in a newline.
    pub content: String,
}

/// The changed (non-equal) lines of `cs`, in order, as (kind name, shown text).
pub open spec fn changed_lines(cs: Seq<(ChangeKind, Seq<char>, Option<usize>, Option<usize>)>) -> Seq<(Seq<char>, Seq<char>)>
    decreases cs.len(),
{
    if cs.len() == 0 {
        Seq::empty()
    } else {
        let rest = changed_lines(cs.drop_last());
        if cs.last().0 == ChangeKind::Equal {
            rest
        } else {
            rest.push((kind_name(cs.last().0), shown_line(cs.last().1)))
        }
    }
}

/// `v` lists the changed lines `want`.
pub open spec fn lists_lines(v: Seq<DiffLine>, want: Seq<(Seq<char>, Seq<char>)>) -> bool {
    &&& v.len() == want.len()
    &&& forall|k: int| 0 <= k < v.len() ==> (#[trigger] v[k]).op@ == want[k].0 && v[k].content@ == want[k].1
}

/// The changed lines of the line diff of two texts.
pub fn changed_lines_between(old: &str, new: &str) -> (r: Vec<DiffLine>)
    ensures
        lists_lines(r@, changed_lines(line_diff(old@, new@))),
{
    let changes = diff_lines(old, new);
    let ghost all = line_diff(old@, new@);
    assert(change_views(changes@) =~= all);
    let mut out: Vec<DiffLine> = Vec::new();
    let mut i: usize = 0;
    while i < changes.len()
        invariant
            i <= changes@.len(),
            change_views(changes@) == all,
            lists_lines(out@, changed_lines(all.subrange(0, i as int))),
        decreases changes@.len() - i,
    {
        let c = &changes[i];
        proof {
            let next = all.subrange(0, i + 1);
            assert(next.drop_last() =~= all.subrange(0, i as int));
            assert(next.last() == change_view(changes@[i as int]));
        }
        match c.kind {
            ChangeKind::Equal => {},
            _ => {
                out.push(
                    DiffLine {
                        op: String::from_str(kind_label(c.kind)),
                        content: shown_text(c.text.as_str()),
                    },
                );
            },
        }
        i = i + 1;
    }
    assert(all.subrange(0, all.len() as int) =~= all);
    out
}

// ---------------------------------------------------------------------------
// Comparing the state of a project at two instants
// ---------------------------------------------------------------------------

/// How a file changed between two instants.
#[derive(Clone, Copy, Debug, PartialEq, Eq, Structural)]
pub enum FileChange {
    Created,
    Deleted,
    Modified,
}

/// The word a report shows for a file change.
pub open spec fn file_change_name(c: FileChange) -> Seq<char> {
    match c {
        FileChange::Created => "created"@,
        FileChange::Deleted => "deleted"@,
        FileChange::Modified => "modified"@,
    }
}

/// The word a report shows for a file change: `created`, `deleted` or `modified`.
pub fn file_change_label(c: FileChange) -> (r: &'static str)
    ensures
        r@ == file_change_name(c),
{
    match c {
        FileChange::Created => "created",
        FileChange::Deleted => "deleted",
        FileChange::Modified => "modified",
    }
}

/// No two snapshots of a state are of the same file.
pub open spec fn distinct_files(st: Seq<Snapshot>) -> bool {
    forall|i: int, j: int| 0 <= i < j < st.len() ==> st[i].file_path@ != st[j].file_path@
}

/// The snapshot of file `p` in a state, if the state has one.
pub open spec fn state_of(st: Seq<Snapshot>, p: Seq<char>) -> Option<Snapshot>
    decreases st.len(),
{
    if st.len() == 0 {
        None
    } else if st.last().file_path@ == p {
        Some(st.last())
    } else {
        state_of(st.drop_last(), p)
    }
}

/// How a file changed from its snapshot `f` at the first instant to its
/// snapshot `t` at the second (either may be absent), if it changed.
///
/// A file that appears, or comes back after a deletion, is created; one
/// that is deleted, or has no state any more, is deleted; one whose content
/// differs is modified.
pub open spec fn change_between(f: Option<Snapshot>, t: Option<Snapshot>) -> Option<FileChange> {
    match (f, t) {
        (None, Some(t)) => if t.event_type != EventType::Delete {
            Some(FileChange::Created)
        } else {
            None
        },
        (Some(f), Some(t)) => if f.event_type == EventType::Delete && t.event_type
            != EventType::Delete {
            Some(FileChange::Created)
        } else if f.event_type != EventType::Delete && t.event_type == EventType::Delete {
            Some(FileChange::Deleted)
        } else if f.content_hash.0@ != t.content_hash.0@ {
            Some(FileChange::Modified)
        } else {
            None
        },
        (Some(f), None) => if f.event_type != EventType::Delete {
            Some(FileChange::Deleted)
        } else {
            None
        },
        (None, None) => None,
    }
}

/// The change of file `p` between the states `from` and `to`.
pub open spec fn change_of(from: Seq<Snapshot>, to: Seq<Snapshot>, p: Seq<char>) -> Option<FileChange> {
    change_between(state_of(from, p), state_of(to, p))
}

/// One of the first `n` entries of state `st` is for file `p`.
pub open spec fn in_files(st: Seq<Snapshot>, n: int, p: Seq<char>) -> bool {
    exists|j: int| 0 <= j < n && st[j].file_path@ == p
}

/// Some entry of `v` is for file `p`.
pub open spec fn has_key(v: Seq<(String, FileChange)>, p: Seq<char>) -> bool {
    exists|i: int| 0 <= i < v.len() && v[i].0@ == p
}

/// The entries of `v` are in strictly ascending order of path.
pub open spec fn keys_ascending(v: Seq<(String, FileChange)>) -> bool {
    forall|i: int, j: int| 0 <= i < j < v.len() ==> lex_lt(v[i].0@, v[j].0@)
}

/// `r` is the report of the changes between the states `from` and `to`:
/// one entry per changed file, in ascending path order, each with its change.
pub open spec fn is_state_diff(from: Seq<Snapshot>, to: Seq<Snapshot>, r: Seq<(String, FileChange)>) -> bool {
    &&& keys_ascending(r)
    &&& forall|i: int| 0 <= i < r.len() ==> change_of(from, to, (#[trigger] r[i]).0@) == Some(r[i].1)
    &&& forall|p: Seq<char>| #[trigger] change_of(from, to, p) is Some ==> has_key(r, p)
}

/// In a state of distinct files, the snapshot of entry `i`'s file is entry `i`.
proof fn lemma_state_of_entry(st: Seq<Snapshot>, i: int)
    requires
        distinct_files(st),
        0 <= i < st.len(),
    ensures
        state_of(st, st[i].file_path@) == Some(st[i]),
    decreases st.len(),
{
    if i < st.len() - 1 {
        assert(st.drop_last()[i] == st[i]);
        lemma_state_of_entry(st.drop_last(), i);
    }
}

/// A file with a snapshot in a state is the file of one of its entries.
proof fn lemma_state_of_some(st: Seq<Snapshot>, p: Seq<char>)
    requires
        state_of(st, p) is Some,
    ensures
        exists|i: int| 0 <= i < st.len() && st[i].file_path@ == p,
    decreases st.len(),
{
    if st.last().file_path@ != p {
        lemma_state_of_some(st.drop_last(), p);
        let i = choose|i: int| 0 <= i < st.len() - 1 && st.drop_last()[i].file_path@ == p;
        assert(st[i] == st.drop_last()[i]);
    }
}

/// A file that no entry has has no snapshot in the state.
proof fn lemma_state_of_none(st: Seq<Snapshot>, p: Seq<char>)
    requires
        forall|i: int| 0 <= i < st.len() ==> st[i].file_path@ != p,
    ensures
        state_of(st, p) is None,
    decreases st.len(),
{
    if st.len() > 0 {
        lemma_state_of_none(st.drop_last(), p);
    }
}

/// A state diff reports file `p` with change `c`.
pub open spec fn reports_change(r: Seq<(String, FileChange)>, p: Seq<char>, c: FileChange) -> bool {
    exists|k: int| 0 <= k < r.len() && r[k].0@ == p && r[k].1 == c
}

/// A state diff reports nothing for file `p`.
pub open spec fn reports_nothing(r: Seq<(String, FileChange)>, p: Seq<char>) -> bool {
    forall|k: int| 0 <= k < r.len() ==> r[k].0@ != p
}

/// What a state diff says of a file recorded at both instants, entry `i`
/// of the first state and entry `j` of the second: deleted then present
/// again is created; present then deleted is deleted; present at both with
/// different content is modified; with the same deletion status and the
/// same content it is not reported.
pub proof fn lemma_state_diff_recorded_twice(
    from: Seq<Snapshot>,
    to: Seq<Snapshot>,
    r: Seq<(String, FileChange)>,
    i: int,
    j: int,
)
    requires
        distinct_files(from),
        distinct_files(to),
        is_state_diff(from, to, r),
        0 <= i < from.len(),
        0 <= j < to.len(),
        from[i].file_path@ == to[j].file_path@,
    ensures
        from[i].event_type == EventType::Delete && to[j].event_type != EventType::Delete
            ==> reports_change(r, to[j].file_path@, FileChange::Created),
        from[i].event_type != EventType::Delete && to[j].event_type == EventType::Delete
            ==> reports_change(r, to[j].file_path@, FileChange::Deleted),
        from[i].event_type != EventType::Delete && to[j].event_type != EventType::Delete
            && from[i].content_hash.0@ != to[j].content_hash.0@ ==> reports_change(
            r,
            to[j].file_path@,
            FileChange::Modified,
        ),
        (from[i].event_type == EventType::Delete) == (to[j].event_type == EventType::Delete)
            && from[i].content_hash.0@ == to[j].content_hash.0@ ==> reports_nothing(
            r,
            to[j].file_path@,
        ),
{
    let p = to[j].file_path@;
    lemma_state_of_entry(from, i);
    lemma_state_of_entry(to, j);
    let c = change_of(from, to, p);
    if c is Some {
        assert(has_key(r, p));
        let k = choose|k: int| 0 <= k < r.len() && r[k].0@ == p;
        assert(change_of(from, to, r[k].0@) == Some(r[k].1));
    } else {
        assert forall|k: int| 0 <= k < r.len() implies r[k].0@ != p by {
            if r[k].0@ == p {
                assert(change_of(from, to, r[k].0@) == Some(r[k].1));
            }
        }
    }
}

/// What a state diff says of a file recorded only at the second instant,
/// entry `j`: created unless recorded as deleted, then not reported.
pub proof fn lemma_state_diff_new_file(
    from: Seq<Snapshot>,
    to: Seq<Snapshot>,
    r: Seq<(String, FileChange)>,
    j: int,
)
    requires
        distinct_files(to),
        is_state_diff(from, to, r),
        0 <= j < to.len(),
        forall|i: int| 0 <= i < from.len() ==> from[i].file_path@ != to[j].file_path@,
    ensures
        to[j].event_type != EventType::Delete ==> reports_change(
            r,
            to[j].file_path@,
            FileChange::Created,
        ),
        to[j].event_type == EventType::Delete ==> reports_nothing(r, to[j].file_path@),
{
    let p = to[j].file_path@;
    lemma_state_of_none(from, p);
    lemma_state_of_entry(to, j);
    if change_of(from, to, p) is Some {
        assert(has_key(r, p));
        let k = choose|k: int| 0 <= k < r.len() && r[k].0@ == p;
        assert(change_of(from, to, r[k].0@) == Some(r[k].1));
    } else {
        assert forall|k: int| 0 <= k < r.len() implies r[k].0@ != p by {
            if r[k].0@ == p {
                assert(change_of(from, to, r[k].0@) == Some(r[k].1));
            }
        }
    }
}

/// What a state diff says of a file recorded only at the first instant,
/// entry `i`: deleted unless already recorded as deleted, then not
/// reported.
pub proof fn lemma_state_diff_gone_file(
    from: Seq<Snapshot>,
    to: Seq<Snapshot>,
    r: Seq<(String, FileChange)>,
    i: int,
)
    requires
        distinct_files(from),
        is_state_diff(from, to, r),
        0 <= i < from.len(),
        forall|j: int| 0 <= j < to.len() ==> to[j].file_path@ != from[i].file_path@,
    ensures
        from[i].event_type != EventType::Delete ==> reports_change(
            r,
            from[i].file_path@,
            FileChange::Deleted,
        ),
        from[i].event_type == EventType::Delete ==> reports_nothing(r, from[i].file_path@),
{
    let p = from[i].file_path@;
    lemma_state_of_none(to, p);
    lemma_state_of_entry(from, i);
    if change_of(from, to, p) is Some {
        assert(has_key(r, p));
        let k = choose|k: int| 0 <= k < r.len() && r[k].0@ == p;
        assert(change_of(from, to, r[k].0@) == Some(r[k].1));
    } else {
        assert forall|k: int| 0 <= k < r.len() implies r[k].0@ != p by {
            if r[k].0@ == p {
                assert(change_of(from, to, r[k].0@) == Some(r[k].1));
            }
        }
    }
}

/// Index of the entry for file `p`, if any.
fn find_file(st: &[Snapshot], p: &str) -> (r: Option<usize>)
    ensures
        match r {
            Some(i) => i < st@.len() && st@[i as int].file_path@ == p@,
            None => forall|i: int| 0 <= i < st@.len() ==> st@[i].file_path@ != p@,
        },
{
    let mut i: usize = 0;
    while i < st.len()
        invariant
            i <= st@.len(),
            forall|k: int| 0 <= k < i ==> st@[k].file_path@ != p@,
        decreases st@.len() - i,
    {
        if str_eq(st[i].file_path.as_str(), p) {
            return Some(i);
        }
        i = i + 1;
    }
    None
}

/// Adds an entry for a file not yet in the report, keeping path order.
fn insert_change(v: &mut Vec<(String, FileChange)>, p: String, c: FileChange)
    requires
        keys_ascending(old(v)@),
        !has_key(old(v)@, p@),
    ensures
        keys_ascending(final(v)@),
        has_key(final(v)@, p@),
        forall|q: Seq<char>| has_key(old(v)@, q) ==> #[trigger] has_key(final(v)@, q),
        forall|i: int|
            0 <= i < final(v)@.len() ==> (#[trigger] final(v)@[i]) == (p, c) || exists|k: int|
                0 <= k < old(v)@.len() && old(v)@[k] == final(v)@[i],
{
    let ghost old_v = v@;
    let mut j: usize = 0;
    while j < v.len() && str_lt(v[j].0.as_str(), p.as_str())
        invariant
            j <= v@.len(),
            v@ == old_v,
            forall|k: int| 0 <= k < j ==> lex_lt(#[trigger] v@[k].0@, p@),
        decreases v@.len() - j,
    {
        j = j + 1;
    }
    proof {
        if j < v@.len() {
            assert(v@[j as int].0@ != p@);
            lemma_lex_total(v@[j as int].0@, p@);
        }
        assert forall|k: int| j <= k < old_v.len() implies lex_lt(p@, #[trigger] old_v[k].0@) by {
            if k > j {
                lemma_lex_transitive(p@, old_v[j as int].0@, old_v[k].0@);
            }
        }
    }
    v.insert(j, (p, c));
    proof {
        let nv = v@;
        assert(nv =~= old_v.insert(j as int, (p, c)));
        assert forall|a: int, b: int| 0 <= a < b < nv.len() implies lex_lt(nv[a].0@, nv[b].0@) by {
            if b < j {
            } else if b == j {
                assert(nv[a] == old_v[a]);
            } else if a < j {
                lemma_lex_transitive(nv[a].0@, p@, nv[b].0@);
            } else if a == j {
            } else {
                assert(nv[a] == old_v[a - 1] && nv[b] == old_v[b - 1]);
            }
        }
        assert(nv[j as int].0@ == p@);
        assert forall|q: Seq<char>| has_key(old_v, q) implies #[trigger] has_key(nv, q) by {
            let k = choose|k: int| 0 <= k < old_v.len() && old_v[k].0@ == q;
            if k < j {
                assert(nv[k] == old_v[k]);
            } else {
                assert(nv[k + 1] == old_v[k]);
            }
        }
        assert forall|i: int| 0 <= i < nv.len() implies (#[trigger] nv[i]) == (p, c) || exists|k: int|
            0 <= k < old_v.len() && old_v[k] == nv[i] by {
            if i < j {
                assert(old_v[i] == nv[i]);
            } else if i > j {
                assert(old_v[i - 1] == nv[i]);
            }
        }
    }
}

/// The files that changed between two states of a project (each state one
/// snapshot per file), in ascending path order, each with how it changed
/// (see `change_between`).
pub fn compute_state_diff(from_state: &[Snapshot], to_state: &[Snapshot]) -> (r: Vec<(String, FileChange)>)
    requires
        distinct_files(from_state@),
        distinct_files(to_state@),
    ensures
        is_state_diff(from_state@, to_state@, r@),
        forall|i: int, j: int|
            0 <= i < from_state@.len() && 0 <= j < to_state@.len() && (#[trigger] from_state@[i]).file_path@
                == (#[trigger] to_state@[j]).file_path@ ==> {
                &&& from_state@[i].event_type == EventType::Delete && to_state@[j].event_type
                    != EventType::Delete ==> reports_change(
                    r@,
                    to_state@[j].file_path@,
                    FileChange::Created,
                )
                &&& from_state@[i].event_type != EventType::Delete && to_state@[j].event_type
                    == EventType::Delete ==> reports_change(
                    r@,
                    to_state@[j].file_path@,
                    FileChange::Deleted,
                )
                &&& from_state@[i].event_type != EventType::Delete && to_state@[j].event_type
                    != EventType::Delete && from_state@[i].content_hash.0@
                    != to_state@[j].content_hash.0@ ==> reports_change(
                    r@,
                    to_state@[j].file_path@,
                    FileChange::Modified,
                )
            },
{
    let ghost from = from_state@;
    let ghost to = to_state@;
    let mut out: Vec<(String, FileChange)> = Vec::new();
    let mut k: usize = 0;
    while k < to_state.len()
        invariant
            from == from_state@,
            to == to_state@,
            distinct_files(from),
            distinct_files(to),
            k <= to.len(),
            keys_ascending(out@),
            forall|i: int| 0 <= i < out@.len() ==> change_of(from, to, (#[trigger] out@[i]).0@) == Some(out@[i].1),
            forall|i: int| 0 <= i < out@.len() ==> in_files(to, k as int, (#[trigger] out@[i]).0@),
            forall|j: int| 0 <= j < k ==> (change_of(from, to, #[trigger] to[j].file_path@) is Some ==> has_key(out@, to[j].file_path@)),
        decreases to.len() - k,
    {
        let t = &to_state[k];
        let ghost p = t.file_path@;
        proof {
            lemma_state_of_entry(to, k as int);
        }
        let change: Option<FileChange> = match find_file(from_state, t.file_path.as_str()) {
            None => {
                proof {
                    lemma_state_of_none(from, p);
                }
                match t.event_type {
                    EventType::Delete => None,
                    _ => Some(FileChange::Created),
                }
            },
            Some(i) => {
                let f = &from_state[i];
                proof {
                    lemma_state_of_entry(from, i as int);
                }
                let f_del = match f.event_type {
                    EventType::Delete => true,
                    _ => false,
                };
                let t_del = match t.event_type {
                    EventType::Delete => true,
                    _ => false,
                };
                if f_del && !t_del {
                    Some(FileChange::Created)
                } else if !f_del && t_del {
                    Some(FileChange::Deleted)
                } else if !str_eq(f.content_hash.0.as_str(), t.content_hash.0.as_str()) {
                    Some(FileChange::Modified)
                } else {
                    None
                }
            },
        };
        assert(change == change_of(from, to, p));
        let ghost before = out@;
        match change {
            Some(c) => {
                proof {
                    if has_key(before, p) {
                        let i = choose|i: int| 0 <= i < before.len() && before[i].0@ == p;
                        assert(in_files(to, k as int, before[i].0@));
                        let j = choose|j: int| 0 <= j < k && to[j].file_path@ == before[i].0@;
                        assert(to[j].file_path@ == to[k as int].file_path@);
                    }
                }
                insert_change(&mut out, t.file_path.clone(), c);
                proof {
                    assert forall|i: int| 0 <= i < out@.len() implies in_files(to, k + 1, (#[trigger] out@[i]).0@) by {
                        if out@[i] != (t.file_path, c) {
                            let m = choose|m: int| 0 <= m < before.len() && before[m] == out@[i];
                            assert(in_files(to, k as int, before[m].0@));
                        } else {
                            assert(to[k as int].file_path@ == out@[i].0@);
                        }
                    }
                    assert forall|i: int| 0 <= i < out@.len() implies change_of(from, to, (#[trigger] out@[i]).0@) == Some(out@[i].1) by {
                        if out@[i] != (t.file_path, c) {
                            let m = choose|m: int| 0 <= m < before.len() && before[m] == out@[i];
                            assert(change_of(from, to, before[m].0@) == Some(before[m].1));
                        }
                    }
                    assert forall|j: int| 0 <= j < k + 1 implies (change_of(from, to, #[trigger] to[j].file_path@) is Some ==> has_key(out@, to[j].file_path@)) by {
                        if j < k && change_of(from, to, to[j].file_path@) is Some {
                            assert(has_key(before, to[j].file_path@));
                        }
                    }
                }
            },
            None => {},
        }
        k = k + 1;
    }
    let mut k: usize = 0;
    while k < from_state.len()
        invariant
            from == from_state@,
            to == to_state@,
            distinct_files(from),
            distinct_files(to),
            k <= from.len(),
            keys_ascending(out@),
            forall|i: int| 0 <= i < out@.len() ==> change_of(from, to, (#[trigger] out@[i]).0@) == Some(out@[i].1),
            forall|i: int| 0 <= i < out@.len() ==> in_files(to, to.len() as int, (#[trigger] out@[i]).0@)
                || in_files(from, k as int, out@[i].0@),
            forall|j: int| 0 <= j < to.len() ==> (change_of(from, to, #[trigger] to[j].file_path@) is Some ==> has_key(out@, to[j].file_path@)),
            forall|j: int| 0 <= j < k ==> (change_of(from, to, #[trigger] from[j].file_path@) is Some ==> has_key(out@, from[j].file_path@)),
        decreases from.len() - k,
    {
        let f = &from_state[k];
        let ghost p = f.file_path@;
        proof {
            lemma_state_of_entry(from, k as int);
        }
        let ghost before = out@;
        match find_file(to_state, f.file_path.as_str()) {
            Some(i) => {
                proof {
                    assert(to[i as int].file_path@ == p);
                }
            },
            None => {
                proof {
                    lemma_state_of_none(to, p);
                }
                let deleted = match f.event_type {
                    EventType::Delete => true,
                    _ => false,
                };
                if !deleted {
                    proof {
                        if has_key(before, p) {
                            let i = choose|i: int| 0 <= i < before.len() && before[i].0@ == p;
                            if in_files(to, to.len() as int, before[i].0@) {
                                let j = choose|j: int| 0 <= j < to.len() && to[j].file_path@ == before[i].0@;
                                assert(to[j].file_path@ == p);
                            } else {
                                assert(in_files(from, k as int, before[i].0@));
                                let j = choose|j: int| 0 <= j < k && from[j].file_path@ == before[i].0@;
                                assert(from[j].file_path@ == from[k as int].file_path@);
                            }
                        }
                    }
                    insert_change(&mut out, f.file_path.clone(), FileChange::Deleted);
                    proof {
                        assert forall|i: int| 0 <= i < out@.len() implies in_files(to, to.len() as int, (#[trigger] out@[i]).0@)
                            || in_files(from, k + 1, out@[i].0@) by {
                            if out@[i] != (f.file_path, FileChange::Deleted) {
                                let m = choose|m: int| 0 <= m < before.len() && before[m] == out@[i];
                                if !in_files(to, to.len() as int, before[m].0@) {
                                    assert(in_files(from, k as int, before[m].0@));
                                }
                            } else {
                                assert(from[k as int].file_path@ == out@[i].0@);
                            }
                        }
                        assert forall|i: int| 0 <= i < out@.len() implies change_of(from, to, (#[trigger] out@[i]).0@) == Some(out@[i].1) by {
                            if out@[i] != (f.file_path, FileChange::Deleted) {
                                let m = choose|m: int| 0 <= m < before.len() && before[m] == out@[i];
                                assert(change_of(from, to, before[m].0@) == Some(before[m].1));
                            }
                        }
                        assert forall|j: int| 0 <= j < to.len() implies (change_of(from, to, #[trigger] to[j].file_path@) is Some ==> has_key(out@, to[j].file_path@)) by {
                            if change_of(from, to, to[j].file_path@) is Some {
                                assert(has_key(before, to[j].file_path@));
                            }
                        }
                        assert forall|j: int| 0 <= j < k + 1 implies (change_of(from, to, #[trigger] from[j].file_path@) is Some ==> has_key(out@, from[j].file_path@)) by {
                            if j < k && change_of(from, to, from[j].file_path@) is Some {
                                assert(has_key(before, from[j].file_path@));
                            }
                        }
                    }
                }
            },
        }
        k = k + 1;
    }
    proof {
        assert forall|p: Seq<char>| #[trigger] change_of(from, to, p) is Some implies has_key(out@, p) by {
            if state_of(to, p) is Some {
                lemma_state_of_some(to, p);
                let j = choose|j: int| 0 <= j < to.len() && to[j].file_path@ == p;
                assert(change_of(from, to, to[j].file_path@) is Some);
            } else {
                lemma_state_of_some(from, p);
                let j = choose|j: int| 0 <= j < from.len() && from[j].file_path@ == p;
                assert(change_of(from, to, from[j].file_path@) is Some);
            }
        }
        assert forall|i: int, j: int|
            0 <= i < from.len() && 0 <= j < to.len() && (#[trigger] from[i]).file_path@ == (
            #[trigger] to[j]).file_path@ implies {
            &&& from[i].event_type == EventType::Delete && to[j].event_type != EventType::Delete
                ==> reports_change(out@, to[j].file_path@, FileChange::Created)
            &&& from[i].event_type != EventType::Delete && to[j].event_type == EventType::Delete
                ==> reports_change(out@, to[j].file_path@, FileChange::Deleted)
            &&& from[i].event_type != EventType::Delete && to[j].event_type != EventType::Delete
                && from[i].content_hash.0@ != to[j].content_hash.0@ ==> reports_change(
                out@,
                to[j].file_path@,
                FileChange::Modified,
            )
        } by {
            lemma_state_diff_recorded_twice(from, to, out@, i, j);
        }
    }
    out
}

// ---------------------------------------------------------------------------
// What the diff command reports
// ---------------------------------------------------------------------------

/// How the diff command was asked to compare.
#[derive(Clone, Debug, PartialEq, Eq)]
pub enum DiffMode {
    /// A snapshot against the previous snapshot of its file.
    Snapshot(i64),
    /// The project now against its state at a point in time.
    SinglePoint(String),
    /// The project's states at two points in time (the second defaults to now).
    TwoPoint(String, Option<String>),
}

/// The message when both single-point and two-point options are given.
pub const AT_WITH_FROM_MESSAGE: &'static str =
    "Cannot use --at with --from/--to. Use --at for single-point diff or --from/--to for two-point diff.";

/// The message when no comparison is asked for.
pub const NO_MODE_MESSAGE: &'static str = "Either --at, --from, or --snapshot is required.";

/// Decides the comparison from the command's options: a snapshot id wins;
/// otherwise exactly one of `at` and `from` must be given.
pub fn diff_mode(at: Option<&str>, from: Option<&str>, to: Option<&str>, snapshot: Option<i64>) -> (r: Result<DiffMode, UnfError>)
    ensures
        snapshot matches Some(id) ==> r == Ok::<DiffMode, UnfError>(DiffMode::Snapshot(id)),
        snapshot is None && at is Some && from is Some ==> (r matches Err(e) && e is InvalidArgument
            && e.spec_message() == AT_WITH_FROM_MESSAGE@),
        snapshot is None && at is None && from is None ==> (r matches Err(e) && e is InvalidArgument
            && e.spec_message() == NO_MODE_MESSAGE@),
        snapshot is None && at is Some && from is None ==> (r matches Ok(DiffMode::SinglePoint(x)) && x@ == at->0@),
        snapshot is None && at is None && from is Some ==> (r matches Ok(DiffMode::TwoPoint(x, y))
            && x@ == from->0@ && (match to {
                Some(t) => y matches Some(z) && z@ == t@,
                None => y is None,
            })),
{
    if let Some(id) = snapshot {
        return Ok(DiffMode::Snapshot(id));
    }
    match (at, from) {
        (Some(_), Some(_)) => Err(UnfError::InvalidArgument(String::from_str(AT_WITH_FROM_MESSAGE))),
        (None, None) => Err(UnfError::InvalidArgument(String::from_str(NO_MODE_MESSAGE))),
        (Some(a), None) => Ok(DiffMode::SinglePoint(String::from_str(a))),
        (None, Some(f)) => {
            let t = match to {
                Some(t) => Some(String::from_str(t)),
                None => None,
            };
            Ok(DiffMode::TwoPoint(String::from_str(f), t))
        },
    }
}

/// One file of a diff report.
#[derive(Clone, Debug)]
pub struct DiffChange {
    pub file: String,
    /// `created`, `deleted` or `modified`.
    pub status: String,
    /// The changed lines, when reported.
    pub diff: Option<Vec<DiffLine>>,
    /// The hunks with line numbers, when reported.
    pub hunks: Option<Vec<DiffHunk>>,
}

/// A diff report.
#[derive(Clone, Debug)]
pub struct DiffOutput {
    /// RFC 3339 text of the first instant (empty when there is none).
    pub from: String,
    /// RFC 3339 text of the second instant.
    pub to: String,
    pub changes: Vec<DiffChange>,
}

/// Whether a file's content is read for a diff: it has a snapshot that is
/// not a deletion.
pub open spec fn content_read(s: Option<Snapshot>) -> bool {
    s matches Some(x) && x.event_type != EventType::Delete
}

/// The snapshot a `diff --snapshot` shows, from what the store answered for
/// its id: a store failure or a missing snapshot is an invalid argument.
pub fn snapshot_for_diff(lookup: Result<Option<Snapshot>, String>, snapshot_id: i64) -> (r: Result<
    Snapshot,
    UnfError,
>)
    ensures
        match lookup {
            Err(e) => r matches Err(x) && x is InvalidArgument && x.spec_message()
                == "Failed to load snapshot: "@ + e@,
            Ok(None) => r matches Err(x) && x is InvalidArgument && x.spec_message() == "Snapshot "@
                + decimal_signed(snapshot_id as int) + " not found"@,
            Ok(Some(s)) => r == Ok::<Snapshot, UnfError>(s),
        },
{
    match lookup {
        Err(e) => {
            let mut msg = String::from_str("Failed to load snapshot: ");
            push_str(&mut msg, e.as_str());
            Err(UnfError::InvalidArgument(msg))
        },
        Ok(None) => {
            let mut msg = String::from_str("Snapshot ");
            push_signed(&mut msg, snapshot_id);
            push_str(&mut msg, " not found");
            Err(UnfError::InvalidArgument(msg))
        },
        Ok(Some(s)) => Ok(s),
    }
}

/// Whether a file's content is read for a diff.
pub fn needs_content(s: Option<&Snapshot>) -> (r: bool)
    ensures
        r == content_read(match s {
            Some(x) => Some(*x),
            None => None,
        }),
{
    match s {
        Some(x) => match x.event_type {
            EventType::Delete => false,
            _ => true,
        },
        None => false,
    }
}

/// A snapshot records no change when the previous snapshot of its file has
/// the same content hash.
pub open spec fn snapshot_unchanged(prev: Option<Snapshot>, snap: Snapshot) -> bool {
    prev matches Some(p) && p.content_hash.0@ == snap.content_hash.0@
}

/// The word a report shows for a snapshot's event.
pub open spec fn event_status(e: EventType) -> Seq<char> {
    match e {
        EventType::Create => "created"@,
        EventType::Delete => "deleted"@,
        EventType::Modify => "modified"@,
    }
}

/// The diff report of a snapshot against the previous snapshot of its
/// file, given both contents as text (empty for a side without content).
///
/// Without a change of content the report lists no file; otherwise it
/// lists the snapshot's file with its changed lines and hunks (each left
/// out when empty).
pub fn snapshot_diff_output(
    prev: Option<&Snapshot>,
    snap: &Snapshot,
    old_text: &str,
    new_text: &str,
    radius: usize,
) -> (r: DiffOutput)
    requires
        radius <= usize::MAX / 2,
        old_text@.len() + new_text@.len() <= u32::MAX,
    ensures
        ({
            let p = match prev {
                Some(x) => Some(*x),
                None => None,
            };
            &&& r.to@ == rfc3339_text(snap.timestamp as int)
            &&& r.from@ == (match p {
                Some(x) => rfc3339_text(x.timestamp as int),
                None => Seq::empty(),
            })
            &&& snapshot_unchanged(p, *snap) ==> r.changes@.len() == 0
            &&& !snapshot_unchanged(p, *snap) ==> {
                &&& r.changes@.len() == 1
                &&& r.changes@[0].file@ == snap.file_path@
                &&& r.changes@[0].status@ == event_status(snap.event_type)
                &&& (changed_lines(line_diff(old_text@, new_text@)).len() == 0 <==> r.changes@[0].diff is None)
                &&& (r.changes@[0].diff matches Some(d) ==> lists_lines(d@, changed_lines(line_diff(old_text@, new_text@))))
                &&& (unified_hunks(old_text@, new_text@, radius as int).len() == 0 <==> r.changes@[0].hunks is None)
                &&& (r.changes@[0].hunks matches Some(h) ==> h@.len() == unified_hunks(old_text@, new_text@, radius as int).len()
                    && forall|i: int| 0 <= i < h@.len() ==> reports_hunk(unified_hunks(old_text@, new_text@, radius as int)[i].1, #[trigger] h@[i]))
            }
        }),
{
    let to = rfc3339_of(snap.timestamp);
    let from = match prev {
        Some(p) => rfc3339_of(p.timestamp),
        None => String::new(),
    };
    let unchanged = match prev {
        Some(p) => str_eq(p.content_hash.0.as_str(), snap.content_hash.0.as_str()),
        None => false,
    };
    if unchanged {
        return DiffOutput { from, to, changes: Vec::new() };
    }
    let lines = changed_lines_between(old_text, new_text);
    let hunks = hunks_between(old_text, new_text, radius);
    let status = match snap.event_type {
        EventType::Create => "created",
        EventType::Delete => "deleted",
        EventType::Modify => "modified",
    };
    let diff = if lines.len() == 0 {
        None
    } else {
        Some(lines)
    };
    let hunks = if hunks.len() == 0 {
        None
    } else {
        Some(hunks)
    };
    let mut changes: Vec<DiffChange> = Vec::new();
    changes.push(DiffChange { file: snap.file_path.clone(), status: String::from_str(status), diff, hunks });
    DiffOutput { from, to, changes }
}

/// The colored form of one line change: `-` in red, `+` in green, a space
/// for an unchanged line; an extra newline after a line without its own.
pub open spec fn colored_change(c: (ChangeKind, Seq<char>, Option<usize>, Option<usize>)) -> Seq<char> {
    let body = match c.0 {
        ChangeKind::Delete => RED@ + "-"@ + shown_line(c.1) + RESET@,
        ChangeKind::Insert => GREEN@ + "+"@ + shown_line(c.1) + RESET@,
        ChangeKind::Equal => " "@ + shown_line(c.1),
    };
    if ends_with_newline(c.1) {
        body
    } else {
        body + "\n"@
    }
}

/// The colored form of a hunk's changes, in order.
pub open spec fn colored_changes(cs: Seq<(ChangeKind, Seq<char>, Option<usize>, Option<usize>)>) -> Seq<char>
    decreases cs.len(),
{
    if cs.len() == 0 {
        Seq::empty()
    } else {
        colored_changes(cs.drop_last()) + colored_change(cs.last())
    }
}

/// The colored form of hunks: each cyan header (not ended by a newline)
/// followed by its colored changes.
pub open spec fn colored_hunks(hs: Seq<(Seq<char>, Seq<(ChangeKind, Seq<char>, Option<usize>, Option<usize>)>, Seq<char>)>) -> Seq<char>
    decreases hs.len(),
{
    if hs.len() == 0 {
        Seq::empty()
    } else {
        colored_hunks(hs.drop_last()) + CYAN@ + hs.last().0 + RESET@ + colored_changes(hs.last().1)
    }
}

/// The plain unified form of hunks: their texts, in order.
pub open spec fn plain_hunks(hs: Seq<(Seq<char>, Seq<(ChangeKind, Seq<char>, Option<usize>, Option<usize>)>, Seq<char>)>) -> Seq<char>
    decreases hs.len(),
{
    if hs.len() == 0 {
        Seq::empty()
    } else {
        plain_hunks(hs.drop_last()) + hs.last().2
    }
}

/// The `--- a/PATH` and `+++ b/PATH` lines, bold when colored.
pub open spec fn file_headers(path: Seq<char>, colored: bool) -> Seq<char> {
    if colored {
        BOLD@ + "--- a/"@ + path + RESET@ + "\n"@ + BOLD@ + "+++ b/"@ + path + RESET@ + "\n"@
    } else {
        "--- a/"@ + path + "\n"@ + "+++ b/"@ + path + "\n"@
    }
}

/// The views of raw hunks.
pub open spec fn hunk_views(v: Seq<RawHunk>) -> Seq<(Seq<char>, Seq<(ChangeKind, Seq<char>, Option<usize>, Option<usize>)>, Seq<char>)> {
    Seq::new(v.len(), |i: int| (v[i].header@, change_views(v[i].changes@), v[i].text@))
}

/// Appends the colored form of a hunk's changes.
fn push_colored_changes(out: &mut String, changes: &Vec<LineChange>)
    ensures
        final(out)@ == old(out)@ + colored_changes(change_views(changes@)),
{
    let ghost cs = change_views(changes@);
    let ghost start = out@;
    let mut j: usize = 0;
    while j < changes.len()
        invariant
            j <= changes@.len(),
            cs == change_views(changes@),
            out@ == start + colored_changes(cs.subrange(0, j as int)),
        decreases changes@.len() - j,
    {
        let c = &changes[j];
        let shown = shown_text(c.text.as_str());
        let ghost before = out@;
        match c.kind {
            ChangeKind::Delete => {
                push_str(out, RED);
                push_str(out, "-");
                push_str(out, shown.as_str());
                push_str(out, RESET);
            },
            ChangeKind::Insert => {
                push_str(out, GREEN);
                push_str(out, "+");
                push_str(out, shown.as_str());
                push_str(out, RESET);
            },
            ChangeKind::Equal => {
                push_str(out, " ");
                push_str(out, shown.as_str());
            },
        }
        if !has_line_end(c.text.as_str()) {
            push_str(out, "\n");
        }
        proof {
            let next = cs.subrange(0, j + 1);
            assert(next.drop_last() =~= cs.subrange(0, j as int));
            assert(next.last() == change_view(changes@[j as int]));
            assert(out@ =~= before + colored_change(next.last()));
        }
        j = j + 1;
    }
    assert(cs.subrange(0, cs.len() as int) =~= cs);
}

/// The text showing the diff of one file: its `---`/`+++` headers, then
/// its hunks, colored or in plain unified form. In plain form nothing is
/// shown when there is no hunk (`headers_always` keeps the headers then).
pub fn file_diff_text(path: &str, old_text: &str, new_text: &str, radius: usize, colored: bool, headers_always: bool) -> (r: String)
    requires
        radius <= usize::MAX / 2,
    ensures
        ({
            let hs = unified_hunks(old_text@, new_text@, radius as int);
            if colored {
                r@ == file_headers(path@, true) + colored_hunks(hs)
            } else if hs.len() == 0 && !headers_always {
                r@ == Seq::<char>::empty()
            } else {
                r@ == file_headers(path@, false) + plain_hunks(hs)
            }
        }),
{
    let raw = diff_hunks(old_text, new_text, radius);
    let ghost hs = unified_hunks(old_text@, new_text@, radius as int);
    proof {
        assert forall|i: int| 0 <= i < raw@.len() implies change_views(#[trigger] raw@[i].changes@) =~= hs[i].1 by {}
        assert(hunk_views(raw@) =~= hs);
    }
    let mut r = String::new();
    if !colored && raw.len() == 0 && !headers_always {
        return r;
    }
    if colored {
        push_str(&mut r, BOLD);
        push_str(&mut r, "--- a/");
        push_str(&mut r, path);
        push_str(&mut r, RESET);
        push_str(&mut r, "\n");
        push_str(&mut r, BOLD);
        push_str(&mut r, "+++ b/");
        push_str(&mut r, path);
        push_str(&mut r, RESET);
        push_str(&mut r, "\n");
    } else {
        push_str(&mut r, "--- a/");
        push_str(&mut r, path);
        push_str(&mut r, "\n");
        push_str(&mut r, "+++ b/");
        push_str(&mut r, path);
        push_str(&mut r, "\n");
    }
    let ghost head = r@;
    assert(head =~= file_headers(path@, colored));
    let mut i: usize = 0;
    while i < raw.len()
        invariant
            i <= raw@.len(),
            hunk_views(raw@) == hs,
            colored ==> r@ == head + colored_hunks(hs.subrange(0, i as int)),
            !colored ==> r@ == head + plain_hunks(hs.subrange(0, i as int)),
        decreases raw@.len() - i,
    {
        let h = &raw[i];
        let ghost before = r@;
        if colored {
            push_str(&mut r, CYAN);
            push_str(&mut r, h.header.as_str());
            push_str(&mut r, RESET);
            push_colored_changes(&mut r, &h.changes);
        } else {
            push_str(&mut r, h.text.as_str());
        }
        proof {
            let next = hs.subrange(0, i + 1);
            assert(next.drop_last() =~= hs.subrange(0, i as int));
            assert(next.last() == hs[i as int]);
            assert(hs[i as int] == (h.header@, change_views(h.changes@), h.text@));
            if colored {
                assert(r@ =~= head + colored_hunks(next));
            } else {
                assert(r@ =~= head + plain_hunks(next));
            }
        }
        i = i + 1;
    }
    assert(hs.subrange(0, hs.len() as int) =~= hs);
    r
}

/// The message for a snapshot that changes nothing.
pub open spec fn no_snapshot_change_text(id: int, path: Seq<char>) -> Seq<char> {
    "No changes in snapshot "@ + decimal_signed(id) + " for "@ + path + "\n"@
}

/// What the diff command prints for a snapshot against the previous
/// snapshot of its file, given both contents as text: a notice when the
/// content did not change or no line changed, else the file's diff.
pub fn snapshot_diff_text(
    snapshot_id: i64,
    prev: Option<&Snapshot>,
    snap: &Snapshot,
    old_text: &str,
    new_text: &str,
    radius: usize,
    colored: bool,
) -> (r: String)
    requires
        radius <= usize::MAX / 2,
    ensures
        ({
            let p = match prev {
                Some(x) => Some(*x),
                None => None,
            };
            let hs = unified_hunks(old_text@, new_text@, radius as int);
            if snapshot_unchanged(p, *snap) || changed_lines(line_diff(old_text@, new_text@)).len() == 0 {
                r@ == no_snapshot_change_text(snapshot_id as int, snap.file_path@)
            } else if colored {
                r@ == file_headers(snap.file_path@, true) + colored_hunks(hs)
            } else {
                r@ == file_headers(snap.file_path@, false) + plain_hunks(hs)
            }
        }),
{
    let unchanged = match prev {
        Some(p) => str_eq(p.content_hash.0.as_str(), snap.content_hash.0.as_str()),
        None => false,
    };
    let quiet = unchanged || changed_lines_between(old_text, new_text).len() == 0;
    if quiet {
        let mut r = String::from_str("No changes in snapshot ");
        push_signed(&mut r, snapshot_id);
        push_str(&mut r, " for ");
        push_str(&mut r, snap.file_path.as_str());
        push_str(&mut r, "\n");
        assert(r@ =~= no_snapshot_change_text(snapshot_id as int, snap.file_path@));
        return r;
    }
    file_diff_text(snap.file_path.as_str(), old_text, new_text, radius, colored, true)
}

/// A line listing a changed file: two spaces, the change word padded to ten
/// columns, then the path.
pub open spec fn state_change_text(path: Seq<char>, c: FileChange) -> Seq<char> {
    "  "@ + pad_right(file_change_name(c), 10) + path
}

/// The line listing a changed file.
pub fn state_change_line(path: &str, c: FileChange) -> (r: String)
    ensures
        r@ == state_change_text(path@, c),
{
    let mut r = String::from_str("  ");
    push_padded_right(&mut r, file_change_label(c), 10);
    push_str(&mut r, path);
    r
}

/// The line opening a comparison of two states, given the local texts of
/// both instants.
pub open spec fn state_diff_heading(from_local: Seq<char>, to_local: Seq<char>) -> Seq<char> {
    "Changes between "@ + from_local + " and "@ + to_local + ":\n"@
}

/// The line opening a comparison of two states.
pub fn state_diff_heading_line(from_local: &str, to_local: &str) -> (r: String)
    ensures
        r@ == state_diff_heading(from_local@, to_local@),
{
    let mut r = String::from_str("Changes between ");
    push_str(&mut r, from_local);
    push_str(&mut r, " and ");
    push_str(&mut r, to_local);
    push_str(&mut r, ":\n");
    r
}

/// The report entry of a changed file between two states, given the file's
/// content at both instants as text: a modified file carries its changed
/// lines and hunks, any other change neither.
pub fn state_change_entry(path: &str, c: FileChange, old_text: &str, new_text: &str, radius: usize) -> (r: DiffChange)
    requires
        radius <= usize::MAX / 2,
        old_text@.len() + new_text@.len() <= u32::MAX,
    ensures
        r.file@ == path@,
        r.status@ == file_change_name(c),
        c == FileChange::Modified ==> (r.diff matches Some(d) && lists_lines(d@, changed_lines(line_diff(old_text@, new_text@))))
            && (r.hunks matches Some(h) && h@.len() == unified_hunks(old_text@, new_text@, radius as int).len()
                && forall|i: int| 0 <= i < h@.len() ==> reports_hunk(unified_hunks(old_text@, new_text@, radius as int)[i].1, #[trigger] h@[i])),
        c != FileChange::Modified ==> r.diff is None && r.hunks is None,
{
    match c {
        FileChange::Modified => {
            let lines = changed_lines_between(old_text, new_text);
            let hunks = hunks_between(old_text, new_text, radius);
            DiffChange {
                file: String::from_str(path),
                status: String::from_str(file_change_label(c)),
                diff: Some(lines),
                hunks: Some(hunks),
            }
        },
        _ => DiffChange {
            file: String::from_str(path),
            status: String::from_str(file_change_label(c)),
            diff: None,
            hunks: None,
        },
    }
}

/// The report of a comparison between two instants.
pub fn state_diff_output(from_time: i64, to_time: i64, changes: Vec<DiffChange>) -> (r: DiffOutput)
    ensures
        r.from@ == rfc3339_text(from_time as int),
        r.to@ == rfc3339_text(to_time as int),
        r.changes@ == changes@,
{
    DiffOutput { from: rfc3339_of(from_time), to: rfc3339_of(to_time), changes }
}

/// The lines listing the first `k` changed files, each with its newline.
pub open spec fn change_lines_text(changes: Seq<(String, FileChange)>, k: int) -> Seq<char>
    decreases k,
{
    if k <= 0 {
        Seq::empty()
    } else {
        change_lines_text(changes, k - 1) + state_change_text(changes[k - 1].0@, changes[k - 1].1)
            + "\n"@
    }
}

/// Some file of the list was modified.
pub open spec fn any_modified(changes: Seq<(String, FileChange)>) -> bool {
    exists|i: int| 0 <= i < changes.len() && #[trigger] changes[i].1 == FileChange::Modified
}

/// The concatenation of the first `k` texts.
pub open spec fn concat_texts(texts: Seq<String>, k: int) -> Seq<char>
    decreases k,
{
    if k <= 0 {
        Seq::empty()
    } else {
        concat_texts(texts, k - 1) + texts[k - 1]@
    }
}

/// The human report of a comparison of two states: the heading, one line
/// per changed file and, after a blank line, the diffs of the modified
/// files (given in their order); a fixed line when nothing changed.
pub open spec fn state_diff_report(
    from_local: Seq<char>,
    to_local: Seq<char>,
    changes: Seq<(String, FileChange)>,
    file_diffs: Seq<String>,
) -> Seq<char> {
    if changes.len() == 0 {
        "No changes between the specified times.\n"@
    } else {
        state_diff_heading(from_local, to_local) + "\n"@ + change_lines_text(
            changes,
            changes.len() as int,
        ) + if any_modified(changes) {
            "\n"@ + concat_texts(file_diffs, file_diffs.len() as int)
        } else {
            Seq::empty()
        }
    }
}

/// The human report of a comparison of two states (see
/// `state_diff_report`).
pub fn state_diff_text(
    from_local: &str,
    to_local: &str,
    changes: &[(String, FileChange)],
    file_diffs: &[String],
) -> (r: String)
    ensures
        r@ == state_diff_report(from_local@, to_local@, changes@, file_diffs@),
{
    if changes.len() == 0 {
        return String::from_str("No changes between the specified times.\n");
    }
    let mut r = state_diff_heading_line(from_local, to_local);
    push_str(&mut r, "\n");
    let ghost head = r@;
    let mut modified = false;
    let mut k: usize = 0;
    while k < changes.len()
        invariant
            k <= changes@.len(),
            r@ == head + change_lines_text(changes@, k as int),
            modified == exists|i: int| 0 <= i < k && #[trigger] changes@[i].1 == FileChange::Modified,
        decreases changes@.len() - k,
    {
        let line = state_change_line(changes[k].0.as_str(), changes[k].1);
        push_str(&mut r, line.as_str());
        push_str(&mut r, "\n");
        if changes[k].1 == FileChange::Modified {
            modified = true;
        }
        k = k + 1;
    }
    if modified {
        push_str(&mut r, "\n");
        let ghost mid = r@;
        let mut j: usize = 0;
        while j < file_diffs.len()
            invariant
                j <= file_diffs@.len(),
                r@ == mid + concat_texts(file_diffs@, j as int),
            decreases file_diffs@.len() - j,
        {
            push_str(&mut r, file_diffs[j].as_str());
            j = j + 1;
        }
        assert(r@ =~= state_diff_report(from_local@, to_local@, changes@, file_diffs@));
    } else {
        assert(r@ =~= state_diff_report(from_local@, to_local@, changes@, file_diffs@));
    }
    r
}

} // verus!
