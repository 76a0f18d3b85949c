//! Grouping a flat history by file.
//!
//! A grouped history has one group per file path. A group lists that file's
//! snapshots oldest first; groups are ordered newest activity first, and
//! groups whose newest snapshots are simultaneous are ordered by path.

use vstd::prelude::*;
use crate::text::{lex_lt, lemma_lex_asymmetric, lemma_lex_irreflexive, lemma_lex_total, lemma_lex_transitive, str_eq, str_lt};
use crate::types::{ContentHash, Snapshot};

verus! {

/// All snapshots of one file.
#[derive(Clone, Debug)]
pub struct FileGroup {
    /// The file path shared by every entry.
    pub path: String,
    /// The file's snapshots, oldest first.
    pub entries: Vec<Snapshot>,
}

/// The snapshots of `s` whose file is `path`, in their original order.
pub open spec fn of_path(s: Seq<Snapshot>, path: Seq<char>) -> Seq<Snapshot> {
    s.filter(|x: Snapshot| x.file_path@ == path)
}

/// Inserts `x` into `sorted` after every snapshot that is not newer than it.
pub open spec fn insert_by_time(sorted: Seq<Snapshot>, x: Snapshot) -> Seq<Snapshot>
    decreases sorted.len(),
{
    if sorted.len() == 0 {
        seq![x]
    } else if sorted.last().timestamp <= x.timestamp {
        sorted.push(x)
    } else {
        insert_by_time(sorted.drop_last(), x).push(sorted.last())
    }
}

/// `s` sorted by timestamp, oldest first; snapshots with equal timestamps
/// keep their relative order (a stable sort).
pub open spec fn sort_by_time(s: Seq<Snapshot>) -> Seq<Snapshot>
    decreases s.len(),
{
    if s.len() == 0 {
        s
    } else {
        insert_by_time(sort_by_time(s.drop_last()), s.last())
    }
}

/// Timestamp of the newest snapshot of a group (its last entry).
pub open spec fn newest(g: FileGroup) -> i64 {
    g.entries@.last().timestamp
}

/// Group `a` is listed before group `b`: its newest snapshot is newer, or
/// equally new and its path sorts first.
pub open spec fn listed_before(a: FileGroup, b: FileGroup) -> bool {
    newest(a) > newest(b) || (newest(a) == newest(b) && lex_lt(a.path@, b.path@))
}

/// No two groups of `r` share a path.
pub open spec fn distinct_paths(r: Seq<FileGroup>) -> bool {
    forall|i: int, j: int| 0 <= i < j < r.len() ==> r[i].path@ != r[j].path@
}

/// Some group of `r` has path `p`.
pub open spec fn has_path(r: Seq<FileGroup>, p: Seq<char>) -> bool {
    exists|i: int| 0 <= i < r.len() && r[i].path@ == p
}

/// Every snapshot of `s` has a group in `r`.
pub open spec fn covers(s: Seq<Snapshot>, r: Seq<FileGroup>) -> bool {
    forall|k: int| 0 <= k < s.len() ==> #[trigger] has_path(r, s[k].file_path@)
}

/// `r` is the grouping of `s` by file.
pub open spec fn is_grouping(s: Seq<Snapshot>, r: Seq<FileGroup>) -> bool {
    &&& distinct_paths(r)
    &&& covers(s, r)
    &&& forall|i: int|
        0 <= i < r.len() ==> of_path(s, r[i].path@).len() > 0 && r[i].entries@ == sort_by_time(
            of_path(s, r[i].path@),
        )
    &&& forall|i: int, j: int| 0 <= i < j < r.len() ==> listed_before(r[i], r[j])
}

/// A field-by-field copy of a snapshot.
pub fn copy_snapshot(s: &Snapshot) -> (r: Snapshot)
    ensures
        r == *s,
{
    Snapshot {
        id: s.id,
        file_path: s.file_path.clone(),
        content_hash: ContentHash(s.content_hash.0.clone()),
        size_bytes: s.size_bytes,
        timestamp: s.timestamp,
        event_type: s.event_type,
        line_count: s.line_count,
        lines_added: s.lines_added,
        lines_removed: s.lines_removed,
    }
}

/// Inserting after the last snapshot that is not newer than `x`.
proof fn lemma_insert_by_time_at(sorted: Seq<Snapshot>, x: Snapshot, j: int)
    requires
        0 <= j <= sorted.len(),
        forall|k: int| j <= k < sorted.len() ==> sorted[k].timestamp > x.timestamp,
        j > 0 ==> sorted[j - 1].timestamp <= x.timestamp,
    ensures
        insert_by_time(sorted, x) == sorted.insert(j, x),
    decreases sorted.len(),
{
    if sorted.len() == 0 {
        assert(sorted.insert(j, x) =~= seq![x]);
    } else if j == sorted.len() {
        assert(sorted.insert(j, x) =~= sorted.push(x));
    } else {
        let init = sorted.drop_last();
        lemma_insert_by_time_at(init, x, j);
        assert(sorted.insert(j, x) =~= init.insert(j, x).push(sorted.last()));
    }
}

/// Sorts snapshots by timestamp, oldest first, keeping the order of equal
/// timestamps.
pub fn sort_snapshots_by_time(v: Vec<Snapshot>) -> (r: Vec<Snapshot>)
    ensures
        r@ == sort_by_time(v@),
{
    let ghost input = v@;
    let mut rest = v;
    let mut out: Vec<Snapshot> = Vec::new();
    let ghost mut done: Seq<Snapshot> = Seq::empty();
    while rest.len() > 0
        invariant
            done + rest@ == input,
            out@ == sort_by_time(done),
        decreases rest.len(),
    {
        let x = rest.remove(0);
        let mut j: usize = out.len();
        while j > 0 && out[j - 1].timestamp > x.timestamp
            invariant
                j <= out.len(),
                forall|k: int| j <= k < out.len() ==> out@[k].timestamp > x.timestamp,
            decreases j,
        {
            j = j - 1;
        }
        proof {
            lemma_insert_by_time_at(out@, x, j as int);
            let nd = done.push(x);
            assert(nd.drop_last() =~= done);
            assert(nd.last() == x);
            assert(nd + rest@ =~= input);
            done = nd;
        }
        out.insert(j, x);
    }
    assert(done =~= input);
    out
}

/// Whether group `a` is listed before group `b`.
fn group_listed_before(a: &FileGroup, b: &FileGroup) -> (r: bool)
    requires
        a.entries@.len() > 0,
        b.entries@.len() > 0,
    ensures
        r == listed_before(*a, *b),
{
    let na = a.entries[a.entries.len() - 1].timestamp;
    let nb = b.entries[b.entries.len() - 1].timestamp;
    if na != nb {
        na > nb
    } else {
        str_lt(a.path.as_str(), b.path.as_str())
    }
}

/// Listing order is a strict total order on groups with distinct paths.
proof fn lemma_listed_before_order(a: FileGroup, b: FileGroup, c: FileGroup)
    ensures
        !(listed_before(a, b) && listed_before(b, a)),
        listed_before(a, b) && listed_before(b, c) ==> listed_before(a, c),
        a.path@ != b.path@ ==> listed_before(a, b) || listed_before(b, a),
{
    lemma_lex_asymmetric(a.path@, b.path@);
    if listed_before(a, b) && listed_before(b, c) && newest(a) == newest(c) {
        lemma_lex_transitive(a.path@, b.path@, c.path@);
    }
    if a.path@ != b.path@ {
        lemma_lex_total(a.path@, b.path@);
    }
}

/// Index of the group for `path`, if there is one.
fn find_group(groups: &Vec<FileGroup>, path: &str) -> (r: Option<usize>)
    ensures
        match r {
            Some(i) => i < groups@.len() && groups@[i as int].path@ == path@,
            None => forall|i: int| 0 <= i < groups@.len() ==> groups@[i].path@ != path@,
        },
{
    let mut i: usize = 0;
    while i < groups.len()
        invariant
            i <= groups@.len(),
            forall|k: int| 0 <= k < i ==> groups@[k].path@ != path@,
        decreases groups.len() - i,
    {
        if str_eq(groups[i].path.as_str(), path) {
            return Some(i);
        }
        i = i + 1;
    }
    None
}

/// `of_path` of a sequence extended by one snapshot.
proof fn lemma_of_path_push(s: Seq<Snapshot>, x: Snapshot, p: Seq<char>)
    ensures
        of_path(s.push(x), p) == if x.file_path@ == p {
            of_path(s, p).push(x)
        } else {
            of_path(s, p)
        },
{
    reveal(Seq::filter);
    assert(s.push(x).drop_last() =~= s);
}

/// One group per distinct path of `snapshots`, each holding that path's
/// snapshots in input order; paths distinct; every snapshot's path present.
fn collect_groups(snapshots: Vec<Snapshot>) -> (groups: Vec<FileGroup>)
    ensures
        distinct_paths(groups@),
        covers(snapshots@, groups@),
        forall|i: int|
            0 <= i < groups@.len() ==> of_path(snapshots@, groups@[i].path@).len() > 0
                && groups@[i].entries@ == of_path(snapshots@, groups@[i].path@),
{
    let ghost input = snapshots@;
    let mut rest = snapshots;
    let mut groups: Vec<FileGroup> = Vec::new();
    let ghost mut done: Seq<Snapshot> = Seq::empty();
    while rest.len() > 0
        invariant
            done + rest@ == input,
            distinct_paths(groups@),
            covers(done, groups@),
            forall|i: int|
                0 <= i < groups@.len() ==> of_path(done, groups@[i].path@).len() > 0
                    && groups@[i].entries@ == of_path(done, groups@[i].path@),
        decreases rest.len(),
    {
        let x = rest.remove(0);
        let ghost old_groups = groups@;
        let ghost nd = done.push(x);
        proof {
            assert(nd + rest@ =~= input);
            assert forall|p: Seq<char>| #[trigger] of_path(nd, p) == (if x.file_path@ == p {
                of_path(done, p).push(x)
            } else {
                of_path(done, p)
            }) by {
                lemma_of_path_push(done, x, p);
            }
        }
        match find_group(&groups, x.file_path.as_str()) {
            Some(idx) => {
                let mut g = groups.remove(idx);
                g.entries.push(x);
                groups.insert(idx, g);
                proof {
                    assert(groups@ =~= old_groups.update(idx as int, groups@[idx as int]));
                    assert forall|i: int| 0 <= i < groups@.len() implies #[trigger] groups@[i].path@
                        == old_groups[i].path@ by {
                    }
                    assert forall|i: int|
                        0 <= i < groups@.len() implies of_path(nd, groups@[i].path@).len() > 0
                        && groups@[i].entries@ == of_path(nd, groups@[i].path@) by {
                        if i != idx {
                            assert(groups@[i] == old_groups[i]);
                            assert(old_groups[i].path@ != old_groups[idx as int].path@);
                        }
                    }
                    assert forall|k: int| 0 <= k < nd.len() implies #[trigger] has_path(groups@, nd[k].file_path@) by {
                        if k < done.len() {
                            assert(nd[k] == done[k]);
                            assert(has_path(old_groups, done[k].file_path@));
                            let i = choose|i: int|
                                0 <= i < old_groups.len() && old_groups[i].path@ == done[k].file_path@;
                            assert(groups@[i].path@ == old_groups[i].path@);
                        } else {
                            assert(groups@[idx as int].path@ == nd[k].file_path@);
                        }
                    }
                }
            },
            None => {
                let path = x.file_path.clone();
                let mut entries: Vec<Snapshot> = Vec::new();
                entries.push(x);
                groups.push(FileGroup { path, entries });
                proof {
                    let n = old_groups.len() as int;
                    assert(groups@ =~= old_groups.push(groups@[n]));
                    assert forall|k: int| 0 <= k < done.len() implies done[k].file_path@
                        != x.file_path@ by {
                        assert(has_path(old_groups, done[k].file_path@));
                    }
                    lemma_of_path_absent(done, x.file_path@);
                    assert(groups@[n].entries@ =~= of_path(nd, groups@[n].path@));
                    assert forall|i: int|
                        0 <= i < groups@.len() implies of_path(nd, groups@[i].path@).len() > 0
                        && groups@[i].entries@ == of_path(nd, groups@[i].path@) by {
                        if i < n {
                            assert(groups@[i] == old_groups[i]);
                        }
                    }
                    assert forall|k: int| 0 <= k < nd.len() implies #[trigger] has_path(groups@, nd[k].file_path@) by {
                        if k < done.len() {
                            assert(nd[k] == done[k]);
                            assert(has_path(old_groups, done[k].file_path@));
                            let i = choose|i: int|
                                0 <= i < old_groups.len() && old_groups[i].path@ == done[k].file_path@;
                            assert(groups@[i].path@ == old_groups[i].path@);
                        } else {
                            assert(groups@[n].path@ == nd[k].file_path@);
                        }
                    }
                }
            },
        }
        proof {
            done = nd;
        }
    }
    assert(done =~= input);
    assert(covers(done, groups@));
    groups
}

/// The same groups with each group's entries sorted by time.
fn sort_group_entries(groups: Vec<FileGroup>) -> (r: Vec<FileGroup>)
    ensures
        r@.len() == groups@.len(),
        forall|k: int|
            0 <= k < r@.len() ==> r@[k].path@ == groups@[k].path@ && r@[k].entries@
                == sort_by_time(groups@[k].entries@),
{
    let ghost all = groups@;
    let mut rest = groups;
    let mut out: Vec<FileGroup> = Vec::new();
    while rest.len() > 0
        invariant
            out@.len() + rest@.len() == all.len(),
            rest@ == all.subrange(out@.len() as int, all.len() as int),
            forall|k: int|
                0 <= k < out@.len() ==> out@[k].path@ == all[k].path@ && out@[k].entries@
                    == sort_by_time(all[k].entries@),
        decreases rest.len(),
    {
        let g = rest.remove(0);
        let FileGroup { path, entries } = g;
        let sorted = sort_snapshots_by_time(entries);
        out.push(FileGroup { path, entries: sorted });
        assert(rest@ =~= all.subrange(out@.len() as int, all.len() as int));
    }
    out
}

/// Every group of `out` is one of the first `n` groups of `src`.
#[verifier::opaque]
pub open spec fn drawn_from(out: Seq<FileGroup>, src: Seq<FileGroup>, n: int) -> bool {
    forall|a: int| #![trigger out[a]] 0 <= a < out.len() ==> exists|k: int|
        0 <= k < n && out[a] == src[k]
}

/// Each of the first `n` groups of `src` is in `out`.
#[verifier::opaque]
pub open spec fn all_drawn(out: Seq<FileGroup>, src: Seq<FileGroup>, n: int) -> bool {
    forall|k: int| #![trigger src[k]] 0 <= k < n ==> exists|a: int|
        0 <= a < out.len() && out[a] == src[k]
}

/// Groups listed strictly in listing order.
pub open spec fn in_listing_order(r: Seq<FileGroup>) -> bool {
    forall|a: int, b: int| 0 <= a < b < r.len() ==> listed_before(r[a], r[b])
}

/// Facts about the groups already placed, drawn from non-empty groups with
/// distinct paths.
proof fn lemma_drawn_facts(old: Seq<FileGroup>, mid: Seq<FileGroup>, taken: int)
    requires
        0 <= taken < mid.len(),
        drawn_from(old, mid, taken),
        forall|k: int| 0 <= k < mid.len() ==> #[trigger] mid[k].entries@.len() > 0,
        distinct_paths(mid),
    ensures
        forall|a: int| 0 <= a < old.len() ==> (#[trigger] old[a]).entries@.len() > 0,
        forall|a: int| 0 <= a < old.len() ==> (#[trigger] old[a]).path@ != mid[taken].path@,
{
    reveal(drawn_from);
    assert forall|a: int| 0 <= a < old.len() implies (#[trigger] old[a]).entries@.len() > 0
        && old[a].path@ != mid[taken].path@ by {
        let k = choose|k: int| 0 <= k < taken && old[a] == mid[k];
        assert(mid[k].path@ != mid[taken].path@);
    }
}

/// The same groups (non-empty, with distinct paths) in listing order.
fn order_groups(groups: Vec<FileGroup>) -> (out: Vec<FileGroup>)
    requires
        forall|k: int| 0 <= k < groups@.len() ==> #[trigger] groups@[k].entries@.len() > 0,
        distinct_paths(groups@),
    ensures
        out@.len() == groups@.len(),
        drawn_from(out@, groups@, groups@.len() as int),
        all_drawn(out@, groups@, groups@.len() as int),
        in_listing_order(out@),
{
    let ghost mid = groups@;
    let mut out: Vec<FileGroup> = Vec::new();
    let mut src = groups;
    let ghost mut taken: int = 0;
    proof {
        reveal(drawn_from);
        reveal(all_drawn);
    }
    while src.len() > 0
        invariant
            0 <= taken <= mid.len(),
            src@ == mid.subrange(taken, mid.len() as int),
            out@.len() == taken,
            forall|k: int| 0 <= k < mid.len() ==> #[trigger] mid[k].entries@.len() > 0,
            distinct_paths(mid),
            drawn_from(out@, mid, taken),
            all_drawn(out@, mid, taken),
            in_listing_order(out@),
        decreases src.len(),
    {
        let g = src.remove(0);
        assert(g == mid[taken]);
        let ghost old_out = out@;
        proof {
            lemma_drawn_facts(old_out, mid, taken);
        }
        let mut j: usize = out.len();
        while j > 0 && !group_listed_before(&out[j - 1], &g)
            invariant
                out@ == old_out,
                j <= out@.len(),
                g.entries@.len() > 0,
                forall|a: int| 0 <= a < out@.len() ==> (#[trigger] out@[a]).entries@.len() > 0,
                forall|a: int| j <= a < out@.len() ==> !listed_before(#[trigger] out@[a], g),
            decreases j,
        {
            j = j - 1;
        }
        proof {
            assert forall|a: int| j <= a < old_out.len() implies listed_before(g, #[trigger] old_out[a]) by {
                lemma_listed_before_order(g, old_out[a], g);
            }
        }
        out.insert(j, g);
        proof {
            assert(out@ =~= old_out.insert(j as int, g));
            lemma_insert_in_order(old_out, g, j as int);
            lemma_insert_tracks(old_out, g, j as int, mid, taken);
            taken = taken + 1;
            assert(src@ =~= mid.subrange(taken, mid.len() as int));
        }
    }
    out
}

/// Inserting a group at its place keeps a listing in order.
proof fn lemma_insert_in_order(old: Seq<FileGroup>, g: FileGroup, j: int)
    requires
        0 <= j <= old.len(),
        in_listing_order(old),
        j > 0 ==> listed_before(old[j - 1], g),
        forall|a: int| j <= a < old.len() ==> listed_before(g, #[trigger] old[a]),
    ensures
        in_listing_order(old.insert(j, g)),
{
    let nw = old.insert(j, g);
    assert forall|a: int, b: int| 0 <= a < b < nw.len() implies listed_before(nw[a], nw[b]) by {
        if b < j {
            assert(nw[a] == old[a] && nw[b] == old[b]);
        } else if a < j && b == j {
            if a < j - 1 {
                lemma_listed_before_order(old[a], old[j - 1], g);
            }
        } else if a < j && b > j {
            assert(nw[a] == old[a] && nw[b] == old[b - 1]);
        } else if a == j {
            assert(nw[b] == old[b - 1]);
        } else {
            assert(nw[a] == old[a - 1] && nw[b] == old[b - 1]);
        }
    }
}

/// After inserting `mid[taken]`, the listing holds exactly `mid[..taken + 1]`.
proof fn lemma_insert_tracks(
    old: Seq<FileGroup>,
    g: FileGroup,
    j: int,
    mid: Seq<FileGroup>,
    taken: int,
)
    requires
        0 <= j <= old.len(),
        0 <= taken < mid.len(),
        g == mid[taken],
        drawn_from(old, mid, taken),
        all_drawn(old, mid, taken),
    ensures
        drawn_from(old.insert(j, g), mid, taken + 1),
        all_drawn(old.insert(j, g), mid, taken + 1),
{
    reveal(drawn_from);
    reveal(all_drawn);
    let nw = old.insert(j, g);
    assert forall|a: int| #![trigger nw[a]] 0 <= a < nw.len() implies exists|k: int|
        0 <= k < taken + 1 && nw[a] == mid[k] by {
        if a < j {
            let k = choose|k: int| 0 <= k < taken && old[a] == mid[k];
            assert(nw[a] == mid[k]);
        } else if a == j {
            assert(nw[a] == mid[taken]);
        } else {
            let k = choose|k: int| 0 <= k < taken && old[a - 1] == mid[k];
            assert(nw[a] == mid[k]);
        }
    }
    assert forall|k: int| #![trigger mid[k]] 0 <= k < taken + 1 implies exists|a: int|
        0 <= a < nw.len() && nw[a] == mid[k] by {
        if k < taken {
            let a = choose|a: int| 0 <= a < old.len() && old[a] == mid[k];
            if a < j {
                assert(nw[a] == mid[k]);
            } else {
                assert(nw[a + 1] == mid[k]);
            }
        } else {
            assert(nw[j] == mid[k]);
        }
    }
}

/// Groups snapshots by file path.
///
/// Each group holds one file's snapshots, oldest first (a stable sort by
/// timestamp). Groups are ordered by their newest snapshot, newest first;
/// groups whose newest snapshots are simultaneous are ordered by path.
/// Empty input gives no groups.
pub fn group_by_file(snapshots: Vec<Snapshot>) -> (r: Vec<FileGroup>)
    ensures
        is_grouping(snapshots@, r@),
{
    let ghost input = snapshots@;
    let groups = collect_groups(snapshots);
    let ghost all = groups@;
    let sorted = sort_group_entries(groups);
    let ghost mid = sorted@;
    proof {
        assert forall|k: int| 0 <= k < mid.len() implies #[trigger] mid[k].entries@.len() > 0 by {
            lemma_sort_by_time_len(all[k].entries@);
        }
        assert forall|a: int, b: int| 0 <= a < b < mid.len() implies mid[a].path@ != mid[b].path@ by {
            assert(mid[a].path@ == all[a].path@);
            assert(mid[b].path@ == all[b].path@);
        }
    }
    let out = order_groups(sorted);
    proof {
        reveal(drawn_from);
        reveal(all_drawn);
        let r = out@;
        assert forall|a: int, b: int| 0 <= a < b < r.len() implies r[a].path@ != r[b].path@ by {
            lemma_listed_before_order(r[a], r[b], r[a]);
            if r[a].path@ == r[b].path@ {
                lemma_lex_irreflexive(r[a].path@);
            }
        }
        assert forall|k: int| 0 <= k < input.len() implies #[trigger] has_path(r, input[k].file_path@) by {
            assert(has_path(all, input[k].file_path@));
            let i = choose|i: int| 0 <= i < all.len() && all[i].path@ == input[k].file_path@;
            assert(mid[i].path@ == all[i].path@);
            let a = choose|a: int| 0 <= a < r.len() && r[a] == mid[i];
            assert(r[a].path@ == input[k].file_path@);
        }
        assert(covers(input, r));
        assert forall|a: int| 0 <= a < r.len() implies of_path(input, r[a].path@).len() > 0
            && r[a].entries@ == sort_by_time(of_path(input, r[a].path@)) by {
            let k = choose|k: int| 0 <= k < mid.len() && r[a] == mid[k];
            assert(mid[k].path@ == all[k].path@);
        }
    }
    out
}

/// A path that no snapshot has selects nothing.
proof fn lemma_of_path_absent(s: Seq<Snapshot>, p: Seq<char>)
    requires
        forall|k: int| 0 <= k < s.len() ==> s[k].file_path@ != p,
    ensures
        of_path(s, p) == Seq::<Snapshot>::empty(),
    decreases s.len(),
{
    reveal(Seq::filter);
    if s.len() > 0 {
        lemma_of_path_absent(s.drop_last(), p);
    }
    assert(of_path(s, p) =~= Seq::<Snapshot>::empty());
}

/// Sorting keeps the number of snapshots.
pub proof fn lemma_sort_by_time_len(s: Seq<Snapshot>)
    ensures
        sort_by_time(s).len() == s.len(),
    decreases s.len(),
{
    if s.len() > 0 {
        lemma_sort_by_time_len(s.drop_last());
        lemma_insert_by_time_len(sort_by_time(s.drop_last()), s.last());
    }
}

/// Inserting adds exactly one snapshot.
proof fn lemma_insert_by_time_len(sorted: Seq<Snapshot>, x: Snapshot)
    ensures
        insert_by_time(sorted, x).len() == sorted.len() + 1,
    decreases sorted.len(),
{
    if sorted.len() > 0 && sorted.last().timestamp > x.timestamp {
        lemma_insert_by_time_len(sorted.drop_last(), x);
    }
}


/// Snapshots ordered oldest first.
pub open spec fn oldest_first(v: Seq<Snapshot>) -> bool {
    forall|i: int, j: int| 0 <= i < j < v.len() ==> #[trigger] v[i].timestamp <= #[trigger] v[j].timestamp
}

/// Inserting into a sequence sorted oldest first keeps it sorted and adds
/// exactly `x`.
proof fn lemma_insert_by_time_sorted(sorted: Seq<Snapshot>, x: Snapshot)
    requires
        oldest_first(sorted),
    ensures
        oldest_first(insert_by_time(sorted, x)),
        insert_by_time(sorted, x).to_multiset() == sorted.to_multiset().insert(x),
    decreases sorted.len(),
{
    broadcast use vstd::seq_lib::group_to_multiset_ensures;

    if sorted.len() == 0 {
        assert(seq![x] =~= Seq::<Snapshot>::empty().push(x));
    } else if sorted.last().timestamp <= x.timestamp {
        let r = sorted.push(x);
        assert forall|i: int, j: int| 0 <= i < j < r.len() implies #[trigger] r[i].timestamp
            <= #[trigger] r[j].timestamp by {
            if j == sorted.len() && i < sorted.len() - 1 {
                assert(sorted[i].timestamp <= sorted[sorted.len() - 1].timestamp);
            }
        }
    } else {
        let init = sorted.drop_last();
        let last = sorted.last();
        lemma_insert_by_time_sorted(init, x);
        let mid = insert_by_time(init, x);
        let r = mid.push(last);
        assert(sorted =~= init.push(last));
        assert forall|i: int, j: int| 0 <= i < j < r.len() implies #[trigger] r[i].timestamp
            <= #[trigger] r[j].timestamp by {
            if j == mid.len() {
                let e = mid[i];
                assert(mid.to_multiset().count(e) > 0);
                if e != x {
                    assert(init.to_multiset().count(e) > 0);
                    let k = choose|k: int| 0 <= k < init.len() && init[k] == e;
                    assert(sorted[k] == e);
                }
            }
        }
    }
}

/// Sorting by time orders the snapshots oldest first and keeps every
/// snapshot as often as it came.
pub proof fn lemma_sort_by_time_sorted(s: Seq<Snapshot>)
    ensures
        oldest_first(sort_by_time(s)),
        sort_by_time(s).to_multiset() == s.to_multiset(),
    decreases s.len(),
{
    broadcast use vstd::seq_lib::group_to_multiset_ensures;

    if s.len() > 0 {
        lemma_sort_by_time_sorted(s.drop_last());
        lemma_insert_by_time_sorted(sort_by_time(s.drop_last()), s.last());
        assert(s =~= s.drop_last().push(s.last()));
    }
}

/// A grouping keeps every file's history: each group holds exactly that
/// file's snapshots, each as often as it came, oldest first, and every
/// snapshot's file has a group.
pub proof fn lemma_grouping_keeps_each_file(s: Seq<Snapshot>, r: Seq<FileGroup>)
    requires
        is_grouping(s, r),
    ensures
        forall|i: int|
            0 <= i < r.len() ==> (#[trigger] r[i]).entries@.to_multiset() == of_path(
                s,
                r[i].path@,
            ).to_multiset() && oldest_first(r[i].entries@) && r[i].entries@.len() > 0,
        forall|k: int| 0 <= k < s.len() ==> has_path(r, #[trigger] s[k].file_path@),
{
    assert forall|i: int| 0 <= i < r.len() implies (#[trigger] r[i]).entries@.to_multiset()
        == of_path(s, r[i].path@).to_multiset() && oldest_first(r[i].entries@)
        && r[i].entries@.len() > 0 by {
        lemma_sort_by_time_sorted(of_path(s, r[i].path@));
        lemma_sort_by_time_len(of_path(s, r[i].path@));
    }
    assert forall|k: int| 0 <= k < s.len() implies has_path(r, #[trigger] s[k].file_path@) by {
        assert(has_path(r, s[k].file_path@));
    }
}

} // verus!
