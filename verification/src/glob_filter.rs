//! Path filtering by glob patterns, through the `globset` crate.
//!
//! Include patterns are alternatives (any may match; none given lets every
//! path in); exclude patterns are alternatives too, and an excluded path
//! stays out whatever the include patterns say. Each list is compiled
//! once, into one `globset` set, when the filter is built.

use vstd::prelude::*;
use vstd::string::StrSliceExecFns;
use vstd::string::StringExecFns;
use crate::text::{push_str, views};
use crate::grouping::copy_snapshot;
use crate::types::{Snapshot, UnfError};

verus! {

/// Why `globset::GlobBuilder::build` refuses a pattern (the error's text),
/// with case-insensitive matching set as given; `None` when it accepts it.
pub uninterp spec fn glob_error(pattern: Seq<char>, ignore_case: bool) -> Option<Seq<char>>;

/// Whether the glob built from `pattern` (with case-insensitive matching as
/// given) matches `path`, as a `globset` set holding it matches paths.
pub uninterp spec fn glob_match(pattern: Seq<char>, ignore_case: bool, path: Seq<char>) -> bool;

/// Why `globset::GlobSetBuilder::build` refuses the set of the globs of
/// `patterns` (the error's text), all of them accepted one by one; `None`
/// when it builds the set.
pub uninterp spec fn glob_set_error(patterns: Seq<Seq<char>>, ignore_case: bool) -> Option<Seq<char>>;

/// The patterns whose globs a built set holds, in the order they were added.
pub uninterp spec fn set_patterns(set: globset::GlobSet) -> Seq<Seq<char>>;

/// Whether the globs of a built set match ignoring case.
pub uninterp spec fn set_ignores_case(set: globset::GlobSet) -> bool;

/// A compiled set of globs.
#[verifier::external_type_specification]
#[verifier::external_body]
pub struct ExGlobSet(globset::GlobSet);

/// Builds the glob of a pattern with `GlobBuilder::new(..)
/// .case_insensitive(..).build()` and gives its error's text.
///
/// Claimed: the result is `glob_error` of the pattern and flag.
#[verifier::external_body]
fn build_error(pattern: &str, ignore_case: bool) -> (r: Option<String>)
    ensures
        match glob_error(pattern@, ignore_case) {
            Some(e) => r matches Some(s) && s@ == e,
            None => r is None,
        },
{
    match globset::GlobBuilder::new(pattern).case_insensitive(ignore_case).build() {
        Ok(_) => None,
        Err(e) => Some(e.to_string()),
    }
}

/// Builds the set of the globs of accepted patterns: each with
/// `GlobBuilder::new(..).case_insensitive(..).build()`, added in order to a
/// `GlobSetBuilder`, then `GlobSetBuilder::build`, which compiles the set
/// and reports what it cannot compile.
///
/// Claimed: `Ok` exactly when `glob_set_error` is `None`, with a set that
/// holds these patterns and this flag; otherwise the error's text.
#[verifier::external_body]
fn build_glob_set(patterns: &[String], ignore_case: bool) -> (r: Result<globset::GlobSet, String>)
    requires
        all_accepted(views(patterns@), ignore_case),
    ensures
        match r {
            Ok(set) => glob_set_error(views(patterns@), ignore_case) is None && set_patterns(set)
                == views(patterns@) && set_ignores_case(set) == ignore_case,
            Err(e) => glob_set_error(views(patterns@), ignore_case) == Some(e@),
        },
{
    let mut builder = globset::GlobSetBuilder::new();
    for p in patterns {
        match globset::GlobBuilder::new(p).case_insensitive(ignore_case).build() {
            Ok(g) => {
                builder.add(g);
            },
            Err(e) => return Err(e.to_string()),
        }
    }
    builder.build().map_err(|e| e.to_string())
}

/// Whether a built set matches a path, with `GlobSet::is_match`: true when
/// any of its globs matches.
#[verifier::external_body]
fn set_matches(set: &globset::GlobSet, path: &str) -> (r: bool)
    ensures
        r == (exists|i: int|
            0 <= i < set_patterns(*set).len() && #[trigger] glob_match(
                set_patterns(*set)[i],
                set_ignores_case(*set),
                path@,
            )),
{
    set.is_match(path)
}

/// A filter of paths by include and exclude patterns, each list compiled
/// into one set (absent when the list is empty).
#[derive(Clone, Debug)]
pub struct GlobFilter {
    include_set: Option<globset::GlobSet>,
    exclude_set: Option<globset::GlobSet>,
    ignore_case: bool,
}

/// Every pattern is one `globset` accepts.
pub open spec fn all_accepted(patterns: Seq<Seq<char>>, ignore_case: bool) -> bool {
    forall|i: int| 0 <= i < patterns.len() ==> (#[trigger] glob_error(patterns[i], ignore_case)) is None
}

/// Some pattern's glob matches the path.
pub open spec fn any_match(patterns: Seq<Seq<char>>, ignore_case: bool, path: Seq<char>) -> bool {
    exists|i: int| 0 <= i < patterns.len() && #[trigger] glob_match(patterns[i], ignore_case, path)
}

/// The first pattern that `globset` refuses is at `i`.
pub open spec fn first_refused(patterns: Seq<Seq<char>>, ignore_case: bool, i: int) -> bool {
    &&& 0 <= i < patterns.len()
    &&& glob_error(patterns[i], ignore_case) is Some
    &&& all_accepted(patterns.subrange(0, i), ignore_case)
}

/// The error for a refused pattern: which list it is in, the pattern, and
/// why.
pub open spec fn refused_message(kind: Seq<char>, pattern: Seq<char>, why: Seq<char>) -> Seq<char> {
    "Invalid "@ + kind + " pattern '"@ + pattern + "': "@ + why
}

impl GlobFilter {
    /// The patterns a path must match one of.
    pub closed spec fn kept(self) -> Seq<Seq<char>> {
        match self.include_set {
            Some(s) => set_patterns(s),
            None => Seq::empty(),
        }
    }

    /// The exclude patterns.
    pub closed spec fn exclude(self) -> Seq<Seq<char>> {
        match self.exclude_set {
            Some(s) => set_patterns(s),
            None => Seq::empty(),
        }
    }

    /// Whether matching ignores case.
    pub closed spec fn case_insensitive(self) -> bool {
        self.ignore_case
    }

    /// Each set is present only with patterns, and matches with the
    /// filter's case rule.
    pub closed spec fn wf(self) -> bool {
        &&& (self.include_set matches Some(s) ==> set_patterns(s).len() > 0 && set_ignores_case(s)
            == self.ignore_case)
        &&& (self.exclude_set matches Some(s) ==> set_patterns(s).len() > 0 && set_ignores_case(s)
            == self.ignore_case)
    }

    /// Whether the filter lets a path through: some include pattern
    /// matches (or there is none), and no exclude pattern does.
    pub open spec fn admits(self, path: Seq<char>) -> bool {
        (self.kept().len() == 0 || any_match(self.kept(), self.case_insensitive(), path))
            && !any_match(self.exclude(), self.case_insensitive(), path)
    }

    /// Builds a filter. The include patterns are checked first: the first
    /// pattern `globset` refuses is named with the reason, and a set it
    /// cannot compile is reported; then the exclude patterns the same way.
    pub fn new(included: &[String], exclude: &[String], ignore_case: bool) -> (r: Result<
        GlobFilter,
        UnfError,
    >)
        ensures
            list_outcome(views(included@), ignore_case) is Ok && list_outcome(
                views(exclude@),
                ignore_case,
            ) is Ok ==> (r matches Ok(f) && f.wf() && f.kept() == views(included@) && f.exclude()
                == views(exclude@) && f.case_insensitive() == ignore_case),
            list_outcome(views(included@), ignore_case) is Err ==> (r matches Err(e)
                && e is InvalidArgument && e.spec_message() == list_message(
                "include"@,
                views(included@),
                ignore_case,
            )),
            list_outcome(views(included@), ignore_case) is Ok && list_outcome(
                views(exclude@),
                ignore_case,
            ) is Err ==> (r matches Err(e) && e is InvalidArgument && e.spec_message()
                == list_message("exclude"@, views(exclude@), ignore_case)),
    {
        let include_set = match compile_patterns(included, ignore_case, "include") {
            Err(e) => {
                return Err(e);
            },
            Ok(s) => s,
        };
        let exclude_set = match compile_patterns(exclude, ignore_case, "exclude") {
            Err(e) => {
                return Err(e);
            },
            Ok(s) => s,
        };
        Ok(GlobFilter { include_set, exclude_set, ignore_case })
    }

    /// Whether the filter lets `path` through (see `admits`).
    pub fn matches(&self, path: &str) -> (r: bool)
        requires
            self.wf(),
        ensures
            r == self.admits(path@),
    {
        match &self.include_set {
            Some(s) => {
                if !set_matches(s, path) {
                    return false;
                }
            },
            None => {},
        }
        match &self.exclude_set {
            Some(s) => !set_matches(s, path),
            None => true,
        }
    }
}

/// The snapshots whose file the filter lets through, in their order.
pub open spec fn matching_snapshots(f: GlobFilter, s: Seq<Snapshot>) -> Seq<Snapshot> {
    s.filter(|x: Snapshot| f.admits(x.file_path@))
}

/// Keeps the snapshots whose file the filter lets through.
pub fn retain_matching(filter: &GlobFilter, snapshots: Vec<Snapshot>) -> (r: Vec<Snapshot>)
    requires
        filter.wf(),
    ensures
        r@ == matching_snapshots(*filter, snapshots@),
{
    let mut out: Vec<Snapshot> = Vec::new();
    let mut k: usize = 0;
    while k < snapshots.len()
        invariant
            k <= snapshots@.len(),
            filter.wf(),
            out@ == matching_snapshots(*filter, snapshots@.subrange(0, k as int)),
        decreases snapshots@.len() - k,
    {
        proof {
            reveal(Seq::filter);
            let next = snapshots@.subrange(0, k + 1);
            assert(next.drop_last() =~= snapshots@.subrange(0, k as int));
        }
        if filter.matches(snapshots[k].file_path.as_str()) {
            out.push(copy_snapshot(&snapshots[k]));
        }
        k = k + 1;
    }
    assert(snapshots@.subrange(0, snapshots@.len() as int) =~= snapshots@);
    out
}

/// A filter without patterns lets every path through.
pub proof fn lemma_empty_filter_admits_all(f: GlobFilter, path: Seq<char>)
    requires
        f.kept().len() == 0,
        f.exclude().len() == 0,
    ensures
        f.admits(path),
{
}

/// Exclusion wins: a path that some exclude pattern matches is kept out,
/// whatever the include patterns say.
pub proof fn lemma_exclude_wins(f: GlobFilter, path: Seq<char>, i: int)
    requires
        0 <= i < f.exclude().len(),
        glob_match(f.exclude()[i], f.case_insensitive(), path),
    ensures
        !f.admits(path),
{
}

/// With include patterns, a path no include pattern matches is kept out.
pub proof fn lemma_include_required(f: GlobFilter, path: Seq<char>)
    requires
        f.kept().len() > 0,
        forall|i: int| 0 <= i < f.kept().len() ==> !glob_match(f.kept()[i], f.case_insensitive(), path),
    ensures
        !f.admits(path),
{
}

/// What compiling one list of patterns gives: no set for an empty list,
/// the first refused pattern with its reason, the set's compile error, or
/// a set.
pub open spec fn list_outcome(patterns: Seq<Seq<char>>, ignore_case: bool) -> Result<(), Seq<char>> {
    if patterns.len() == 0 {
        Ok(())
    } else if !all_accepted(patterns, ignore_case) {
        Err(Seq::empty())
    } else {
        match glob_set_error(patterns, ignore_case) {
            Some(e) => Err(e),
            None => Ok(()),
        }
    }
}

/// The error for a list of patterns whose outcome is an error: the first
/// refused pattern, or the set that does not compile.
pub open spec fn list_message(kind: Seq<char>, patterns: Seq<Seq<char>>, ignore_case: bool) -> Seq<char> {
    if !all_accepted(patterns, ignore_case) {
        refused_message(
            kind,
            patterns[first_refused_index(patterns, ignore_case)],
            glob_error(patterns[first_refused_index(patterns, ignore_case)], ignore_case)->0,
        )
    } else {
        "Failed to compile "@ + kind + " patterns: "@ + glob_set_error(patterns, ignore_case)->0
    }
}

/// The position of the first refused pattern.
pub open spec fn first_refused_index(patterns: Seq<Seq<char>>, ignore_case: bool) -> int {
    choose|i: int| first_refused(patterns, ignore_case, i)
}

/// At most one position is the first refused pattern.
proof fn lemma_first_refused_unique(patterns: Seq<Seq<char>>, ignore_case: bool, i: int, j: int)
    requires
        first_refused(patterns, ignore_case, i),
        first_refused(patterns, ignore_case, j),
    ensures
        i == j,
{
    if i < j {
        assert(patterns.subrange(0, j)[i] == patterns[i]);
    } else if j < i {
        assert(patterns.subrange(0, i)[j] == patterns[j]);
    }
}

/// Compiles one list of patterns into a set (none for an empty list),
/// naming the first refused pattern or the set's compile error.
fn compile_patterns(patterns: &[String], ignore_case: bool, kind: &str) -> (r: Result<
    Option<globset::GlobSet>,
    UnfError,
>)
    ensures
        list_outcome(views(patterns@), ignore_case) is Ok ==> (r matches Ok(o) && (match o {
            Some(s) => patterns@.len() > 0 && set_patterns(s) == views(patterns@)
                && set_ignores_case(s) == ignore_case,
            None => patterns@.len() == 0,
        })),
        list_outcome(views(patterns@), ignore_case) is Err ==> (r matches Err(e)
            && e is InvalidArgument && e.spec_message() == list_message(
            kind@,
            views(patterns@),
            ignore_case,
        )),
{
    if patterns.len() == 0 {
        return Ok(None);
    }
    let ghost ps = views(patterns@);
    let mut i: usize = 0;
    while i < patterns.len()
        invariant
            i <= patterns@.len(),
            ps == views(patterns@),
            forall|j: int| 0 <= j < i ==> (#[trigger] glob_error(ps[j], ignore_case)) is None,
        decreases patterns@.len() - i,
    {
        let p = patterns[i].as_str();
        match build_error(p, ignore_case) {
            Some(why) => {
                let mut m = String::from_str("Invalid ");
                push_str(&mut m, kind);
                push_str(&mut m, " pattern '");
                push_str(&mut m, p);
                push_str(&mut m, "': ");
                push_str(&mut m, why.as_str());
                proof {
                    assert(ps[i as int] == p@);
                    assert(all_accepted(ps.subrange(0, i as int), ignore_case));
                    assert(first_refused(ps, ignore_case, i as int));
                    assert(!all_accepted(ps, ignore_case));
                    let k = first_refused_index(ps, ignore_case);
                    lemma_first_refused_unique(ps, ignore_case, k, i as int);
                }
                return Err(UnfError::InvalidArgument(m));
            },
            None => {
                proof {
                    assert(ps[i as int] == p@);
                }
            },
        }
        i = i + 1;
    }
    assert(all_accepted(ps, ignore_case));
    match build_glob_set(patterns, ignore_case) {
        Ok(set) => Ok(Some(set)),
        Err(why) => {
            let mut m = String::from_str("Failed to compile ");
            push_str(&mut m, kind);
            push_str(&mut m, " patterns: ");
            push_str(&mut m, why.as_str());
            Err(UnfError::InvalidArgument(m))
        },
    }
}

} // verus!
