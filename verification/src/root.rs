//! The marker resolver: finds the project root for a starting directory.
//!
//! An override handed in from outside comes first. Without one, the root is
//! the nearest directory, from the starting directory upwards, that holds a
//! marker; with no marker anywhere, it is the starting directory itself.
//!
//! The filesystem is probed by the caller: for each directory from the
//! starting directory up to the anchor, nearest first, it reports which
//! markers are there.

use crate::error::{CleanError, CleanErrorView, IoErrorKind};
use crate::path::{path_result, NormalPath, PathView};
use crate::text::texts;
use vstd::prelude::*;
use vstd::string::*;

verus! {

/// Which markers one directory holds.
#[derive(Debug, Clone, Copy, PartialEq, Eq)]
pub struct MarkerProbe {
    /// A `.git` entry: the root of a checkout.
    pub git: bool,
    /// A `Cargo.toml` entry: the root of a package.
    pub cargo_toml: bool,
    /// A `.c2rust` entry: the tool's own marker.
    pub c2rust: bool,
}

impl MarkerProbe {
    /// Whether the directory holds any marker at all.
    pub open spec fn any(self) -> bool {
        self.git || self.cargo_toml || self.c2rust
    }

    /// Whether the directory holds any marker at all.
    pub fn has_any(&self) -> (r: bool)
        ensures
            r == self.any(),
    {
        self.git || self.cargo_toml || self.c2rust
    }
}

/// A root directory handed in from outside, with what a probe of the
/// filesystem said about it.
#[derive(Debug)]
pub struct RootOverride {
    pub path: NormalPath,
    pub is_directory: bool,
}

/// The project root that an override stands for: the override's path when
/// it was found to be a directory, and a failure that names it otherwise.
/// The override is validated, never trusted as it stands.
pub open spec fn project_root_of(root: Option<RootOverride>) -> Result<PathView, CleanErrorView> {
    match root {
        None => Err(
            CleanErrorView::IoError(
                IoErrorKind::NotFound,
                "C2RUST_PROJECT_ROOT environment variable not set"@,
            ),
        ),
        Some(o) => if o.is_directory {
            Ok(o.path@)
        } else {
            Err(CleanErrorView::InvalidEnvironmentRoot(o.path@.text()))
        },
    }
}

/// The first position at or after `i` that is flagged, among the positions
/// that `flags` covers and that are no deeper than `depth`.
pub open spec fn nearest_from(flags: Seq<bool>, depth: nat, i: int) -> Option<int>
    decreases flags.len() - i,
{
    if i < 0 || i >= flags.len() || i > depth {
        None
    } else if flags[i] {
        Some(i)
    } else {
        nearest_from(flags, depth, i + 1)
    }
}

/// How many levels above the starting directory the nearest flagged
/// directory lies. `flags[i]` speaks of the directory `i` levels up;
/// levels without a flag, and flags beyond the anchor, count for nothing.
pub open spec fn nearest(flags: Seq<bool>, depth: nat) -> Option<int> {
    nearest_from(flags, depth, 0)
}

/// For each probe, whether it found any marker.
pub open spec fn marked(probes: Seq<MarkerProbe>) -> Seq<bool> {
    Seq::new(probes.len(), |i: int| probes[i].any())
}

/// The root that a search from `start` finds: the nearest directory with
/// a marker, or `start` itself when no directory has one.
pub open spec fn resolved_root(start: PathView, probes: Seq<MarkerProbe>) -> PathView {
    match nearest(marked(probes), start.depth()) {
        Some(up) => start.ancestor(up),
        None => start,
    }
}

/// The names of the entries that mark a project root, in the order of the
/// fields of [`MarkerProbe`].
pub open spec fn marker_name_list() -> Seq<Seq<char>> {
    seq![".git"@, "Cargo.toml"@, ".c2rust"@]
}

/// What `nearest_from` finds is flagged, in range, and has nothing flagged
/// between the start of the search and itself; and it finds nothing only if
/// nothing in range is flagged.
pub proof fn lemma_nearest_from(flags: Seq<bool>, depth: nat, i: int)
    requires
        0 <= i,
    ensures
        match nearest_from(flags, depth, i) {
            Some(k) => {
                &&& i <= k <= depth
                &&& k < flags.len()
                &&& flags[k]
                &&& forall|j: int| i <= j < k ==> !flags[j]
            },
            None => forall|j: int| i <= j <= depth && j < flags.len() ==> !flags[j],
        },
    decreases flags.len() - i,
{
    if i < flags.len() && i <= depth && !flags[i] {
        lemma_nearest_from(flags, depth, i + 1);
    }
}

/// The nearest flagged level is the one level that is flagged with nothing
/// flagged below it.
pub proof fn lemma_nearest_is(flags: Seq<bool>, depth: nat, k: int)
    requires
        0 <= k <= depth,
        k < flags.len(),
        flags[k],
        forall|j: int| 0 <= j < k ==> !flags[j],
    ensures
        nearest(flags, depth) == Some(k),
{
    lemma_nearest_from(flags, depth, 0);
}

/// Nothing is found exactly when no level in range is flagged.
pub proof fn lemma_nearest_none(flags: Seq<bool>, depth: nat)
    requires
        forall|j: int| 0 <= j <= depth && j < flags.len() ==> !flags[j],
    ensures
        nearest(flags, depth) is None,
{
    lemma_nearest_from(flags, depth, 0);
}

/// How many levels up the nearest flagged directory lies, if there is one.
pub fn nearest_flagged(flags: &Vec<bool>, depth: usize) -> (r: Option<usize>)
    ensures
        match r {
            Some(k) => nearest(flags@, depth as nat) == Some(k as int),
            None => nearest(flags@, depth as nat) is None,
        },
{
    let mut i: usize = 0;
    while i < flags.len() && i <= depth
        invariant
            i <= flags@.len(),
            nearest(flags@, depth as nat) == nearest_from(flags@, depth as nat, i as int),
        decreases flags@.len() - i,
    {
        if flags[i] {
            return Some(i);
        }
        i = i + 1;
    }
    None
}

/// The names of the entries that mark a project root, in the order of the
/// fields of [`MarkerProbe`].
pub fn marker_names() -> (r: Vec<String>)
    ensures
        texts(r@) == marker_name_list(),
{
    let mut names: Vec<String> = Vec::new();
    names.push(String::from_str(".git"));
    names.push(String::from_str("Cargo.toml"));
    names.push(String::from_str(".c2rust"));
    assert(texts(names@) =~= marker_name_list());
    names
}

/// Finds the project root for `start_dir`.
///
/// `probes[i]` says which markers the directory `i` levels above
/// `start_dir` holds, `probes[0]` speaking of `start_dir` itself. The
/// nearest directory with any marker is the root, whatever the marker; if
/// no directory has one, `start_dir` is. The search never fails.
pub fn find_project_root(start_dir: &NormalPath, probes: &Vec<MarkerProbe>) -> (r: Result<
    NormalPath,
    CleanError,
>)
    ensures
        path_result(r) == Ok::<PathView, CleanErrorView>(resolved_root(start_dir@, probes@)),
        r matches Ok(p) && p@.valid(),
{
    let mut flags: Vec<bool> = Vec::new();
    let mut i: usize = 0;
    while i < probes.len()
        invariant
            i <= probes@.len(),
            flags@ == marked(probes@).take(i as int),
        decreases probes@.len() - i,
    {
        flags.push(probes[i].has_any());
        assert(flags@ =~= marked(probes@).take(i as int + 1));
        i = i + 1;
    }
    assert(marked(probes@).take(probes@.len() as int) =~= marked(probes@));
    match nearest_flagged(&flags, start_dir.depth()) {
        Some(up) => {
            proof {
                lemma_nearest_from(flags@, start_dir@.depth(), 0);
            }
            Ok(start_dir.ancestor(up))
        },
        None => Ok(start_dir.duplicate()),
    }
}

/// Resolves the project root.
///
/// An override, when there is one, decides alone: it is the root if it was
/// found to be a directory, and the resolution fails if it was not.
/// Without an override the root is what [`find_project_root`] finds.
pub fn resolve_root(
    root: Option<RootOverride>,
    start_dir: &NormalPath,
    probes: &Vec<MarkerProbe>,
) -> (r: Result<NormalPath, CleanError>)
    ensures
        path_result(r) == match root {
            Some(_) => project_root_of(root),
            None => Ok(resolved_root(start_dir@, probes@)),
        },
{
    match root {
        Some(o) => crate::git_helper::get_project_root(Some(o)),
        None => find_project_root(start_dir, probes),
    }
}

/// From any directory strictly inside a root that holds a marker, of
/// whatever kind, the search finds that root, and the directory is, relative
/// to the root, the names between them separated by `/`. This holds when no
/// directory on the way up to the root holds a marker of its own.
pub proof fn lemma_root_found_from_inside(
    root: PathView,
    names: Seq<Seq<char>>,
    probes: Seq<MarkerProbe>,
)
    requires
        names.len() > 0,
        probes.len() > names.len(),
        probes[names.len() as int].any(),
        forall|i: int| 0 <= i < names.len() ==> !probes[i].any(),
    ensures
        resolved_root(root.descend(names), probes) == root,
        crate::path::relative_dir(root, root.descend(names)) == crate::text::join(
            names,
            seq!['/'],
        ),
{
    let start = root.descend(names);
    let up = names.len() as int;
    lemma_nearest_is(marked(probes), start.depth(), up);
    assert(start.segments.take(start.segments.len() - up) =~= root.segments);
    crate::path::lemma_relative_below(root, names);
}

/// With no marker in any directory from the starting directory up to the
/// anchor, the starting directory is the root.
pub proof fn lemma_no_marker_keeps_start(start: PathView, probes: Seq<MarkerProbe>)
    requires
        forall|i: int| 0 <= i < probes.len() ==> !probes[i].any(),
    ensures
        resolved_root(start, probes) == start,
{
    lemma_nearest_none(marked(probes), start.depth());
}

/// With markers at several levels, the level nearest to the starting
/// directory is the root: no marked level `at` is nearer than the root
/// that the search finds.
pub proof fn lemma_closest_marker_wins(start: PathView, probes: Seq<MarkerProbe>, at: int)
    requires
        0 <= at <= start.depth(),
        at < probes.len(),
        probes[at].any(),
    ensures
        nearest(marked(probes), start.depth()) matches Some(up) && up <= at && probes[up].any()
            && resolved_root(start, probes) == start.ancestor(up) && (forall|j: int|
            0 <= j < up ==> !probes[j].any()),
{
    lemma_nearest_from(marked(probes), start.depth(), 0);
    assert(marked(probes)[at]);
    let up = nearest(marked(probes), start.depth())->0;
    assert forall|j: int| 0 <= j < up implies !probes[j].any() by {
        assert(!marked(probes)[j]);
    }
}

} // verus!
