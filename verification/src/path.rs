//! Directory paths as the resolver sees them: an anchor (the filesystem root
//! or a drive prefix, possibly empty) followed by plain directory names.
//!
//! A [`NormalPath`] never holds an empty name, a name with a `/` in it, `.` or
//! `..`, so that walking up is dropping the last name and a relative path
//! can never climb out of its root.

use crate::text::{
    chars_of, cut, find_char, join, join_texts, lemma_texts_push, same_text, texts,
};
use vstd::prelude::*;
use vstd::string::*;

verus! {

/// Whether `name` can be one component of a [`NormalPath`].
pub open spec fn is_normal_name(name: Seq<char>) -> bool {
    &&& name.len() > 0
    &&& !name.contains('/')
    &&& name != seq!['.']
    &&& name != seq!['.', '.']
}

/// Whether every name in `names` is a normal name.
pub open spec fn all_normal(names: Seq<Seq<char>>) -> bool {
    forall|i: int| 0 <= i < names.len() ==> is_normal_name(#[trigger] names[i])
}

/// The mathematical value of a [`NormalPath`].
pub struct PathView {
    pub anchor: Seq<char>,
    pub segments: Seq<Seq<char>>,
}

impl PathView {
    /// Every component is a normal name.
    pub open spec fn valid(self) -> bool {
        all_normal(self.segments)
    }

    /// The number of names below the anchor.
    pub open spec fn depth(self) -> nat {
        self.segments.len()
    }

    /// The directory `up` levels above this one; `ancestor(0)` is the
    /// directory itself and `ancestor(depth())` is the anchor alone.
    pub open spec fn ancestor(self, up: int) -> PathView {
        PathView { anchor: self.anchor, segments: self.segments.take(self.segments.len() - up) }
    }

    /// The entry `name` inside this directory.
    pub open spec fn child(self, name: Seq<char>) -> PathView {
        PathView { anchor: self.anchor, segments: self.segments.push(name) }
    }

    /// The directory reached by descending through `names`.
    pub open spec fn descend(self, names: Seq<Seq<char>>) -> PathView {
        PathView { anchor: self.anchor, segments: self.segments + names }
    }

    /// Whether `other` is this directory or lies below it.
    pub open spec fn contains(self, other: PathView) -> bool {
        self.anchor == other.anchor && self.segments.is_prefix_of(other.segments)
    }

    /// The path written out, names separated by `/`.
    pub open spec fn text(self) -> Seq<char> {
        self.anchor + join(self.segments, seq!['/'])
    }
}

/// An anchored path made of normal names only.
#[derive(Debug, PartialEq, Eq)]
pub struct NormalPath {
    anchor: String,
    segments: Vec<String>,
}

impl View for NormalPath {
    type V = PathView;

    closed spec fn view(&self) -> PathView {
        PathView { anchor: self.anchor@, segments: texts(self.segments@) }
    }
}

impl Clone for NormalPath {
    fn clone(&self) -> (r: NormalPath)
        ensures
            r@ == self@,
    {
        self.duplicate()
    }
}

/// Whether `name` can be one component of a [`NormalPath`].
pub fn is_normal(name: &str) -> (r: bool)
    ensures
        r == is_normal_name(name@),
{
    let v = chars_of(name);
    let n: usize = v.len();
    if n == 0 {
        return false;
    }
    let slash: usize = find_char(&v, 0, n, '/');
    proof {
        assert(v@.subrange(0, n as int) =~= v@);
        crate::text::lemma_index_of_bounds(v@, '/');
        if slash < n {
            assert(v@[slash as int] == '/');
        }
    }
    if slash < n {
        return false;
    }
    if n == 1 && v[0] == '.' {
        assert(v@ =~= seq!['.']);
        return false;
    }
    if n == 2 && v[0] == '.' && v[1] == '.' {
        assert(v@ =~= seq!['.', '.']);
        return false;
    }
    proof {
        if v@ == seq!['.'] {
            assert(seq!['.'].len() == 1);
            assert(seq!['.'][0] == '.');
        }
        if v@ == seq!['.', '.'] {
            assert(seq!['.', '.'].len() == 2);
            assert(seq!['.', '.'][0] == '.');
            assert(seq!['.', '.'][1] == '.');
        }
    }
    true
}

impl NormalPath {
    #[verifier::type_invariant]
    pub closed spec fn wf(self) -> bool {
        all_normal(texts(self.segments@))
    }

    /// What the type guarantees of every value: its names are normal.
    pub proof fn lemma_valid(&self)
        requires
            self.wf(),
        ensures
            self@.valid(),
    {
    }

    /// The path that is the anchor alone.
    pub fn new(anchor: &str) -> (r: NormalPath)
        ensures
            r@ == (PathView { anchor: anchor@, segments: Seq::empty() }),
            r@.valid(),
    {
        let r = NormalPath { anchor: String::from_str(anchor), segments: Vec::new() };
        assert(texts(r.segments@) =~= Seq::<Seq<char>>::empty());
        r
    }

    /// The anchor: the filesystem root, a drive prefix, or nothing.
    pub fn anchor(&self) -> (r: String)
        ensures
            r@ == self@.anchor,
    {
        self.anchor.clone()
    }

    /// The number of names below the anchor.
    pub fn depth(&self) -> (r: usize)
        ensures
            r == self@.depth(),
    {
        self.segments.len()
    }

    /// The names below the anchor, outermost first.
    pub fn segments(&self) -> (r: Vec<String>)
        ensures
            texts(r@) == self@.segments,
    {
        let mut out: Vec<String> = Vec::new();
        let mut i: usize = 0;
        while i < self.segments.len()
            invariant
                i <= self.segments@.len(),
                texts(out@) == texts(self.segments@).take(i as int),
            decreases self.segments@.len() - i,
        {
            proof {
                lemma_texts_push(out@, self.segments@[i as int]);
            }
            out.push(self.segments[i].clone());
            assert(texts(out@) =~= texts(self.segments@).take(i as int + 1));
            i = i + 1;
        }
        assert(texts(self.segments@).take(self.segments@.len() as int) =~= texts(
            self.segments@,
        ));
        out
    }

    /// The directory `up` levels above this one, or the anchor alone when
    /// the path is not that deep.
    pub fn ancestor(&self, up: usize) -> (r: NormalPath)
        ensures
            r@ == self@.ancestor(if up <= self@.depth() {
                up as int
            } else {
                self@.depth() as int
            }),
            r@.valid(),
    {
        proof {
            use_type_invariant(self);
        }
        let n: usize = self.segments.len();
        let keep: usize = if up <= n {
            n - up
        } else {
            0
        };
        let mut out: Vec<String> = Vec::new();
        let mut i: usize = 0;
        while i < keep
            invariant
                i <= keep <= self.segments@.len(),
                texts(out@) == texts(self.segments@).take(i as int),
            decreases keep - i,
        {
            proof {
                lemma_texts_push(out@, self.segments@[i as int]);
            }
            out.push(self.segments[i].clone());
            assert(texts(out@) =~= texts(self.segments@).take(i as int + 1));
            i = i + 1;
        }
        let r = NormalPath { anchor: self.anchor.clone(), segments: out };
        r
    }

    /// The directory one level up, unless this is the anchor alone.
    pub fn parent(&self) -> (r: Option<NormalPath>)
        ensures
            self@.depth() == 0 ==> r is None,
            self@.depth() > 0 ==> r is Some && r->0@ == self@.ancestor(1) && r->0@.valid(),
    {
        if self.segments.len() == 0 {
            None
        } else {
            Some(self.ancestor(1))
        }
    }

    /// The same path again.
    pub fn duplicate(&self) -> (r: NormalPath)
        ensures
            r@ == self@,
            r@.valid(),
    {
        let r = self.ancestor(0);
        assert(self@.segments.take(self@.segments.len() as int) =~= self@.segments);
        r
    }

    /// The entry `name` inside this directory, if `name` is a normal name.
    pub fn child(&self, name: &str) -> (r: Option<NormalPath>)
        ensures
            r is Some <==> is_normal_name(name@),
            r is Some ==> r->0@ == self@.child(name@) && r->0@.valid(),
    {
        if !is_normal(name) {
            return None;
        }
        let base = self.duplicate();
        proof {
            use_type_invariant(&base);
        }
        let mut names = base.segments;
        names.push(String::from_str(name));
        assert(texts(names@) =~= self@.segments.push(name@));
        let r = NormalPath { anchor: base.anchor, segments: names };
        Some(r)
    }

    /// The path under `anchor` through `names`, if every name is normal.
    pub fn from_parts(anchor: &str, names: &Vec<String>) -> (r: Option<NormalPath>)
        ensures
            r is Some <==> all_normal(texts(names@)),
            r is Some ==> r->0@ == (PathView { anchor: anchor@, segments: texts(names@) }),
    {
        let mut out: Vec<String> = Vec::new();
        let mut i: usize = 0;
        while i < names.len()
            invariant
                i <= names@.len(),
                texts(out@) == texts(names@).take(i as int),
                all_normal(texts(out@)),
            decreases names@.len() - i,
        {
            if !is_normal(names[i].as_str()) {
                assert(!is_normal_name(texts(names@)[i as int]));
                return None;
            }
            proof {
                lemma_texts_push(out@, names@[i as int]);
            }
            out.push(names[i].clone());
            assert(texts(out@) =~= texts(names@).take(i as int + 1));
            i = i + 1;
        }
        assert(texts(names@).take(names@.len() as int) =~= texts(names@));
        let r = NormalPath { anchor: String::from_str(anchor), segments: out };
        Some(r)
    }

    /// Every directory from this one up to the anchor, nearest first.
    pub fn ancestors(&self) -> (r: Vec<NormalPath>)
        ensures
            r@.len() == self@.depth() + 1,
            forall|i: int| 0 <= i < r@.len() ==> (#[trigger] r@[i])@ == self@.ancestor(i),
    {
        let n: usize = self.segments.len();
        let mut out: Vec<NormalPath> = Vec::new();
        let mut i: usize = 0;
        while i < n
            invariant
                n == self@.depth(),
                i <= n,
                out@.len() == i,
                forall|k: int| 0 <= k < i ==> (#[trigger] out@[k])@ == self@.ancestor(k),
            decreases n - i,
        {
            out.push(self.ancestor(i));
            i = i + 1;
        }
        out.push(self.ancestor(n));
        out
    }

    /// Whether this path is `base` or lies below it.
    pub fn starts_with(&self, base: &NormalPath) -> (r: bool)
        ensures
            r == base@.contains(self@),
    {
        if !same_text(self.anchor.as_str(), base.anchor.as_str()) {
            return false;
        }
        if base.segments.len() > self.segments.len() {
            return false;
        }
        let mut i: usize = 0;
        while i < base.segments.len()
            invariant
                i <= base.segments@.len() <= self.segments@.len(),
                forall|k: int| 0 <= k < i ==> self@.segments[k] == base@.segments[k],
            decreases base.segments@.len() - i,
        {
            if !same_text(self.segments[i].as_str(), base.segments[i].as_str()) {
                assert(self@.segments[i as int] != base@.segments[i as int]);
                return false;
            }
            i = i + 1;
        }
        assert(base@.segments =~= self@.segments.subrange(0, base@.segments.len() as int));
        true
    }

    /// The names that lead from `base` down to this path: all of them when
    /// this path lies below `base`, none otherwise.
    pub fn names_below(&self, base: &NormalPath) -> (r: Vec<String>)
        ensures
            texts(r@) == names_between(base@, self@),
    {
        let mut out: Vec<String> = Vec::new();
        if !self.starts_with(base) {
            assert(texts(out@) =~= Seq::<Seq<char>>::empty());
            return out;
        }
        let from: usize = base.segments.len();
        let mut i: usize = from;
        while i < self.segments.len()
            invariant
                from <= i <= self.segments@.len(),
                texts(out@) == self@.segments.subrange(from as int, i as int),
            decreases self.segments@.len() - i,
        {
            proof {
                lemma_texts_push(out@, self.segments@[i as int]);
            }
            out.push(self.segments[i].clone());
            assert(texts(out@) =~= self@.segments.subrange(from as int, i as int + 1));
            i = i + 1;
        }
        assert(self@.segments.subrange(from as int, self@.segments.len() as int)
            =~= self@.segments.skip(from as int));
        out
    }

    /// The path written out, names separated by `/`.
    pub fn to_text(&self) -> (r: String)
        ensures
            r@ == self@.text(),
    {
        proof {
            reveal_strlit("/");
            assert("/"@ =~= seq!['/']);
        }
        let tail = join_texts(&self.segments, "/");
        let mut out = self.anchor.clone();
        out.append(tail.as_str());
        out
    }

    /// The directory reached by descending through `names`, if every one of
    /// them is a normal name.
    pub fn descend(&self, names: &Vec<String>) -> (r: Option<NormalPath>)
        ensures
            r is Some <==> all_normal(texts(names@)),
            r is Some ==> r->0@ == self@.descend(texts(names@)) && r->0@.valid(),
    {
        let mut out = self.duplicate();
        let mut i: usize = 0;
        while i < names.len()
            invariant
                i <= names@.len(),
                out@ == self@.descend(texts(names@).take(i as int)),
                all_normal(texts(names@).take(i as int)),
            decreases names@.len() - i,
        {
            let ghost before = out@;
            match out.child(names[i].as_str()) {
                Some(next) => {
                    out = next;
                },
                None => {
                    assert(!is_normal_name(texts(names@)[i as int]));
                    return None;
                },
            }
            assert(texts(names@).take(i as int + 1) =~= texts(names@).take(i as int).push(
                names@[i as int]@,
            ));
            assert(out@.segments =~= self@.segments + texts(names@).take(i as int + 1));
            i = i + 1;
        }
        assert(texts(names@).take(names@.len() as int) =~= texts(names@));
        proof {
            use_type_invariant(&out);
        }
        Some(out)
    }
}

/// The names that a list of path components comes to when it is followed
/// from the anchor: `.` stays where it is, `..` goes one level up, or stays
/// at the anchor, and any other component must be a normal name and goes
/// one level down. There are no such names if a component is neither.
pub open spec fn resolved_names(components: Seq<Seq<char>>) -> Option<Seq<Seq<char>>>
    decreases components.len(),
{
    if components.len() == 0 {
        Some(Seq::empty())
    } else {
        match resolved_names(components.drop_last()) {
            None => None,
            Some(names) => {
                let step = components.last();
                if step == seq!['.'] {
                    Some(names)
                } else if step == seq!['.', '.'] {
                    if names.len() > 0 {
                        Some(names.drop_last())
                    } else {
                        Some(names)
                    }
                } else if is_normal_name(step) {
                    Some(names.push(step))
                } else {
                    None
                }
            },
        }
    }
}

/// Components that cannot be followed up to some point cannot be followed
/// to the end.
pub proof fn lemma_unresolved_stays_unresolved(components: Seq<Seq<char>>, upto: int)
    requires
        0 <= upto <= components.len(),
        resolved_names(components.take(upto)) is None,
    ensures
        resolved_names(components) is None,
    decreases components.len() - upto,
{
    if upto < components.len() {
        assert(components.take(upto + 1).drop_last() =~= components.take(upto));
        lemma_unresolved_stays_unresolved(components, upto + 1);
    } else {
        assert(components.take(upto) =~= components);
    }
}

impl NormalPath {
    /// The path reached from `anchor` by following `components`, where `.`
    /// stays, `..` goes up and a normal name goes down. `None` if some
    /// component is none of these.
    pub fn resolve(anchor: &str, components: &Vec<String>) -> (r: Option<NormalPath>)
        ensures
            match resolved_names(texts(components@)) {
                Some(names) => r matches Some(p) && p@ == (PathView {
                    anchor: anchor@,
                    segments: names,
                }),
                None => r is None,
            },
    {
        proof {
            reveal_strlit(".");
            reveal_strlit("..");
            assert("."@ =~= seq!['.']);
            assert(".."@ =~= seq!['.', '.']);
        }
        let mut out: Vec<String> = Vec::new();
        let mut i: usize = 0;
        assert(texts(components@).take(0) =~= Seq::<Seq<char>>::empty());
        assert(texts(out@) =~= Seq::<Seq<char>>::empty());
        while i < components.len()
            invariant
                i <= components@.len(),
                "."@ == seq!['.'],
                ".."@ == seq!['.', '.'],
                resolved_names(texts(components@).take(i as int)) == Some(texts(out@)),
                all_normal(texts(out@)),
            decreases components@.len() - i,
        {
            let ghost before = texts(out@);
            let ghost upto = texts(components@).take(i as int + 1);
            assert(upto.drop_last() =~= texts(components@).take(i as int));
            assert(upto.last() == components@[i as int]@);
            let name = components[i].as_str();
            if same_text(name, ".") {
            } else if same_text(name, "..") {
                if out.len() > 0 {
                    out.pop();
                    assert(texts(out@) =~= before.drop_last());
                }
            } else if is_normal(name) {
                proof {
                    lemma_texts_push(out@, components@[i as int]);
                }
                out.push(components[i].clone());
            } else {
                proof {
                    lemma_unresolved_stays_unresolved(texts(components@), i as int + 1);
                }
                return None;
            }
            i = i + 1;
        }
        assert(texts(components@).take(components@.len() as int) =~= texts(components@));
        Some(NormalPath { anchor: String::from_str(anchor), segments: out })
    }
}

/// The value of a result that holds a path.
pub open spec fn path_result(r: Result<NormalPath, crate::error::CleanError>) -> Result<
    PathView,
    crate::error::CleanErrorView,
> {
    match r {
        Ok(p) => Ok(p@),
        Err(e) => Err(e@),
    }
}

/// The names that lead from `root` down to `path`, or none when `path` is
/// not inside `root`.
pub open spec fn names_between(root: PathView, path: PathView) -> Seq<Seq<char>> {
    if root.contains(path) {
        path.segments.skip(root.segments.len() as int)
    } else {
        Seq::empty()
    }
}

/// The path of `current` relative to `root`: `.` when they are the same
/// directory or when `current` is not inside `root`; otherwise the names
/// that lead from `root` down to `current`, separated by `/`.
pub open spec fn relative_dir(root: PathView, current: PathView) -> Seq<char> {
    let names = names_between(root, current);
    if names.len() == 0 {
        seq!['.']
    } else {
        join(names, seq!['/'])
    }
}

/// The names that a relative directory spells: none for `.`, otherwise the
/// pieces between its slashes.
pub open spec fn relative_names(dir: Seq<char>) -> Seq<Seq<char>> {
    if dir == seq!['.'] {
        Seq::empty()
    } else {
        crate::text::split(dir, '/')
    }
}

/// The directory that `build_dir` names below `root`, if `build_dir` is
/// `.` or a list of normal names separated by `/`.
pub open spec fn build_dir_path(root: PathView, build_dir: Seq<char>) -> Option<PathView> {
    let names = relative_names(build_dir);
    if all_normal(names) {
        Some(root.descend(names))
    } else {
        None
    }
}

/// Whether a relative path climbs out of the directory it starts in: it is
/// `..` or begins with `../`.
pub open spec fn climbs(dir: Seq<char>) -> bool {
    ||| dir == seq!['.', '.']
    ||| (dir.len() >= 3 && dir[0] == '.' && dir[1] == '.' && dir[2] == '/')
}

/// Joining starts with the first piece: the rest follows behind one
/// separator.
pub proof fn lemma_join_front(first: Seq<char>, rest: Seq<Seq<char>>, sep: Seq<char>)
    requires
        rest.len() > 0,
    ensures
        join(seq![first] + rest, sep) == first + sep + join(rest, sep),
    decreases rest.len(),
{
    let parts = seq![first] + rest;
    assert(parts.last() == rest.last());
    if rest.len() == 1 {
        assert(parts.drop_last() =~= seq![first]);
        assert(join(seq![first], sep) == first);
        assert(join(rest, sep) == rest[0]);
    } else {
        assert(parts.drop_last() =~= seq![first] + rest.drop_last());
        lemma_join_front(first, rest.drop_last(), sep);
        assert(join(parts, sep) =~= first + sep + join(rest, sep));
    }
}

/// Cutting joined names at the separator gives the names back, as long as
/// no name holds the separator.
pub proof fn lemma_split_join(names: Seq<Seq<char>>, c: char)
    requires
        names.len() > 0,
        forall|i: int, k: int| 0 <= i < names.len() && 0 <= k < names[i].len() ==> names[i][k] != c,
    ensures
        crate::text::split(join(names, seq![c]), c) == names,
    decreases names.len(),
{
    let first = names[0];
    let rest = names.drop_first();
    assert(names =~= seq![first] + rest);
    if rest.len() == 0 {
        assert(join(names, seq![c]) == first);
        crate::text::lemma_index_of_unique(first, c, first.len() as int);
        assert(names =~= seq![first]);
    } else {
        lemma_join_front(first, rest, seq![c]);
        let joined = join(names, seq![c]);
        let tail = join(rest, seq![c]);
        assert(joined == first + seq![c] + tail);
        assert forall|k: int| 0 <= k < first.len() implies joined[k] != c by {
            assert(joined[k] == first[k]);
        }
        assert(joined[first.len() as int] == c);
        crate::text::lemma_index_of_unique(joined, c, first.len() as int);
        assert(joined.take(first.len() as int) =~= first);
        assert(joined.skip(first.len() as int + 1) =~= tail);
        assert forall|i: int, k: int| 0 <= i < rest.len() && 0 <= k < rest[i].len() implies rest[i][k]
            != c by {
            assert(rest[i] == names[i + 1]);
        }
        lemma_split_join(rest, c);
    }
}

/// No normal name holds a slash.
pub proof fn lemma_normal_names_have_no_slash(names: Seq<Seq<char>>)
    requires
        all_normal(names),
    ensures
        forall|i: int, k: int|
            0 <= i < names.len() && 0 <= k < names[i].len() ==> names[i][k] != '/',
{
    assert forall|i: int, k: int| 0 <= i < names.len() && 0 <= k < names[i].len() implies names[i][k]
        != '/' by {
        assert(is_normal_name(names[i]));
        if names[i][k] == '/' {
            assert(names[i].contains('/'));
        }
    }
}

/// A directory is `.` relative to itself.
pub proof fn lemma_relative_to_self(root: PathView)
    ensures
        relative_dir(root, root) == seq!['.'],
{
    assert(root.segments.skip(root.segments.len() as int) =~= Seq::<Seq<char>>::empty());
}

/// A directory that is not inside the root is `.` relative to it.
pub proof fn lemma_relative_outside(root: PathView, current: PathView)
    requires
        !root.contains(current),
    ensures
        relative_dir(root, current) == seq!['.'],
{
}

/// A directory reached from the root through `names` is exactly those
/// names, separated by `/`, relative to the root.
pub proof fn lemma_relative_below(root: PathView, names: Seq<Seq<char>>)
    requires
        names.len() > 0,
    ensures
        relative_dir(root, root.descend(names)) == join(names, seq!['/']),
{
    let current = root.descend(names);
    assert(current.segments.subrange(0, root.segments.len() as int) =~= root.segments);
    assert(current.segments.skip(root.segments.len() as int) =~= names);
}

/// A relative directory is never empty and never climbs out of its root.
pub proof fn lemma_relative_dir_stays_inside(root: PathView, current: PathView)
    requires
        current.valid(),
    ensures
        relative_dir(root, current).len() > 0,
        !climbs(relative_dir(root, current)),
{
    let names = names_between(root, current);
    let dir = relative_dir(root, current);
    if names.len() == 0 {
        assert(dir[0] == '.');
        assert(dir.len() == 1);
        assert(seq!['.', '.'].len() == 2);
    } else {
        let k = root.segments.len() as int;
        let first = names[0];
        assert(first == current.segments[k]);
        assert(is_normal_name(first));
        assert(seq!['.', '.'].len() == 2);
        let rest = names.drop_first();
        assert(names =~= seq![first] + rest);
        if rest.len() == 0 {
            assert(dir == first);
            if dir.len() >= 3 && dir[2] == '/' {
                assert(first.contains('/'));
            }
        } else {
            lemma_join_front(first, rest, seq!['/']);
            let tail = join(rest, seq!['/']);
            assert(dir == first + seq!['/'] + tail);
            assert(dir[first.len() as int] == '/');
            if climbs(dir) {
                if first.len() == 2 {
                    assert(dir[0] == first[0]);
                    assert(dir[1] == first[1]);
                    assert(first =~= seq!['.', '.']);
                } else if first.len() >= 3 {
                    assert(dir[2] == first[2]);
                    assert(first.contains('/'));
                }
            }
        }
    }
}

/// The stored relative directory leads back to the directory it was
/// computed for: descending from the root through it reaches that
/// directory again.
pub proof fn lemma_build_dir_leads_back(root: PathView, current: PathView)
    requires
        current.valid(),
        root.contains(current),
    ensures
        build_dir_path(root, relative_dir(root, current)) == Some(current),
{
    let k = root.segments.len() as int;
    let names = names_between(root, current);
    let dir = relative_dir(root, current);
    assert(root.segments + names =~= current.segments);
    if names.len() == 0 {
        assert(relative_names(dir) =~= names);
    } else {
        assert forall|i: int| 0 <= i < names.len() implies is_normal_name(#[trigger] names[i]) by {
            assert(names[i] == current.segments[k + i]);
        }
        lemma_normal_names_have_no_slash(names);
        lemma_split_join(names, '/');
        let first = names[0];
        let rest = names.drop_first();
        assert(names =~= seq![first] + rest);
        assert(seq!['.'].len() == 1);
        if rest.len() == 0 {
            assert(dir == first);
        } else {
            lemma_join_front(first, rest, seq!['/']);
            assert(dir.len() >= first.len() + 1);
        }
        assert(dir != seq!['.']);
    }
}

/// Splits the text of a relative path at each `/` into its names.
pub fn split_names(text: &str) -> (r: Vec<String>)
    ensures
        texts(r@) == crate::text::split(text@, '/'),
{
    let v = chars_of(text);
    let n: usize = v.len();
    let mut out: Vec<String> = Vec::new();
    let mut pos: usize = 0;
    assert(text@.skip(0) =~= text@);
    loop
        invariant
            v@ == text@,
            n == v@.len(),
            pos <= n,
            texts(out@) + crate::text::split(text@.skip(pos as int), '/') == crate::text::split(
                text@,
                '/',
            ),
        decreases n - pos,
    {
        let at: usize = find_char(&v, pos, n, '/');
        let ghost rest = text@.skip(pos as int);
        let ghost before = texts(out@);
        assert(v@.subrange(pos as int, n as int) =~= rest);
        out.push(cut(text, pos, at));
        assert(text@.subrange(pos as int, at as int) =~= rest.take(at - pos));
        assert(texts(out@) =~= before + seq![rest.take(at - pos)]);
        if at >= n {
            assert(rest.take(at - pos) =~= rest);
            return out;
        }
        assert(rest.skip(at - pos + 1) =~= text@.skip(at as int + 1));
        assert(before + (seq![rest.take(at - pos)] + crate::text::split(
            rest.skip(at - pos + 1),
            '/',
        )) =~= (before + seq![rest.take(at - pos)]) + crate::text::split(
            rest.skip(at - pos + 1),
            '/',
        ));
        pos = at + 1;
    }
}

} // verus!
