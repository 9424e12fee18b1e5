//! From the directory arguments of the user to the set of directories to
//! scan: unresolvable arguments are skipped, duplicates are taken once, in
//! the order of their first appearance, and what is no directory is dropped.

use vstd::prelude::*;
use vstd::string::*;
use crate::diagnostic::Diagnostic;
use crate::views::views_of;

verus! {

/// What resolving one argument to an absolute path, links followed, came to.
#[derive(Debug, PartialEq, Eq)]
pub enum PathProbe {
    /// The argument could not be resolved.
    Unresolvable,
    /// The argument resolved to this path, which is no directory.
    NotDirectory(String),
    /// The argument resolved to this path, which is a directory.
    Directory(String),
}

/// A [`PathProbe`] as plain values.
pub enum ProbeView {
    Unresolvable,
    NotDirectory(Seq<char>),
    Directory(Seq<char>),
}

impl View for PathProbe {
    type V = ProbeView;

    open spec fn view(&self) -> ProbeView {
        match self {
            PathProbe::Unresolvable => ProbeView::Unresolvable,
            PathProbe::NotDirectory(path) => ProbeView::NotDirectory(path@),
            PathProbe::Directory(path) => ProbeView::Directory(path@),
        }
    }
}

impl ProbeView {
    /// The path that the argument resolved to, if it did.
    pub open spec fn resolved(self) -> Option<Seq<char>> {
        match self {
            ProbeView::Unresolvable => None,
            ProbeView::NotDirectory(path) => Some(path),
            ProbeView::Directory(path) => Some(path),
        }
    }
}

/// Whether the probe at `i` is the first to resolve to its path.
pub open spec fn first_seen(probes: Seq<ProbeView>, i: int) -> bool {
    &&& 0 <= i < probes.len()
    &&& probes[i].resolved() is Some
    &&& forall|j: int| 0 <= j < i ==> (#[trigger] probes[j]).resolved() != probes[i].resolved()
}

/// Whether the probe at `i` contributes its path to the input set: it is the
/// first to resolve to that path, and the path is a directory.
pub open spec fn kept(probes: Seq<ProbeView>, i: int) -> bool {
    first_seen(probes, i) && probes[i] is Directory
}

/// The input set: the paths of the probes that are kept, in order.
pub open spec fn input_set(probes: Seq<ProbeView>) -> Seq<Seq<char>>
    decreases probes.len(),
{
    if probes.len() == 0 {
        seq![]
    } else {
        let before = input_set(probes.drop_last());
        if kept(probes, probes.len() - 1) {
            before.push(probes.last()->Directory_0)
        } else {
            before
        }
    }
}

/// The messages of resolution: one for each argument that could not be
/// resolved, and one for each path that is no directory, where it first
/// appears. Repeated paths are skipped in silence.
pub open spec fn resolution_diagnostics(probes: Seq<ProbeView>) -> Seq<Diagnostic>
    decreases probes.len(),
{
    if probes.len() == 0 {
        seq![]
    } else {
        let before = resolution_diagnostics(probes.drop_last());
        let i = probes.len() - 1;
        if probes.last() is Unresolvable {
            before.push(Diagnostic::Unresolvable { argument: i as usize })
        } else if first_seen(probes, i) && probes.last() is NotDirectory {
            before.push(Diagnostic::NotADirectory { argument: i as usize })
        } else {
            before
        }
    }
}

/// Whether a probe is first seen or kept depends on the probes up to it only.
proof fn lemma_first_seen_prefix(probes: Seq<ProbeView>, n: int, i: int)
    requires
        0 <= i < n <= probes.len(),
    ensures
        first_seen(probes.take(n), i) == first_seen(probes, i),
        kept(probes.take(n), i) == kept(probes, i),
{
    let head = probes.take(n);
    assert(head[i] == probes[i]);
    if first_seen(probes, i) {
        assert forall|j: int| 0 <= j < i implies (#[trigger] head[j]).resolved()
            != head[i].resolved() by {
            assert(head[j] == probes[j]);
        }
    }
    if first_seen(head, i) {
        assert forall|j: int| 0 <= j < i implies (#[trigger] probes[j]).resolved()
            != probes[i].resolved() by {
            assert(head[j] == probes[j]);
        }
    }
}

/// A path is in the input set exactly when some kept probe resolved to it.
pub proof fn lemma_input_set_members(probes: Seq<ProbeView>, path: Seq<char>)
    ensures
        input_set(probes).contains(path) <==> exists|i: int|
            kept(probes, i) && #[trigger] probes[i].resolved() == Some(path),
    decreases probes.len(),
{
    if probes.len() == 0 {
        assert(!input_set(probes).contains(path));
    } else {
        let head = probes.drop_last();
        let n = probes.len() - 1;
        assert(head == probes.take(n));
        lemma_input_set_members(head, path);
        let before = input_set(head);
        if input_set(probes).contains(path) {
            let k = choose|k: int|
                0 <= k < input_set(probes).len() && input_set(probes)[k] == path;
            if kept(probes, n) && k == before.len() {
                assert(probes[n].resolved() == Some(path));
            } else {
                assert(before[k] == path);
                assert(before.contains(path));
                let i = choose|i: int|
                    kept(head, i) && #[trigger] head[i].resolved() == Some(path);
                lemma_first_seen_prefix(probes, n, i);
                assert(probes[i].resolved() == Some(path));
            }
        }
        if exists|i: int| kept(probes, i) && #[trigger] probes[i].resolved() == Some(path) {
            let i = choose|i: int| kept(probes, i) && #[trigger] probes[i].resolved() == Some(path);
            if i == n {
                assert(input_set(probes) == before.push(path));
                assert(input_set(probes)[before.len() as int] == path);
            } else {
                lemma_first_seen_prefix(probes, n, i);
                assert(head[i].resolved() == Some(path));
                assert(before.contains(path));
                let k = choose|k: int| 0 <= k < before.len() && before[k] == path;
                assert(input_set(probes)[k] == path);
            }
        }
    }
}

/// Whatever the arguments resolve to, with duplicates or without: no path
/// occurs twice in the input set, and every path in it was found to be a
/// directory by the first probe that resolved to it.
pub proof fn law_input_set_is_unique_directories(probes: Seq<ProbeView>)
    ensures
        input_set(probes).no_duplicates(),
        forall|path: Seq<char>| #[trigger]
            input_set(probes).contains(path) ==> exists|i: int|
                first_seen(probes, i) && #[trigger] probes[i] == ProbeView::Directory(path),
        forall|i: int|
            first_seen(probes, i) && (#[trigger] probes[i]) is NotDirectory ==> !input_set(
                probes,
            ).contains(probes[i].resolved().unwrap()),
    decreases probes.len(),
{
    assert forall|path: Seq<char>| #[trigger] input_set(probes).contains(path) implies exists|
        i: int,
    |
        first_seen(probes, i) && #[trigger] probes[i] == ProbeView::Directory(path) by {
        lemma_input_set_members(probes, path);
        let i = choose|i: int| kept(probes, i) && #[trigger] probes[i].resolved() == Some(path);
        assert(probes[i] == ProbeView::Directory(path));
    }
    assert forall|i: int| first_seen(probes, i) && (#[trigger] probes[i]) is NotDirectory implies
        !input_set(probes).contains(probes[i].resolved().unwrap()) by {
        let path = probes[i].resolved().unwrap();
        lemma_input_set_members(probes, path);
        if input_set(probes).contains(path) {
            let k = choose|k: int| kept(probes, k) && #[trigger] probes[k].resolved() == Some(path);
            // Two first appearances of one path are one and the same.
            if k < i {
                assert(probes[k].resolved() != probes[i].resolved());
            } else if i < k {
                assert(probes[i].resolved() != probes[k].resolved());
            }
        }
    }
    if probes.len() > 0 {
        let head = probes.drop_last();
        let n = probes.len() - 1;
        law_input_set_is_unique_directories(head);
        if kept(probes, n) {
            let path = probes[n]->Directory_0;
            lemma_input_set_members(head, path);
            if input_set(head).contains(path) {
                let i = choose|i: int| kept(head, i) && #[trigger] head[i].resolved() == Some(path);
                assert(head[i] == probes[i]);
                assert(probes[i].resolved() != probes[n].resolved());
            }
            let before = input_set(head);
            let grown = before.push(path);
            assert forall|a: int, b: int|
                0 <= a < grown.len() && 0 <= b < grown.len() && a != b implies grown[a]
                    != grown[b] by {
                if a == before.len() {
                    assert(before.contains(before[b]));
                } else if b == before.len() {
                    assert(before.contains(before[a]));
                }
            }
        }
    }
}

/// The directories to scan: absolute paths, each once, in the order in which
/// the arguments first named them.
#[derive(Debug, PartialEq, Eq)]
pub struct InputSet {
    paths: Vec<String>,
}

impl View for InputSet {
    type V = Seq<Seq<char>>;

    closed spec fn view(&self) -> Seq<Seq<char>> {
        self.paths.deep_view()
    }
}

impl InputSet {
    #[verifier::type_invariant]
    spec fn well_formed(self) -> bool {
        self.paths.deep_view().no_duplicates()
    }

    /// How many directories the set holds.
    pub fn len(&self) -> (n: usize)
        ensures
            n == self@.len(),
    {
        self.paths.len()
    }

    /// The directory at position `i`, if there is one.
    pub fn get(&self, i: usize) -> (r: Option<&str>)
        ensures
            self@.no_duplicates(),
            i < self@.len() ==> r is Some && r.unwrap()@ == self@[i as int],
            i >= self@.len() ==> r is None,
    {
        proof {
            use_type_invariant(self);
        }
        if i < self.paths.len() {
            Some(self.paths[i].as_str())
        } else {
            None
        }
    }

    /// The directories, in order.
    pub fn paths(&self) -> (r: &Vec<String>)
        ensures
            r.deep_view() == self@,
            self@.no_duplicates(),
    {
        proof {
            use_type_invariant(self);
        }
        &self.paths
    }

    /// Whether `path` is one of the directories.
    pub fn contains(&self, path: &str) -> (r: bool)
        ensures
            r == self@.contains(path@),
    {
        holds(&self.paths, path)
    }
}

/// What resolution leaves: the directories to scan and the messages about
/// the arguments that were dropped.
#[derive(Debug, PartialEq, Eq)]
pub struct Resolution {
    /// The directories to scan.
    pub directories: InputSet,
    /// One message for each argument that was dropped for a reason the user
    /// should hear.
    pub diagnostics: Vec<Diagnostic>,
}

fn holds(paths: &Vec<String>, path: &str) -> (r: bool)
    ensures
        r == paths.deep_view().contains(path@),
{
    let mut i: usize = 0;
    while i < paths.len()
        invariant
            i <= paths.len(),
            forall|k: int| 0 <= k < i ==> paths.deep_view()[k] != path@,
        decreases paths.len() - i,
    {
        if crate::text::same_text(paths[i].as_str(), path) {
            assert(paths.deep_view()[i as int] == path@);
            return true;
        }
        i += 1;
    }
    false
}

/// Builds the input set from the probes of the arguments, in argument order.
pub fn resolve(probes: &Vec<PathProbe>) -> (r: Resolution)
    ensures
        r.directories@ == input_set(views_of(probes@)),
        r.diagnostics@ == resolution_diagnostics(views_of(probes@)),
        r.directories@.no_duplicates(),
        forall|path: Seq<char>| #[trigger]
            r.directories@.contains(path) ==> exists|i: int|
                0 <= i < probes.len() && #[trigger] probes[i]@ == ProbeView::Directory(path),
{
    let ghost all = views_of(probes@);
    let mut seen: Vec<String> = Vec::new();
    let mut paths: Vec<String> = Vec::new();
    let mut diagnostics: Vec<Diagnostic> = Vec::new();
    let mut i: usize = 0;
    assert(all.take(0) =~= Seq::<ProbeView>::empty());
    assert(paths.deep_view() =~= input_set(all.take(0)));
    while i < probes.len()
        invariant
            i <= probes.len(),
            all == views_of(probes@),
            paths.deep_view() == input_set(all.take(i as int)),
            diagnostics@ == resolution_diagnostics(all.take(i as int)),
            forall|p: Seq<char>| #[trigger]
                seen.deep_view().contains(p) <==> exists|j: int|
                    0 <= j < i && (#[trigger] all[j]).resolved() == Some(p),
        decreases probes.len() - i,
    {
        let ghost head = all.take(i as int);
        let ghost next = all.take(i + 1);
        let ghost old_seen = seen.deep_view();
        proof {
            assert(next.drop_last() =~= head);
            assert(next.last() == all[i as int]);
            assert(all[i as int] == probes@[i as int]@);
            lemma_first_seen_prefix(all, i + 1, i as int);
        }
        match &probes[i] {
            PathProbe::Unresolvable => {
                diagnostics.push(Diagnostic::Unresolvable { argument: i });
                proof {
                    assert forall|p: Seq<char>| #[trigger]
                        old_seen.contains(p) <==> exists|j: int|
                            0 <= j < i + 1 && (#[trigger] all[j]).resolved() == Some(p) by {
                        if exists|j: int|
                            0 <= j < i + 1 && (#[trigger] all[j]).resolved() == Some(p) {
                            let j = choose|j: int|
                                0 <= j < i + 1 && (#[trigger] all[j]).resolved() == Some(p);
                            assert(j < i);
                        }
                    }
                }
            },
            PathProbe::NotDirectory(path) => {
                let known = holds(&seen, path.as_str());
                proof {
                    lemma_first_matches_seen(all, i as int, old_seen);
                }
                if !known {
                    diagnostics.push(Diagnostic::NotADirectory { argument: i });
                    seen.push(path.clone());
                    proof {
                        lemma_seen_grows(all, i as int, old_seen, seen.deep_view());
                    }
                } else {
                    proof {
                        lemma_seen_stays(all, i as int, old_seen);
                    }
                }
            },
            PathProbe::Directory(path) => {
                let known = holds(&seen, path.as_str());
                proof {
                    lemma_first_matches_seen(all, i as int, old_seen);
                }
                if !known {
                    let ghost before = paths.deep_view();
                    paths.push(path.clone());
                    seen.push(path.clone());
                    proof {
                        assert(paths.deep_view() =~= before.push(path@));
                        lemma_seen_grows(all, i as int, old_seen, seen.deep_view());
                    }
                } else {
                    proof {
                        lemma_seen_stays(all, i as int, old_seen);
                    }
                }
            },
        }
        i += 1;
    }
    proof {
        assert(all.take(i as int) =~= all);
        law_input_set_is_unique_directories(all);
        assert forall|path: Seq<char>| #[trigger] input_set(all).contains(path) implies exists|
            i: int,
        |
            0 <= i < probes.len() && #[trigger] probes[i]@ == ProbeView::Directory(path) by {
            let i = choose|i: int|
                first_seen(all, i) && #[trigger] all[i] == ProbeView::Directory(path);
            assert(probes[i]@ == all[i]);
        }
    }
    Resolution { directories: InputSet { paths }, diagnostics }
}

/// With `seen` holding the paths resolved before `i`, the probe at `i` is
/// first seen exactly when its path is not in `seen`.
proof fn lemma_first_matches_seen(all: Seq<ProbeView>, i: int, seen: Seq<Seq<char>>)
    requires
        0 <= i < all.len(),
        all[i].resolved() is Some,
        forall|p: Seq<char>| #[trigger]
            seen.contains(p) <==> exists|j: int|
                0 <= j < i && (#[trigger] all[j]).resolved() == Some(p),
    ensures
        first_seen(all, i) == !seen.contains(all[i].resolved().unwrap()),
{
    let path = all[i].resolved().unwrap();
    if seen.contains(path) {
        let j = choose|j: int| 0 <= j < i && (#[trigger] all[j]).resolved() == Some(path);
        assert(all[j].resolved() == all[i].resolved());
    }
}

/// Adding the path of the probe at `i` to `seen` extends what `seen` holds
/// to the paths resolved up to and including `i`.
proof fn lemma_seen_grows(
    all: Seq<ProbeView>,
    i: int,
    seen: Seq<Seq<char>>,
    grown: Seq<Seq<char>>,
)
    requires
        0 <= i < all.len(),
        all[i].resolved() is Some,
        grown =~= seen.push(all[i].resolved().unwrap()),
        forall|p: Seq<char>| #[trigger]
            seen.contains(p) <==> exists|j: int|
                0 <= j < i && (#[trigger] all[j]).resolved() == Some(p),
    ensures
        forall|p: Seq<char>| #[trigger]
            grown.contains(p) <==> exists|j: int|
                0 <= j < i + 1 && (#[trigger] all[j]).resolved() == Some(p),
{
    let path = all[i].resolved().unwrap();
    assert forall|p: Seq<char>| #[trigger]
        grown.contains(p) <==> exists|j: int|
            0 <= j < i + 1 && (#[trigger] all[j]).resolved() == Some(p) by {
        if grown.contains(p) {
            let k = choose|k: int| 0 <= k < grown.len() && grown[k] == p;
            if k < seen.len() {
                assert(seen[k] == p);
                assert(seen.contains(p));
                let j = choose|j: int| 0 <= j < i && (#[trigger] all[j]).resolved() == Some(p);
                assert(0 <= j < i + 1 && all[j].resolved() == Some(p));
            } else {
                assert(all[i].resolved() == Some(p));
            }
        }
        if exists|j: int| 0 <= j < i + 1 && (#[trigger] all[j]).resolved() == Some(p) {
            let j = choose|j: int| 0 <= j < i + 1 && (#[trigger] all[j]).resolved() == Some(p);
            if j < i {
                assert(seen.contains(p));
                let k = choose|k: int| 0 <= k < seen.len() && seen[k] == p;
                assert(grown[k] == p);
            } else {
                assert(grown[seen.len() as int] == p);
            }
        }
    }
}

/// Where the path of the probe at `i` is in `seen` already, `seen` holds the
/// paths resolved up to and including `i` as it is.
proof fn lemma_seen_stays(all: Seq<ProbeView>, i: int, seen: Seq<Seq<char>>)
    requires
        0 <= i < all.len(),
        all[i].resolved() is Some,
        seen.contains(all[i].resolved().unwrap()),
        forall|p: Seq<char>| #[trigger]
            seen.contains(p) <==> exists|j: int|
                0 <= j < i && (#[trigger] all[j]).resolved() == Some(p),
    ensures
        forall|p: Seq<char>| #[trigger]
            seen.contains(p) <==> exists|j: int|
                0 <= j < i + 1 && (#[trigger] all[j]).resolved() == Some(p),
{
    assert forall|p: Seq<char>| #[trigger]
        seen.contains(p) <==> exists|j: int|
            0 <= j < i + 1 && (#[trigger] all[j]).resolved() == Some(p) by {
        if seen.contains(p) {
            let j = choose|j: int| 0 <= j < i && (#[trigger] all[j]).resolved() == Some(p);
            assert(0 <= j < i + 1 && all[j].resolved() == Some(p));
        }
        if exists|j: int| 0 <= j < i + 1 && (#[trigger] all[j]).resolved() == Some(p) {
            let j = choose|j: int| 0 <= j < i + 1 && (#[trigger] all[j]).resolved() == Some(p);
            if j == i {
                assert(seen.contains(p));
            }
        }
    }
}

} // verus!
