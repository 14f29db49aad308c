//! The tree resolver: decides, entry by entry, how a source tree is linked
//! into a destination tree.
//!
//! A [`Snapshot`] lists the entries of a source tree, each with its parent,
//! together with what the destination holds at the same relative path. The
//! resolver walks it in order and gives every entry that it reaches a
//! [`LinkDecision`]. It descends only where both sides are real directories.
use vstd::prelude::*;
use crate::paths::{child_path, comps, join_path, same_path};

verus! {

/// The type of a filesystem entry, as `lstat` reports it (symlinks are not
/// followed).
#[derive(Debug)]
pub enum Kind {
    File,
    Dir,
    Symlink { target: Vec<String> },
    Other,
}

/// One source entry, with what the destination holds at the same relative
/// path (`None` where it holds nothing).
pub struct Entry {
    pub parent: Option<usize>,
    pub name: String,
    pub src: Kind,
    pub dest: Option<Kind>,
}

/// The three decisions the resolver makes about a source entry.
#[derive(Clone, Copy, Debug, PartialEq, Eq, Structural)]
pub enum Verdict {
    /// Nothing stands at the destination: a link can be made.
    Linkable,
    /// The destination is a symlink to this very source path.
    AlreadyLinked,
    /// Something else occupies the destination.
    Conflict,
}

/// A decision about one source entry.
#[derive(Debug)]
pub struct LinkDecision {
    pub verdict: Verdict,
    pub src_path: Vec<String>,
    pub dest_path: Vec<String>,
}

/// What a decision says, over path components.
pub ghost struct DecisionView {
    pub verdict: Verdict,
    pub src: Seq<Seq<char>>,
    pub dest: Seq<Seq<char>>,
}

impl View for LinkDecision {
    type V = DecisionView;

    open spec fn view(&self) -> DecisionView {
        DecisionView { verdict: self.verdict, src: comps(self.src_path@), dest: comps(self.dest_path@) }
    }
}

/// The decisions for a source tree, in the order of its entries, and whether
/// the tree can be linked without force.
pub struct Resolution {
    pub decisions: Vec<LinkDecision>,
    pub feasible: bool,
}

/// Whether `k` is a symlink whose target has the components `p`.
pub open spec fn links_to(k: Option<Kind>, p: Seq<Seq<char>>) -> bool {
    match k {
        Some(Kind::Symlink { target }) => comps(target@) == p,
        _ => false,
    }
}

/// Whether an entry is a real directory on both sides.
pub open spec fn pairs_dirs(e: Entry) -> bool {
    e.src is Dir && e.dest == Some(Kind::Dir)
}

/// Whether the walk descends into an entry whose source is `src` and whose
/// destination holds `dest`: both must be real directories.
pub fn descends(src: &Kind, dest: &Option<Kind>) -> (r: bool)
    ensures
        r == (*src is Dir && *dest == Some(Kind::Dir)),
{
    matches!(src, Kind::Dir) && matches!(dest, Some(Kind::Dir))
}

/// Each entry's parent comes before it and is a source directory, and no two
/// entries with one parent share a name.
pub open spec fn well_formed(es: Seq<Entry>) -> bool {
    &&& forall|i: int|
        #![trigger es[i].parent]
        0 <= i < es.len() && es[i].parent is Some ==> {
            let p = es[i].parent->0 as int;
            p < i && es[p].src is Dir
        }
    &&& forall|i: int, j: int|
        0 <= i < es.len() && 0 <= j < es.len() && i != j && es[i].parent == es[j].parent
            ==> es[i].name@ != es[j].name@
}

/// The path of entry `i` relative to the roots.
pub open spec fn rel(es: Seq<Entry>, i: int) -> Seq<Seq<char>>
    decreases i,
{
    if 0 <= i < es.len() {
        match es[i].parent {
            Some(p) => if (p as int) < i {
                rel(es, p as int).push(es[i].name@)
            } else {
                seq![es[i].name@]
            },
            None => seq![es[i].name@],
        }
    } else {
        seq![]
    }
}

/// Whether the resolver descends into entry `i`: it and all its ancestors are
/// real directories on both sides.
pub open spec fn open_dir(es: Seq<Entry>, i: int) -> bool
    decreases i,
{
    if 0 <= i < es.len() && pairs_dirs(es[i]) {
        match es[i].parent {
            Some(p) => if (p as int) < i {
                open_dir(es, p as int)
            } else {
                false
            },
            None => true,
        }
    } else {
        false
    }
}

/// Whether the resolver comes to entry `i`: it stands at the top, or its
/// parent is descended into.
pub open spec fn reached(es: Seq<Entry>, i: int) -> bool {
    match es[i].parent {
        Some(p) => open_dir(es, p as int),
        None => true,
    }
}

/// Whether entry `i` gets a decision of its own.
pub open spec fn decided(es: Seq<Entry>, i: int) -> bool {
    0 <= i < es.len() && reached(es, i) && !pairs_dirs(es[i])
}

/// The verdict on entry `i`, whose source lies under `src_root`.
pub open spec fn verdict_of(src_root: Seq<Seq<char>>, es: Seq<Entry>, i: int) -> Verdict {
    if es[i].dest is None {
        Verdict::Linkable
    } else if links_to(es[i].dest, src_root + rel(es, i)) {
        Verdict::AlreadyLinked
    } else {
        Verdict::Conflict
    }
}

/// The decision on entry `i`.
pub open spec fn decision_of(
    src_root: Seq<Seq<char>>,
    dest_root: Seq<Seq<char>>,
    es: Seq<Entry>,
    i: int,
) -> DecisionView {
    DecisionView {
        verdict: verdict_of(src_root, es, i),
        src: src_root + rel(es, i),
        dest: dest_root + rel(es, i),
    }
}

/// The decisions on the first `n` entries, in order.
pub open spec fn plan_upto(
    src_root: Seq<Seq<char>>,
    dest_root: Seq<Seq<char>>,
    es: Seq<Entry>,
    n: int,
) -> Seq<DecisionView>
    decreases n,
{
    if n <= 0 {
        seq![]
    } else if decided(es, n - 1) {
        plan_upto(src_root, dest_root, es, n - 1).push(decision_of(src_root, dest_root, es, n - 1))
    } else {
        plan_upto(src_root, dest_root, es, n - 1)
    }
}

/// The decisions on all entries, in order.
pub open spec fn plan(src_root: Seq<Seq<char>>, dest_root: Seq<Seq<char>>, es: Seq<Entry>) -> Seq<
    DecisionView,
> {
    plan_upto(src_root, dest_root, es, es.len() as int)
}

/// Whether no entry decided among the first `n` is a conflict.
pub open spec fn feasible_upto(src_root: Seq<Seq<char>>, es: Seq<Entry>, n: int) -> bool {
    forall|i: int|
        0 <= i < n && #[trigger] decided(es, i) ==> verdict_of(src_root, es, i) != Verdict::Conflict
}

/// Feasibility up to `i + 1` adds entry `i` to feasibility up to `i`.
proof fn lemma_feasible_step(src_root: Seq<Seq<char>>, es: Seq<Entry>, i: int)
    requires
        0 <= i,
    ensures
        feasible_upto(src_root, es, i + 1) == (feasible_upto(src_root, es, i) && !(decided(es, i)
            && verdict_of(src_root, es, i) == Verdict::Conflict)),
{
    if decided(es, i) && verdict_of(src_root, es, i) == Verdict::Conflict {
        assert(!feasible_upto(src_root, es, i + 1));
    } else if feasible_upto(src_root, es, i) {
        assert forall|k: int|
            0 <= k < i + 1 && #[trigger] decided(es, k) implies verdict_of(src_root, es, k)
                != Verdict::Conflict by {
            if k < i {
                assert(0 <= k < i && decided(es, k));
            }
        }
    } else {
        let k = choose|k: int|
            0 <= k < i && #[trigger] decided(es, k) && verdict_of(src_root, es, k)
                == Verdict::Conflict;
        assert(0 <= k < i + 1 && decided(es, k));
    }
}

/// A source tree and what its destination holds, ready to be resolved.
pub struct Snapshot {
    src_root: Vec<String>,
    dest_root: Vec<String>,
    entries: Vec<Entry>,
}

impl Snapshot {
    /// The path of the source directory.
    pub closed spec fn src_root(&self) -> Seq<Seq<char>> {
        comps(self.src_root@)
    }

    /// The path of the destination directory.
    pub closed spec fn dest_root(&self) -> Seq<Seq<char>> {
        comps(self.dest_root@)
    }

    /// The entries, in the order they were added.
    pub closed spec fn entries(&self) -> Seq<Entry> {
        self.entries@
    }

    /// The entries form a tree, with unique names among siblings.
    pub open spec fn wf(&self) -> bool {
        well_formed(self.entries())
    }

    /// The decisions that resolving this snapshot gives.
    pub open spec fn plan(&self) -> Seq<DecisionView> {
        plan(self.src_root(), self.dest_root(), self.entries())
    }

    /// Whether no decision is a conflict.
    pub open spec fn feasible(&self) -> bool {
        feasible_upto(self.src_root(), self.entries(), self.entries().len() as int)
    }

    /// A snapshot of the source directory `src_root` against the destination
    /// directory `dest_root`, with no entries yet.
    pub fn new(src_root: Vec<String>, dest_root: Vec<String>) -> (r: Snapshot)
        ensures
            r.wf(),
            r.src_root() == comps(src_root@),
            r.dest_root() == comps(dest_root@),
            r.entries().len() == 0,
    {
        let r = Snapshot { src_root, dest_root, entries: Vec::new() };
        assert(well_formed(r.entries@));
        r
    }

    /// Whether an entry named `name` may be added under `parent`: the parent,
    /// if any, is an entry that is a source directory, and no entry under it
    /// has that name yet.
    pub open spec fn accepts(&self, parent: Option<usize>, name: Seq<char>) -> bool {
        &&& parent matches Some(p) ==> p < self.entries().len() && self.entries()[p as int].src is Dir
        &&& forall|j: int|
            0 <= j < self.entries().len() && #[trigger] self.entries()[j].parent == parent
                ==> self.entries()[j].name@ != name
    }

    /// The number of entries.
    pub fn len(&self) -> (r: usize)
        ensures
            r == self.entries().len(),
    {
        self.entries.len()
    }

    /// Adds an entry and returns its index, or returns `None` and leaves the
    /// snapshot as it is where the entry is not accepted.
    pub fn add(&mut self, parent: Option<usize>, name: String, src: Kind, dest: Option<Kind>) -> (r:
        Option<usize>)
        requires
            old(self).wf(),
        ensures
            final(self).wf(),
            final(self).src_root() == old(self).src_root(),
            final(self).dest_root() == old(self).dest_root(),
            old(self).accepts(parent, name@) ==> r == Some(old(self).entries().len() as usize)
                && final(self).entries() == old(self).entries().push(
                (Entry { parent, name, src, dest }),
            ),
            !old(self).accepts(parent, name@) ==> r is None && final(self).entries() == old(
                self,
            ).entries(),
    {
        let n = self.entries.len();
        if let Some(p) = parent {
            if p >= n {
                return None;
            }
            if !matches!(self.entries[p].src, Kind::Dir) {
                return None;
            }
        }
        let mut j: usize = 0;
        while j < n
            invariant
                old(self).wf(),
                self.entries@ == old(self).entries@,
                self.src_root@ == old(self).src_root@,
                self.dest_root@ == old(self).dest_root@,
                n == self.entries@.len(),
                j <= n,
                forall|k: int|
                    0 <= k < j && #[trigger] self.entries@[k].parent == parent
                        ==> self.entries@[k].name@ != name@,
            decreases n - j,
        {
            let e = &self.entries[j];
            let same_parent = match (e.parent, parent) {
                (Some(a), Some(b)) => a == b,
                (None, None) => true,
                _ => false,
            };
            if same_parent && e.name == name {
                return None;
            }
            j = j + 1;
        }
        let ghost before = self.entries@;
        self.entries.push(Entry { parent, name, src, dest });
        assert(self.entries@ == before.push(Entry { parent, name, src, dest }));
        assert(well_formed(self.entries@)) by {
            assert forall|i: int|
                0 <= i < self.entries@.len() && #[trigger] self.entries@[i].parent is Some implies {
                let p = self.entries@[i].parent->0 as int;
                p < i && self.entries@[p].src is Dir
            } by {
                if i < n {
                    assert(self.entries@[i] == before[i]);
                }
            }
        }
        Some(n)
    }

    /// Decides every entry that the walk reaches, in order.
    pub fn resolve(&self) -> (r: Resolution)
        requires
            self.wf(),
        ensures
            r.decisions@.map_values(|d: LinkDecision| d@) == self.plan(),
            r.feasible == self.feasible(),
    {
        let n = self.entries.len();
        let ghost src_root = self.src_root();
        let ghost dest_root = self.dest_root();
        let ghost es = self.entries@;
        let mut paths: Vec<Vec<String>> = Vec::new();
        let mut open: Vec<bool> = Vec::new();
        let mut decisions: Vec<LinkDecision> = Vec::new();
        let mut feasible = true;
        let mut i: usize = 0;
        while i < n
            invariant
                n == es.len(),
                es == self.entries@,
                well_formed(es),
                src_root == comps(self.src_root@),
                dest_root == comps(self.dest_root@),
                i <= n,
                paths@.len() == i,
                open@.len() == i,
                forall|k: int| 0 <= k < i ==> comps(#[trigger] paths@[k]@) == rel(es, k),
                forall|k: int| 0 <= k < i ==> #[trigger] open@[k] == open_dir(es, k),
                decisions@.map_values(|d: LinkDecision| d@) == plan_upto(
                    src_root,
                    dest_root,
                    es,
                    i as int,
                ),
                feasible == feasible_upto(src_root, es, i as int),
            decreases n - i,
        {
            let e = &self.entries[i];
            let rel_path;
            let is_reached;
            match e.parent {
                Some(p) => {
                    rel_path = child_path(&paths[p], &e.name);
                    is_reached = open[p];
                },
                None => {
                    rel_path = vec![e.name.clone()];
                    assert(comps(rel_path@) =~= seq![e.name@]);
                    is_reached = true;
                },
            }
            let both_dirs = matches!(e.src, Kind::Dir) && match &e.dest {
                Some(Kind::Dir) => true,
                _ => false,
            };
            assert(both_dirs == pairs_dirs(es[i as int]));
            assert(comps(rel_path@) == rel(es, i as int));
            assert(is_reached == reached(es, i as int));
            let ghost before = decisions@.map_values(|d: LinkDecision| d@);
            if is_reached && !both_dirs {
                let src_path = join_path(&self.src_root, &rel_path);
                let dest_path = join_path(&self.dest_root, &rel_path);
                let verdict = match &e.dest {
                    None => Verdict::Linkable,
                    Some(Kind::Symlink { target }) => if same_path(target, &src_path) {
                        Verdict::AlreadyLinked
                    } else {
                        Verdict::Conflict
                    },
                    Some(_) => Verdict::Conflict,
                };
                if verdict == Verdict::Conflict {
                    feasible = false;
                }
                let d = LinkDecision { verdict, src_path, dest_path };
                assert(d@ == decision_of(src_root, dest_root, es, i as int));
                decisions.push(d);
                assert(decisions@.map_values(|d: LinkDecision| d@) =~= before.push(
                    decision_of(src_root, dest_root, es, i as int),
                ));
            }
            proof {
                lemma_feasible_step(src_root, es, i as int);
            }
            open.push(is_reached && both_dirs);
            paths.push(rel_path);
            i = i + 1;
        }
        Resolution { decisions, feasible }
    }
}

} // verus!
