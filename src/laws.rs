//! Properties of the resolver that relate several entries or several runs.
use vstd::prelude::*;
use crate::execute::{inspect_step, permitted, remove_step, Op, Outcome, Step};
use crate::resolve::{
    decided, decision_of, feasible_upto, links_to, open_dir, pairs_dirs, plan, plan_upto, reached,
    rel, verdict_of, well_formed, Entry, Kind, Verdict,
};

verus! {

/// A relative path has at least one component.
proof fn lemma_rel_nonempty(es: Seq<Entry>, i: int)
    requires
        well_formed(es),
        0 <= i < es.len(),
    ensures
        rel(es, i).len() >= 1,
    decreases i,
{
    if let Some(p) = es[i].parent {
        assert(es[i].parent is Some);
        lemma_rel_nonempty(es, p as int);
    }
}

/// Distinct entries have distinct relative paths.
pub proof fn lemma_rel_injective(es: Seq<Entry>, i: int, j: int)
    requires
        well_formed(es),
        0 <= i < es.len(),
        0 <= j < es.len(),
        rel(es, i) == rel(es, j),
    ensures
        i == j,
    decreases i + j,
{
    assert(es[i].parent is Some ==> (es[i].parent->0 as int) < i);
    assert(es[j].parent is Some ==> (es[j].parent->0 as int) < j);
    match (es[i].parent, es[j].parent) {
        (Some(p), Some(q)) => {
            lemma_rel_nonempty(es, p as int);
            lemma_rel_nonempty(es, q as int);
            assert(rel(es, p as int) == rel(es, i).drop_last());
            assert(rel(es, q as int) == rel(es, j).drop_last());
            lemma_rel_injective(es, p as int, q as int);
            assert(es[i].name@ == rel(es, i).last());
            assert(es[j].name@ == rel(es, j).last());
            if i != j {
                assert(es[i].parent == es[j].parent);
                assert(es[i].name@ != es[j].name@);
            }
        },
        (Some(p), None) => {
            lemma_rel_nonempty(es, p as int);
            assert(rel(es, i).len() >= 2 && rel(es, j).len() == 1);
        },
        (None, Some(q)) => {
            lemma_rel_nonempty(es, q as int);
            assert(rel(es, j).len() >= 2 && rel(es, i).len() == 1);
        },
        (None, None) => {
            assert(es[i].name@ == rel(es, i)[0]);
            assert(es[j].name@ == rel(es, j)[0]);
            if i != j {
                assert(es[i].name@ != es[j].name@);
            }
        },
    }
}

/// Every decision among the first `n` entries is the decision on one of them.
proof fn lemma_plan_from_entries(
    src_root: Seq<Seq<char>>,
    dest_root: Seq<Seq<char>>,
    es: Seq<Entry>,
    n: int,
    k: int,
)
    requires
        0 <= n <= es.len(),
        0 <= k < plan_upto(src_root, dest_root, es, n).len(),
    ensures
        exists|i: int|
            0 <= i < n && decided(es, i) && plan_upto(src_root, dest_root, es, n)[k]
                == decision_of(src_root, dest_root, es, i),
    decreases n,
{
    if n > 0 {
        let prev = plan_upto(src_root, dest_root, es, n - 1);
        if k < prev.len() {
            lemma_plan_from_entries(src_root, dest_root, es, n - 1, k);
        } else {
            assert(decided(es, n - 1));
        }
    }
}

/// Every entry decided among the first `n` has its decision in the plan.
proof fn lemma_entries_in_plan(
    src_root: Seq<Seq<char>>,
    dest_root: Seq<Seq<char>>,
    es: Seq<Entry>,
    n: int,
    i: int,
)
    requires
        0 <= i < n <= es.len(),
        decided(es, i),
    ensures
        exists|k: int|
            0 <= k < plan_upto(src_root, dest_root, es, n).len() && plan_upto(
                src_root,
                dest_root,
                es,
                n,
            )[k] == decision_of(src_root, dest_root, es, i),
    decreases n,
{
    let prev = plan_upto(src_root, dest_root, es, n - 1);
    if i < n - 1 {
        lemma_entries_in_plan(src_root, dest_root, es, n - 1, i);
        let k = choose|k: int| 0 <= k < prev.len() && prev[k] == decision_of(src_root, dest_root, es, i);
        assert(plan_upto(src_root, dest_root, es, n)[k] == prev[k]);
    } else {
        assert(plan_upto(src_root, dest_root, es, n)[prev.len() as int] == decision_of(
            src_root,
            dest_root,
            es,
            i,
        ));
    }
}

/// No two decisions among the first `n` entries share a source path.
proof fn lemma_plan_sources_distinct(
    src_root: Seq<Seq<char>>,
    dest_root: Seq<Seq<char>>,
    es: Seq<Entry>,
    n: int,
)
    requires
        well_formed(es),
        0 <= n <= es.len(),
    ensures
        forall|k1: int, k2: int|
            0 <= k1 < plan_upto(src_root, dest_root, es, n).len() && 0 <= k2 < plan_upto(
                src_root,
                dest_root,
                es,
                n,
            ).len() && (#[trigger] plan_upto(src_root, dest_root, es, n)[k1]).src == (
            #[trigger] plan_upto(src_root, dest_root, es, n)[k2]).src ==> k1 == k2,
    decreases n,
{
    if n > 0 {
        lemma_plan_sources_distinct(src_root, dest_root, es, n - 1);
        let prev = plan_upto(src_root, dest_root, es, n - 1);
        if decided(es, n - 1) {
            let cur = plan_upto(src_root, dest_root, es, n);
            let d = decision_of(src_root, dest_root, es, n - 1);
            assert forall|k: int| 0 <= k < prev.len() implies prev[k].src != d.src by {
                lemma_plan_from_entries(src_root, dest_root, es, n - 1, k);
                let i = choose|i: int|
                    0 <= i < n - 1 && decided(es, i) && prev[k] == decision_of(
                        src_root,
                        dest_root,
                        es,
                        i,
                    );
                if prev[k].src == d.src {
                    assert(rel(es, i) =~= prev[k].src.subrange(
                        src_root.len() as int,
                        prev[k].src.len() as int,
                    ));
                    assert(rel(es, n - 1) =~= d.src.subrange(
                        src_root.len() as int,
                        d.src.len() as int,
                    ));
                    lemma_rel_injective(es, i, n - 1);
                }
            }
            assert forall|k1: int, k2: int|
                0 <= k1 < cur.len() && 0 <= k2 < cur.len() && (#[trigger] cur[k1]).src == (
                #[trigger] cur[k2]).src implies k1 == k2 by {
                if k1 < prev.len() && k2 < prev.len() {
                    assert(cur[k1] == prev[k1] && cur[k2] == prev[k2]);
                } else if k1 < prev.len() {
                    assert(cur[k1] == prev[k1]);
                } else if k2 < prev.len() {
                    assert(cur[k2] == prev[k2]);
                }
            }
        }
    }
}

/// Completeness: every file or symlink of the source tree that the walk
/// reaches appears in the decisions exactly once, under its own source path.
pub proof fn lemma_leaf_decided_once(
    src_root: Seq<Seq<char>>,
    dest_root: Seq<Seq<char>>,
    es: Seq<Entry>,
    i: int,
)
    requires
        well_formed(es),
        0 <= i < es.len(),
        !(es[i].src is Dir),
        reached(es, i),
    ensures
        exists|k: int|
            0 <= k < plan(src_root, dest_root, es).len() && plan(src_root, dest_root, es)[k]
                == decision_of(src_root, dest_root, es, i),
        forall|k1: int, k2: int|
            0 <= k1 < plan(src_root, dest_root, es).len() && 0 <= k2 < plan(
                src_root,
                dest_root,
                es,
            ).len() && (#[trigger] plan(src_root, dest_root, es)[k1]).src == src_root + rel(es, i)
                && (#[trigger] plan(src_root, dest_root, es)[k2]).src == src_root + rel(es, i)
                ==> k1 == k2,
{
    assert(decided(es, i));
    lemma_entries_in_plan(src_root, dest_root, es, es.len() as int, i);
    lemma_plan_sources_distinct(src_root, dest_root, es, es.len() as int);
}

/// Whether entry `a` is a proper ancestor of entry `i`.
pub open spec fn is_ancestor(es: Seq<Entry>, a: int, i: int) -> bool
    decreases i,
{
    if 0 <= i < es.len() {
        match es[i].parent {
            Some(p) => if (p as int) < i {
                p as int == a || is_ancestor(es, a, p as int)
            } else {
                false
            },
            None => false,
        }
    } else {
        false
    }
}

/// Whether no decided entry below entry `a` is a conflict.
pub open spec fn subtree_feasible(src_root: Seq<Seq<char>>, es: Seq<Entry>, a: int) -> bool {
    forall|i: int|
        #[trigger] is_ancestor(es, a, i) && decided(es, i) ==> verdict_of(src_root, es, i)
            != Verdict::Conflict
}

/// Conflict propagation: one conflicting entry anywhere in the tree makes
/// every directory above it infeasible, up to the whole tree.
pub proof fn lemma_conflict_makes_infeasible(src_root: Seq<Seq<char>>, es: Seq<Entry>, i: int)
    requires
        decided(es, i),
        verdict_of(src_root, es, i) == Verdict::Conflict,
    ensures
        forall|a: int| is_ancestor(es, a, i) ==> !#[trigger] subtree_feasible(src_root, es, a),
        !feasible_upto(src_root, es, es.len() as int),
{
    assert forall|a: int| is_ancestor(es, a, i) implies !#[trigger] subtree_feasible(
        src_root,
        es,
        a,
    ) by {
        assert(is_ancestor(es, a, i) && decided(es, i));
    }
}

/// `after` is `before` where each entry of `linked` now has, at its
/// destination, a symlink to its source path, and nothing else changed.
pub open spec fn linked_over(
    src_root: Seq<Seq<char>>,
    before: Seq<Entry>,
    after: Seq<Entry>,
    linked: Set<int>,
) -> bool {
    &&& after.len() == before.len()
    &&& forall|i: int|
        0 <= i < before.len() ==> {
            &&& (#[trigger] after[i]).parent == before[i].parent
            &&& after[i].name@ == before[i].name@
            &&& after[i].src == before[i].src
            &&& if linked.contains(i) {
                links_to(after[i].dest, src_root + rel(before, i))
            } else {
                after[i].dest == before[i].dest
            }
        }
}

proof fn lemma_linked_over_keeps_rel(
    src_root: Seq<Seq<char>>,
    before: Seq<Entry>,
    after: Seq<Entry>,
    linked: Set<int>,
    i: int,
)
    requires
        linked_over(src_root, before, after, linked),
    ensures
        rel(after, i) == rel(before, i),
    decreases i,
{
    if 0 <= i < before.len() {
        assert(after[i].parent == before[i].parent);
        if let Some(p) = before[i].parent {
            if (p as int) < i {
                lemma_linked_over_keeps_rel(src_root, before, after, linked, p as int);
            }
        }
    }
}

proof fn lemma_linked_over_keeps_open(
    src_root: Seq<Seq<char>>,
    before: Seq<Entry>,
    after: Seq<Entry>,
    linked: Set<int>,
    i: int,
)
    requires
        linked_over(src_root, before, after, linked),
        forall|j: int| #[trigger] linked.contains(j) ==> decided(before, j),
    ensures
        open_dir(after, i) == open_dir(before, i),
        0 <= i < before.len() ==> pairs_dirs(after[i]) == pairs_dirs(before[i]),
    decreases i,
{
    if 0 <= i < before.len() {
        assert(after[i].parent == before[i].parent);
        if linked.contains(i) {
            assert(decided(before, i));
            assert(!pairs_dirs(after[i]));
        }
        if let Some(p) = before[i].parent {
            if (p as int) < i {
                lemma_linked_over_keeps_open(src_root, before, after, linked, p as int);
            }
        }
    }
}

/// Idempotence: once the entries of `linked` have been linked, a second
/// resolution decides the same entries, finds every one of `linked` already
/// linked, and gives every other entry the verdict it had.
pub proof fn lemma_relink_is_already_linked(
    src_root: Seq<Seq<char>>,
    before: Seq<Entry>,
    after: Seq<Entry>,
    linked: Set<int>,
)
    requires
        forall|j: int| #[trigger] linked.contains(j) ==> decided(before, j),
        linked_over(src_root, before, after, linked),
    ensures
        forall|i: int| #[trigger] decided(after, i) == decided(before, i),
        forall|i: int|
            #[trigger] linked.contains(i) ==> verdict_of(src_root, after, i)
                == Verdict::AlreadyLinked,
        forall|i: int|
            decided(before, i) && !linked.contains(i) ==> #[trigger] verdict_of(src_root, after, i)
                == verdict_of(src_root, before, i),
{
    assert forall|i: int| #[trigger] decided(after, i) == decided(before, i) by {
        if 0 <= i < before.len() {
            lemma_linked_over_keeps_open(src_root, before, after, linked, i);
            if let Some(p) = before[i].parent {
                assert(after[i].parent == before[i].parent);
                lemma_linked_over_keeps_open(src_root, before, after, linked, p as int);
            }
        }
    }
    assert forall|i: int|
        #[trigger] linked.contains(i) implies verdict_of(src_root, after, i)
            == Verdict::AlreadyLinked by {
        assert(decided(before, i));
        lemma_linked_over_keeps_rel(src_root, before, after, linked, i);
        assert(after[i].parent == before[i].parent);
    }
    assert forall|i: int|
        decided(before, i) && !linked.contains(i) implies #[trigger] verdict_of(
        src_root,
        after,
        i,
    ) == verdict_of(src_root, before, i) by {
        lemma_linked_over_keeps_rel(src_root, before, after, linked, i);
        assert(after[i].parent == before[i].parent);
    }
}

/// No clobbering: without force, no operation at all is asked for on behalf
/// of an entry whose destination was occupied, be it a file, a foreign
/// symlink or anything else.
pub proof fn lemma_no_clobber(src_root: Seq<Seq<char>>, es: Seq<Entry>, i: int)
    requires
        decided(es, i),
        es[i].dest is Some,
    ensures
        forall|op: Op| !permitted(verdict_of(src_root, es, i), false, op),
{
}

/// The force-removal boundary: a directory in the way is only ever removed
/// with a removal that fails on a non-empty directory, no other occupant is
/// removed that way, and a failed removal ends the decision as a removal
/// failure with no link attempted.
pub proof fn lemma_force_removal_boundary(occupant: Option<Kind>, reason: String)
    ensures
        (inspect_step(occupant) == Step::Act(Op::RemoveEmptyDir)) <==> (occupant == Some(Kind::Dir)),
        inspect_step(occupant) is Act,
        remove_step(Err(reason)) == Step::Finish(Outcome::RemoveFailed { reason }),
{
}

} // verus!
