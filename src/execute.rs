//! The link executor, as a state machine.
//!
//! An [`Execution`] holds the decisions of a resolution and asks, one at a
//! time, for the filesystem operation that the current decision needs. The
//! caller performs it and reports what happened; the execution records an
//! [`Outcome`] for each decision in turn. It never asks for a recursive
//! removal: a directory in the way is only ever removed while empty.
use vstd::prelude::*;
use crate::resolve::{Kind, LinkDecision, Verdict};

verus! {

/// A filesystem operation on the destination path of the current decision.
#[derive(Clone, Copy, Debug, PartialEq, Eq, Structural)]
pub enum Op {
    /// Report what occupies the destination, without following symlinks.
    Inspect,
    /// Remove the file or symlink at the destination.
    RemoveFile,
    /// Remove the directory at the destination, which fails unless it is empty.
    RemoveEmptyDir,
    /// Create a symlink at the destination that points to the source path.
    Link,
}

/// How a decision ended.
#[derive(Debug)]
pub enum Outcome {
    /// The destination was free and the link was made.
    Linked,
    /// The occupant was removed (or had gone) and the link was made.
    Forced,
    /// Creating the link failed.
    LinkFailed { reason: String },
    /// Removing the occupant failed; no link was attempted.
    RemoveFailed { reason: String },
    /// A conflict left alone, since force was off.
    Skipped,
    /// The destination already linked to the source; nothing was done.
    Satisfied,
}

/// What follows a decision or an event: an operation, or the end.
#[derive(Debug)]
pub enum Step {
    Act(Op),
    Finish(Outcome),
}

/// The first step for a decision with verdict `v`.
pub open spec fn start_step(v: Verdict, force: bool) -> Step {
    match v {
        Verdict::Linkable => Step::Act(Op::Link),
        Verdict::AlreadyLinked => Step::Finish(Outcome::Satisfied),
        Verdict::Conflict => if force {
            Step::Act(Op::Inspect)
        } else {
            Step::Finish(Outcome::Skipped)
        },
    }
}

/// The step once the occupant of a conflicting destination is known.
pub open spec fn inspect_step(occupant: Option<Kind>) -> Step {
    match occupant {
        Some(Kind::File) => Step::Act(Op::RemoveFile),
        Some(Kind::Symlink { .. }) => Step::Act(Op::RemoveFile),
        Some(Kind::Dir) => Step::Act(Op::RemoveEmptyDir),
        _ => Step::Act(Op::Link),
    }
}

/// The step once a removal has been tried.
pub open spec fn remove_step(result: Result<(), String>) -> Step {
    match result {
        Ok(()) => Step::Act(Op::Link),
        Err(reason) => Step::Finish(Outcome::RemoveFailed { reason }),
    }
}

/// The outcome once a link has been tried for a decision with verdict `v`.
pub open spec fn link_outcome(v: Verdict, result: Result<(), String>) -> Outcome {
    match result {
        Ok(()) => if v == Verdict::Conflict {
            Outcome::Forced
        } else {
            Outcome::Linked
        },
        Err(reason) => Outcome::LinkFailed { reason },
    }
}

/// Whether `op` may be asked for on behalf of a decision with verdict `v`:
/// a link where the destination was free, anything else only on a conflict
/// under force.
pub open spec fn permitted(v: Verdict, force: bool, op: Op) -> bool {
    if op == Op::Link {
        v == Verdict::Linkable || (force && v == Verdict::Conflict)
    } else {
        force && v == Verdict::Conflict
    }
}

/// Records the outcomes of the decisions from `outcomes.len()` on that end
/// without any operation, up to the first that needs one, and gives that
/// operation.
pub open spec fn advance(vs: Seq<Verdict>, force: bool, outcomes: Seq<Outcome>) -> (Seq<Outcome>, Option<Op>)
    decreases vs.len() - outcomes.len(),
{
    if outcomes.len() >= vs.len() {
        (outcomes, None)
    } else {
        match start_step(vs[outcomes.len() as int], force) {
            Step::Act(op) => (outcomes, Some(op)),
            Step::Finish(o) => advance(vs, force, outcomes.push(o)),
        }
    }
}

/// The state after `step` for the current decision.
pub open spec fn resume(vs: Seq<Verdict>, force: bool, outcomes: Seq<Outcome>, step: Step) -> (Seq<Outcome>, Option<Op>) {
    match step {
        Step::Act(op) => (outcomes, Some(op)),
        Step::Finish(o) => advance(vs, force, outcomes.push(o)),
    }
}

/// The first step for a decision.
pub fn start(v: Verdict, force: bool) -> (r: Step)
    ensures
        r == start_step(v, force),
{
    match v {
        Verdict::Linkable => Step::Act(Op::Link),
        Verdict::AlreadyLinked => Step::Finish(Outcome::Satisfied),
        Verdict::Conflict => if force {
            Step::Act(Op::Inspect)
        } else {
            Step::Finish(Outcome::Skipped)
        },
    }
}

/// The step once the occupant of a conflicting destination is known.
pub fn after_inspect(occupant: &Option<Kind>) -> (r: Step)
    ensures
        r == inspect_step(*occupant),
{
    match occupant {
        Some(Kind::File) => Step::Act(Op::RemoveFile),
        Some(Kind::Symlink { .. }) => Step::Act(Op::RemoveFile),
        Some(Kind::Dir) => Step::Act(Op::RemoveEmptyDir),
        _ => Step::Act(Op::Link),
    }
}

/// The step once a removal has been tried.
pub fn after_remove(result: Result<(), String>) -> (r: Step)
    ensures
        r == remove_step(result),
{
    match result {
        Ok(()) => Step::Act(Op::Link),
        Err(reason) => Step::Finish(Outcome::RemoveFailed { reason }),
    }
}

/// The outcome once a link has been tried.
pub fn after_link(v: Verdict, result: Result<(), String>) -> (r: Outcome)
    ensures
        r == link_outcome(v, result),
{
    match result {
        Ok(()) => if v == Verdict::Conflict {
            Outcome::Forced
        } else {
            Outcome::Linked
        },
        Err(reason) => Outcome::LinkFailed { reason },
    }
}

/// The verdicts of a list of decisions.
pub open spec fn verdicts(ds: Seq<LinkDecision>) -> Seq<Verdict> {
    ds.map_values(|d: LinkDecision| d.verdict)
}

/// The execution of a list of decisions.
pub struct Execution {
    decisions: Vec<LinkDecision>,
    force: bool,
    outcomes: Vec<Outcome>,
    pending: Option<Op>,
}

impl Execution {
    /// The decisions being executed.
    pub closed spec fn decisions(&self) -> Seq<LinkDecision> {
        self.decisions@
    }

    /// Whether conflicts are forced.
    pub closed spec fn force(&self) -> bool {
        self.force
    }

    /// The outcomes of the decisions done so far, in order.
    pub closed spec fn outcomes(&self) -> Seq<Outcome> {
        self.outcomes@
    }

    /// The operation awaited for the current decision, if any.
    pub closed spec fn pending(&self) -> Option<Op> {
        self.pending
    }

    /// The current decision is the first without an outcome; an operation is
    /// awaited exactly while there is one, and it is permitted for it.
    pub open spec fn wf(&self) -> bool {
        &&& self.outcomes().len() <= self.decisions().len()
        &&& self.pending() is Some <==> self.outcomes().len() < self.decisions().len()
        &&& self.pending() matches Some(op) ==> permitted(
            self.decisions()[self.outcomes().len() as int].verdict,
            self.force(),
            op,
        )
    }

    /// Whether every decision has its outcome.
    pub open spec fn done(&self) -> bool {
        self.outcomes().len() == self.decisions().len()
    }

    proof fn lemma_advance_wf(vs: Seq<Verdict>, force: bool, outcomes: Seq<Outcome>)
        requires
            outcomes.len() <= vs.len(),
        ensures
            ({
                let (os, p) = advance(vs, force, outcomes);
                &&& outcomes.len() <= os.len() <= vs.len()
                &&& (p is Some <==> os.len() < vs.len())
                &&& p matches Some(op) ==> permitted(vs[os.len() as int], force, op)
            }),
        decreases vs.len() - outcomes.len(),
    {
        if outcomes.len() < vs.len() {
            match start_step(vs[outcomes.len() as int], force) {
                Step::Act(op) => {},
                Step::Finish(o) => Self::lemma_advance_wf(vs, force, outcomes.push(o)),
            }
        }
    }

    /// Records outcomes for the decisions that need no operation, up to the
    /// next one that does.
    fn settle(&mut self)
        requires
            old(self).pending() is None,
            old(self).outcomes().len() <= old(self).decisions().len(),
        ensures
            final(self).decisions() == old(self).decisions(),
            final(self).force() == old(self).force(),
            (final(self).outcomes(), final(self).pending()) == advance(
                verdicts(old(self).decisions()),
                old(self).force(),
                old(self).outcomes(),
            ),
    {
        let ghost vs = verdicts(self.decisions@);
        let ghost target = advance(vs, self.force, self.outcomes@);
        while self.outcomes.len() < self.decisions.len()
            invariant
                self.decisions@ == old(self).decisions@,
                self.force == old(self).force,
                vs == verdicts(self.decisions@),
                self.pending is None,
                self.outcomes@.len() <= self.decisions@.len(),
                advance(vs, self.force, self.outcomes@) == target,
                target == advance(verdicts(old(self).decisions@), old(self).force, old(self).outcomes@),
            decreases self.decisions@.len() - self.outcomes@.len(),
        {
            let k = self.outcomes.len();
            assert(vs[k as int] == self.decisions@[k as int].verdict);
            match start(self.decisions[k].verdict, self.force) {
                Step::Act(op) => {
                    assert(advance(vs, self.force, self.outcomes@) == (self.outcomes@, Some(op)));
                    self.pending = Some(op);
                    return;
                },
                Step::Finish(o) => {
                    assert(advance(vs, self.force, self.outcomes@) == advance(
                        vs,
                        self.force,
                        self.outcomes@.push(o),
                    ));
                    self.outcomes.push(o);
                },
            }
        }
    }

    /// Starts executing `decisions`, forcing conflicts where `force` is set.
    pub fn new(decisions: Vec<LinkDecision>, force: bool) -> (r: Execution)
        ensures
            r.wf(),
            r.decisions() == decisions@,
            r.force() == force,
            (r.outcomes(), r.pending()) == advance(verdicts(decisions@), force, seq![]),
    {
        let mut r = Execution { decisions, force, outcomes: Vec::new(), pending: None };
        r.settle();
        proof {
            Self::lemma_advance_wf(verdicts(decisions@), force, seq![]);
        }
        r
    }

    /// The index of the current decision and the operation it awaits, or
    /// `None` once every decision has its outcome.
    pub fn next(&self) -> (r: Option<(usize, Op)>)
        requires
            self.wf(),
        ensures
            r is None <==> self.done(),
            r matches Some((k, op)) ==> k == self.outcomes().len() && Some(op) == self.pending()
                && permitted(self.decisions()[k as int].verdict, self.force(), op),
    {
        match self.pending {
            Some(op) => Some((self.outcomes.len(), op)),
            None => None,
        }
    }

    /// Reports what occupies the destination, after an [`Op::Inspect`].
    pub fn observed(&mut self, occupant: Option<Kind>)
        requires
            old(self).wf(),
            old(self).pending() == Some(Op::Inspect),
        ensures
            final(self).wf(),
            final(self).decisions() == old(self).decisions(),
            final(self).force() == old(self).force(),
            (final(self).outcomes(), final(self).pending()) == resume(
                verdicts(old(self).decisions()),
                old(self).force(),
                old(self).outcomes(),
                inspect_step(occupant),
            ),
    {
        match after_inspect(&occupant) {
            Step::Act(op) => {
                self.pending = Some(op);
            },
            Step::Finish(o) => {
                self.outcomes.push(o);
                self.pending = None;
                self.settle();
                proof {
                    Self::lemma_advance_wf(verdicts(self.decisions@), self.force, old(self).outcomes@.push(o));
                }
            },
        }
    }

    /// Reports the result of an [`Op::RemoveFile`], [`Op::RemoveEmptyDir`]
    /// or [`Op::Link`].
    pub fn finished(&mut self, result: Result<(), String>)
        requires
            old(self).wf(),
            old(self).pending() matches Some(op) && op != Op::Inspect,
        ensures
            final(self).wf(),
            final(self).decisions() == old(self).decisions(),
            final(self).force() == old(self).force(),
            (final(self).outcomes(), final(self).pending()) == resume(
                verdicts(old(self).decisions()),
                old(self).force(),
                old(self).outcomes(),
                if old(self).pending() == Some(Op::Link) {
                    Step::Finish(
                        link_outcome(
                            old(self).decisions()[old(self).outcomes().len() as int].verdict,
                            result,
                        ),
                    )
                } else {
                    remove_step(result)
                },
            ),
    {
        let ghost vs = verdicts(self.decisions@);
        let k = self.outcomes.len();
        let step = if let Some(Op::Link) = self.pending {
            Step::Finish(after_link(self.decisions[k].verdict, result))
        } else {
            after_remove(result)
        };
        match step {
            Step::Act(op) => {
                self.pending = Some(op);
            },
            Step::Finish(o) => {
                self.outcomes.push(o);
                self.pending = None;
                self.settle();
                proof {
                    Self::lemma_advance_wf(vs, self.force, old(self).outcomes@.push(o));
                }
            },
        }
    }

    /// The decisions being executed.
    pub fn decision_list(&self) -> (r: &Vec<LinkDecision>)
        ensures
            r@ == self.decisions(),
    {
        &self.decisions
    }

    /// The outcomes recorded so far.
    pub fn outcome_list(&self) -> (r: &Vec<Outcome>)
        ensures
            r@ == self.outcomes(),
    {
        &self.outcomes
    }

    /// The decisions and their outcomes.
    pub fn into_parts(self) -> (r: (Vec<LinkDecision>, Vec<Outcome>))
        ensures
            r.0@ == self.decisions(),
            r.1@ == self.outcomes(),
    {
        (self.decisions, self.outcomes)
    }
}

} // verus!
