//! What a run of the `link` command reports, package by package.
use vstd::prelude::*;
use crate::execute::Outcome;
use crate::resolve::{LinkDecision, Verdict};

verus! {

/// What is done with a package, given whether its directory and the tree to
/// work on (`files` or `scripts`) exist.
#[derive(Clone, Copy, Debug, PartialEq, Eq, Structural)]
pub enum PackageStep {
    /// The package does not exist.
    Missing,
    /// The package exists but has no tree to work on.
    Empty,
    /// The tree is worked on.
    Proceed,
}

/// What is done with a package, given whether its directory and its tree exist.
pub open spec fn package_step_of(pkg_exists: bool, tree_exists: bool) -> PackageStep {
    if !pkg_exists {
        PackageStep::Missing
    } else if !tree_exists {
        PackageStep::Empty
    } else {
        PackageStep::Proceed
    }
}

/// What is done with a package.
pub fn package_step(pkg_exists: bool, tree_exists: bool) -> (r: PackageStep)
    ensures
        r == package_step_of(pkg_exists, tree_exists),
{
    if !pkg_exists {
        PackageStep::Missing
    } else if !tree_exists {
        PackageStep::Empty
    } else {
        PackageStep::Proceed
    }
}

/// How one decision is reported.
#[derive(Clone, Copy, Debug, PartialEq, Eq, Structural)]
pub enum Status {
    /// A link that a dry run would make.
    Planned,
    /// A link made into a free destination.
    Linked,
    /// A link that was there already.
    Exists,
    /// A link made after the occupant was removed.
    Forced,
    /// A removal or a link that failed.
    Failed,
    /// A destination occupied by something else, left alone.
    Occupied,
}

/// How a decision with verdict `v` is reported, with its outcome if it was
/// executed.
pub open spec fn status_of(v: Verdict, outcome: Option<Outcome>) -> Status {
    match outcome {
        Some(Outcome::Linked) => Status::Linked,
        Some(Outcome::Forced) => Status::Forced,
        Some(Outcome::LinkFailed { .. }) => Status::Failed,
        Some(Outcome::RemoveFailed { .. }) => Status::Failed,
        Some(Outcome::Satisfied) => Status::Exists,
        Some(Outcome::Skipped) => Status::Occupied,
        None => match v {
            Verdict::Linkable => Status::Planned,
            Verdict::AlreadyLinked => Status::Exists,
            Verdict::Conflict => Status::Occupied,
        },
    }
}

/// How a decision is reported.
pub fn status(v: Verdict, outcome: Option<&Outcome>) -> (r: Status)
    ensures
        r == status_of(
            v,
            match outcome {
                Some(o) => Some(*o),
                None => None,
            },
        ),
{
    match outcome {
        Some(Outcome::Linked) => Status::Linked,
        Some(Outcome::Forced) => Status::Forced,
        Some(Outcome::LinkFailed { .. }) => Status::Failed,
        Some(Outcome::RemoveFailed { .. }) => Status::Failed,
        Some(Outcome::Satisfied) => Status::Exists,
        Some(Outcome::Skipped) => Status::Occupied,
        None => match v {
            Verdict::Linkable => Status::Planned,
            Verdict::AlreadyLinked => Status::Exists,
            Verdict::Conflict => Status::Occupied,
        },
    }
}

/// The decisions on one package, with their outcomes where they were
/// executed (none in a dry run).
pub struct LinkDetail {
    pub pkg_name: String,
    pub decisions: Vec<LinkDecision>,
    pub outcomes: Vec<Outcome>,
}

/// What a run of the `link` command found, package by package.
pub struct LinkSummary {
    /// The packages whose files were resolved.
    pub details: Vec<LinkDetail>,
    /// The names of packages that do not exist.
    pub non_exist: Vec<String>,
    /// The names of packages without a `files` tree.
    pub no_files: Vec<String>,
}

impl LinkSummary {
    /// A summary of nothing yet.
    pub fn new() -> (r: LinkSummary)
        ensures
            r.details@.len() == 0,
            r.non_exist@.len() == 0,
            r.no_files@.len() == 0,
    {
        LinkSummary { details: Vec::new(), non_exist: Vec::new(), no_files: Vec::new() }
    }

    /// Takes in the package `pkg_name` and says whether its files are to be
    /// linked; a package that is missing, or has no `files` tree, is recorded
    /// as such instead.
    pub fn take_package(&mut self, pkg_name: String, pkg_exists: bool, files_exist: bool) -> (r: bool)
        ensures
            r == (package_step_of(pkg_exists, files_exist) == PackageStep::Proceed),
            final(self).details@ == old(self).details@,
            final(self).non_exist@ == if package_step_of(pkg_exists, files_exist)
                == PackageStep::Missing {
                old(self).non_exist@.push(pkg_name)
            } else {
                old(self).non_exist@
            },
            final(self).no_files@ == if package_step_of(pkg_exists, files_exist)
                == PackageStep::Empty {
                old(self).no_files@.push(pkg_name)
            } else {
                old(self).no_files@
            },
    {
        match package_step(pkg_exists, files_exist) {
            PackageStep::Missing => {
                self.non_exist.push(pkg_name);
                false
            },
            PackageStep::Empty => {
                self.no_files.push(pkg_name);
                false
            },
            PackageStep::Proceed => true,
        }
    }

    /// Records the decisions on a package and their outcomes.
    pub fn record(&mut self, pkg_name: String, decisions: Vec<LinkDecision>, outcomes: Vec<Outcome>)
        ensures
            final(self).details@ == old(self).details@.push(
                (LinkDetail { pkg_name, decisions, outcomes }),
            ),
            final(self).non_exist@ == old(self).non_exist@,
            final(self).no_files@ == old(self).no_files@,
    {
        self.details.push(LinkDetail { pkg_name, decisions, outcomes });
    }
}

} // verus!
