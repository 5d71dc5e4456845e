//! The worker pool's decisions: how a unit of work is carried out, how a
//! worker tallies its outcomes, how the workers' results combine into the
//! result of the run, and how large the pool is.

use vstd::prelude::*;

use crate::cmd::{Cmd, CmdView};
use crate::conf::{Plan, PlanView};
use crate::error::{Error, IoFault};
use crate::text::views;
use crate::walk::copy_path;

verus! {

/// The path whose existence decides how a plan carried out in `dir` starts:
/// the directory itself for a command, the subdirectory to remove for a
/// removal.
pub open spec fn target_of(plan: PlanView, dir: Seq<Seq<char>>) -> Seq<Seq<char>> {
    match plan {
        PlanView::Cmd(_) => dir,
        PlanView::RmDir(name) => dir.push(name),
    }
}

/// What a worker does first for a unit of work.
#[derive(Debug)]
pub enum Step {
    /// Nothing: the unit is done, with this outcome.
    Done(bool),
    /// Run this command in the unit's directory.
    Spawn(Cmd),
    /// Remove the directory at this path, with everything in it.
    Remove(Vec<String>),
}

pub enum StepView {
    Done(bool),
    Spawn(CmdView),
    Remove(Seq<Seq<char>>),
}

impl View for Step {
    type V = StepView;

    open spec fn view(&self) -> StepView {
        match self {
            Step::Done(b) => StepView::Done(*b),
            Step::Spawn(c) => StepView::Spawn(c@),
            Step::Remove(p) => StepView::Remove(views(p@)),
        }
    }
}

/// The first step of a plan carried out in `dir`, given whether its target
/// exists. A target that is gone has nothing left to clean: the unit
/// succeeds at once.
pub open spec fn first_step(plan: PlanView, dir: Seq<Seq<char>>, exists: bool) -> StepView {
    if !exists {
        StepView::Done(true)
    } else {
        match plan {
            PlanView::Cmd(c) => StepView::Spawn(c),
            PlanView::RmDir(_) => StepView::Remove(target_of(plan, dir)),
        }
    }
}

impl Plan {
    /// The path whose existence decides how this plan, carried out in
    /// `dir`, starts.
    pub fn target(&self, dir: &Vec<String>) -> (r: Vec<String>)
        ensures
            views(r@) == target_of(self@, views(dir@)),
    {
        let mut r = copy_path(dir);
        match self {
            Plan::Cmd(_) => {},
            Plan::RmDir(name) => {
                r.push(name.clone());
                assert(views(r@) =~= views(dir@).push(name@));
            },
        }
        r
    }

    /// The first step of this plan carried out in `dir`, given whether its
    /// target exists.
    pub fn first_step(&self, dir: &Vec<String>, exists: bool) -> (r: Step)
        ensures
            r@ == first_step(self@, views(dir@), exists),
    {
        if !exists {
            return Step::Done(true);
        }
        match self {
            Plan::Cmd(c) => Step::Spawn(c.duplicate()),
            Plan::RmDir(_) => Step::Remove(self.target(dir)),
        }
    }
}

/// The outcome of a unit whose command was started: whether it exited with
/// status zero, or the failure to start it, which is an error of the run.
pub open spec fn spawn_result(exit: Result<bool, IoFault>) -> Result<bool, Error> {
    match exit {
        Ok(success) => Ok(success),
        Err(fault) => Err(Error::IO(fault)),
    }
}

/// The outcome of a unit whose directory was being removed. A directory
/// that is already gone counts as removed; any other failure is an error of
/// the run.
pub open spec fn removal_result(removal: Result<(), IoFault>) -> Result<bool, Error> {
    match removal {
        Ok(_) => Ok(true),
        Err(fault) => if fault.not_found {
            Ok(true)
        } else {
            Err(Error::IO(fault))
        },
    }
}

/// The outcome of a unit whose command was started.
pub fn spawn_outcome(exit: Result<bool, IoFault>) -> (r: Result<bool, Error>)
    ensures
        r == spawn_result(exit),
{
    match exit {
        Ok(success) => Ok(success),
        Err(fault) => Err(Error::IO(fault)),
    }
}

/// The outcome of a unit whose directory was being removed.
pub fn removal_outcome(removal: Result<(), IoFault>) -> (r: Result<bool, Error>)
    ensures
        r == removal_result(removal),
{
    match removal {
        Ok(_) => Ok(true),
        Err(fault) => {
            if fault.not_found {
                Ok(true)
            } else {
                Err(Error::IO(fault))
            }
        },
    }
}

/// Removing a directory that does not exist succeeds without error, whether
/// it was gone before the unit started or vanished while it was removed.
pub proof fn lemma_absent_directory_removal_succeeds(
    name: Seq<char>,
    dir: Seq<Seq<char>>,
    fault: IoFault,
)
    requires
        fault.not_found,
    ensures
        first_step(PlanView::RmDir(name), dir, false) == StepView::Done(true),
        removal_result(Err(fault)) == Ok::<bool, Error>(true),
{
}

/// What a worker has done so far: whether any of its units cleaned
/// something, and the error that stopped it, if one did.
#[derive(Debug)]
pub struct Worker {
    pub cleaned: bool,
    pub failure: Option<Error>,
}

impl Worker {
    /// A worker that has done nothing yet.
    pub fn new() -> (r: Worker)
        ensures
            !r.cleaned,
            r.failure is None,
    {
        Worker { cleaned: false, failure: None }
    }

    /// The worker stops at its first error: it takes no more units.
    pub fn is_stopped(&self) -> (r: bool)
        ensures
            r == self.failure is Some,
    {
        self.failure.is_some()
    }

    /// Records the outcome of one unit.
    pub fn record(&mut self, outcome: Result<bool, Error>)
        requires
            old(self).failure is None,
        ensures
            match outcome {
                Ok(success) => final(self).cleaned == (old(self).cleaned || success)
                    && final(self).failure is None,
                Err(e) => final(self).cleaned == old(self).cleaned && final(self).failure == Some(
                    e,
                ),
            },
    {
        match outcome {
            Ok(success) => {
                self.cleaned = self.cleaned || success;
            },
            Err(e) => {
                self.failure = Some(e);
            },
        }
    }

    /// The worker's result: the error that stopped it, else whether it
    /// cleaned anything.
    pub fn finish(self) -> (r: Result<bool, Error>)
        ensures
            match self.failure {
                Some(e) => r == Err::<bool, Error>(e),
                None => r == Ok::<bool, Error>(self.cleaned),
            },
    {
        match self.failure {
            Some(e) => Err(e),
            None => Ok(self.cleaned),
        }
    }
}

/// The result of a run from its workers' results, in worker order: the first
/// error, else whether any worker cleaned something.
pub open spec fn combined(results: Seq<Result<bool, Error>>) -> Result<bool, Error>
    decreases results.len(),
{
    if results.len() == 0 {
        Ok(false)
    } else {
        match results[0] {
            Err(e) => Err(e),
            Ok(b) => match combined(results.drop_first()) {
                Err(e) => Err(e),
                Ok(c) => Ok(b || c),
            },
        }
    }
}

/// A run in which every worker finished without error and without
/// cleaning anything returns `false`.
pub proof fn lemma_nothing_cleaned_is_false(results: Seq<Result<bool, Error>>)
    requires
        forall|i: int| 0 <= i < results.len() ==> results[i] == Ok::<bool, Error>(false),
    ensures
        combined(results) == Ok::<bool, Error>(false),
    decreases results.len(),
{
    if results.len() > 0 {
        let rest = results.drop_first();
        assert forall|i: int| 0 <= i < rest.len() implies rest[i] == Ok::<bool, Error>(false) by {
            assert(rest[i] == results[i + 1]);
        }
        lemma_nothing_cleaned_is_false(rest);
    }
}

/// Combines the workers' results into the result of the run.
pub fn aggregate(results: Vec<Result<bool, Error>>) -> (r: Result<bool, Error>)
    ensures
        r == combined(results@),
{
    let ghost all = results@;
    let mut rest = results;
    let mut acc: Result<bool, Error> = Ok(false);
    assert(all.skip(all.len() as int) =~= Seq::<Result<bool, Error>>::empty());
    while rest.len() > 0
        invariant
            rest@ == all.take(rest@.len() as int),
            rest@.len() <= all.len(),
            acc == combined(all.skip(rest@.len() as int)),
        decreases rest@.len(),
    {
        let ghost n = rest@.len() as int;
        let last = rest.pop().unwrap();
        assert(rest@ =~= all.take(n - 1));
        assert(all.skip(n - 1).drop_first() =~= all.skip(n));
        assert(all.skip(n - 1)[0] == last);
        acc = match last {
            Err(e) => Err(e),
            Ok(b) => match acc {
                Err(e) => Err(e),
                Ok(c) => Ok(b || c),
            },
        };
    }
    assert(all.skip(0) =~= all);
    acc
}

} // verus!
