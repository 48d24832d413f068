//! The life of one group: from the children that started, scan by scan, to the
//! end of the last child.

use crate::group::{
    child_id_value, children_started, life_cycle_step, mode_after_start, output_of, scan_fits,
    start_errors, start_parallel_tasks, ChildInfoMeta, GroupExecution, GroupOfChildren, Scanned,
    StartedTask, StepResult,
};
use crate::laws::law_start_mode;
use crate::indicators::{GroupEnd, SpawningMode};
use crate::output::{indicates_error, OutputAndOrError};
use vstd::prelude::*;

verus! {

/// The life of one group, as far as it has been lived.
///
/// It holds the children that are still running, the mode that the group is
/// in, the outputs of the children that have finished, in the order in which
/// they finished, and the children that were stopped: under
/// [SpawningMode::StopAll] no child goes on running, and none that was stopped
/// leaves an output.
#[derive(Debug)]
pub struct GroupRun<M, E> {
    children: GroupOfChildren<M>,
    mode: SpawningMode,
    until: GroupEnd,
    outputs: Vec<OutputAndOrError<M, E>>,
    stopped: GroupOfChildren<M>,
}

/// What a [GroupRun] holds.
pub struct GroupRunView<M, E> {
    /// The children that are still running, each under the number that
    /// identifies its process.
    pub children: Map<u32, ChildInfoMeta<M>>,
    /// The mode that the group is in.
    pub mode: SpawningMode,
    /// The policy that the group lives under.
    pub until: GroupEnd,
    /// What the children that have finished left, in the order in which they
    /// finished.
    pub outputs: Seq<OutputAndOrError<M, E>>,
    /// The children that were stopped before they finished. The caller
    /// terminates their processes; their output is not collected.
    pub stopped: Map<u32, ChildInfoMeta<M>>,
}

impl<M, E> GroupRunView<M, E> {
    /// What holds of every [GroupRun]: the mode is one that the policy allows;
    /// under [SpawningMode::StopAll] no child is left running; and in any
    /// other mode no child was stopped.
    pub open spec fn valid(self) -> bool {
        &&& self.mode.fits(self.until)
        &&& self.children.dom().finite()
        &&& self.stopped.dom().finite()
        &&& self.mode == SpawningMode::StopAll ==> self.children == Map::<
            u32,
            ChildInfoMeta<M>,
        >::empty()
        &&& self.mode != SpawningMode::StopAll ==> self.stopped == Map::<
            u32,
            ChildInfoMeta<M>,
        >::empty()
    }

    /// Whether the group has come to its end: no child is left running.
    pub open spec fn done(self) -> bool {
        self.children.len() == 0
    }

    /// This run, once the children that may not go on have been stopped: under
    /// [SpawningMode::StopAll] that is every child that is still running.
    pub open spec fn settled(self) -> Self {
        if self.mode == SpawningMode::StopAll {
            GroupRunView {
                children: Map::empty(),
                stopped: self.stopped.union_prefer_right(self.children),
                ..self
            }
        } else {
            self
        }
    }

    /// The run of a group that has just started with these children in this
    /// mode: no child has finished yet.
    pub open spec fn start(
        children: Map<u32, ChildInfoMeta<M>>,
        mode: SpawningMode,
        until: GroupEnd,
    ) -> Self {
        GroupRunView {
            children,
            mode,
            until,
            outputs: Seq::empty(),
            stopped: Map::empty(),
        }.settled()
    }

    /// This run after one more scan. The child that has finished leaves the
    /// group, what it left is added to the outputs, and whether it failed
    /// decides on the mode. Where that mode is [SpawningMode::StopAll], all
    /// other children are stopped. A scan that found no child finished, or
    /// that failed, changes nothing.
    pub open spec fn after(self, scanned: Scanned<E>) -> Self {
        match scanned {
            Scanned::Finished(id, collected) => {
                let output = output_of(self.children[child_id_value(id)], collected);
                GroupRunView {
                    children: self.children.remove(child_id_value(id)),
                    mode: self.mode.after(indicates_error(output.0, output.1), self.until),
                    outputs: self.outputs.push(output),
                    ..self
                }.settled()
            },
            _ => self,
        }
    }

    /// This run after the scans in their order, up to the first that failed,
    /// with the error of that one.
    pub open spec fn after_all(self, events: Seq<Scanned<E>>) -> (Self, Option<E>)
        decreases events.len(),
    {
        if events.len() == 0 {
            (self, None)
        } else {
            match events.first() {
                Scanned::Failed(error) => (self, Some(error)),
                scanned => self.after(scanned).after_all(events.drop_first()),
            }
        }
    }

    /// Whether the scans, up to the first that failed, can have been made of
    /// this run in their order: each child that one of them found finished was
    /// still running then.
    pub open spec fn fit(self, events: Seq<Scanned<E>>) -> bool
        decreases events.len(),
    {
        events.len() == 0 || (scan_fits(self.children, events.first()) && (events.first() is Failed
            || self.after(events.first()).fit(events.drop_first())))
    }
}

impl<M, E> View for GroupRun<M, E> {
    type V = GroupRunView<M, E>;

    closed spec fn view(&self) -> GroupRunView<M, E> {
        GroupRunView {
            children: self.children@,
            mode: self.mode,
            until: self.until,
            outputs: self.outputs@,
            stopped: self.stopped@,
        }
    }
}

impl<M, E> GroupRun<M, E> {
    #[verifier::type_invariant]
    spec fn well_formed(&self) -> bool {
        self@.valid()
    }

    /// The run of a group that has just started. Where a task that did not
    /// start has put the group into [SpawningMode::StopAll], the children that
    /// did start are stopped at once.
    pub fn new(execution: GroupExecution<M>, until: GroupEnd) -> (run: Self)
        requires
            execution.1.fits(until),
        ensures
            run@ == GroupRunView::<M, E>::start(execution.0@, execution.1, until),
            run@.valid(),
    {
        let (children, mode) = execution;
        let ghost started = children@;
        proof {
            use_type_invariant(&children);
            assert(Map::<u32, ChildInfoMeta<M>>::empty().union_prefer_right(started) == started);
        }
        let empty = GroupOfChildren::new();
        if mode == SpawningMode::StopAll {
            GroupRun { children: empty, mode, until, outputs: Vec::new(), stopped: children }
        } else {
            GroupRun { children, mode, until, outputs: Vec::new(), stopped: empty }
        }
    }

    /// The children that are still running.
    pub fn children(&self) -> (children: &GroupOfChildren<M>)
        ensures
            children@ == self@.children,
    {
        &self.children
    }

    /// The mode that the group is in.
    pub fn mode(&self) -> (mode: SpawningMode)
        ensures
            mode == self@.mode,
    {
        self.mode
    }

    /// The policy that the group lives under.
    pub fn until(&self) -> (until: GroupEnd)
        ensures
            until == self@.until,
    {
        self.until
    }

    /// What the children that have finished left, in the order in which they
    /// finished.
    pub fn outputs(&self) -> (outputs: &Vec<OutputAndOrError<M, E>>)
        ensures
            outputs@ == self@.outputs,
    {
        &self.outputs
    }

    /// The children that were stopped before they finished. The caller
    /// terminates their processes.
    pub fn stopped(&self) -> (stopped: &GroupOfChildren<M>)
        ensures
            stopped@ == self@.stopped,
    {
        &self.stopped
    }

    /// Whether the group has come to its end: no child is left running.
    pub fn is_done(&self) -> (done: bool)
        ensures
            done == self@.done(),
            self@.valid(),
    {
        proof {
            use_type_invariant(self);
        }
        self.children.is_empty()
    }

    /// Takes the run apart: the mode that the group ended in, what its
    /// children left, in the order in which they finished, and the children
    /// that were stopped.
    pub fn into_outcome(self) -> (outcome: (
        SpawningMode,
        Vec<OutputAndOrError<M, E>>,
        GroupOfChildren<M>,
    ))
        ensures
            outcome.0 == self@.mode,
            outcome.1@ == self@.outputs,
            outcome.2@ == self@.stopped,
    {
        (self.mode, self.outputs, self.stopped)
    }

    /// Takes what one more scan of the children that are still running
    /// brought. A scan that failed changes nothing, and its error comes back
    /// with the run as it was.
    pub fn advance(self, scanned: Scanned<E>) -> (advanced: Result<Self, (Self, E)>)
        requires
            scan_fits(self@.children, scanned),
        ensures
            match scanned {
                Scanned::Failed(error) => advanced matches Err((run, failure)) && run@ == self@
                    && failure == error,
                _ => advanced matches Ok(run) && run@ == self@.after(scanned),
            },
    {
        proof {
            use_type_invariant(&self);
        }
        let ghost before = self@;
        let GroupRun { children, mode, until, outputs, stopped } = self;
        let mut outputs = outputs;
        let (left, result) = life_cycle_step((children, mode), &until, scanned);
        match result {
            StepResult::Finished(output, next) => {
                outputs.push(output);
                proof {
                    assert(before.stopped.union_prefer_right(left@) == left@);
                }
                if next == SpawningMode::StopAll {
                    Ok(
                        GroupRun {
                            children: GroupOfChildren::new(),
                            mode: next,
                            until,
                            outputs,
                            stopped: left,
                        },
                    )
                } else {
                    Ok(GroupRun { children: left, mode: next, until, outputs, stopped })
                }
            },
            StepResult::ScanError(error) => Err(
                (GroupRun { children: left, mode, until, outputs, stopped }, error),
            ),
            _ => Ok(GroupRun { children: left, mode, until, outputs, stopped }),
        }
    }
}

/// The life of a group from its start: takes the scans that were made of it,
/// in their order, up to the first that failed.
///
/// Every child that a scan found finished leaves its output, in the order in
/// which the children finished. Once the group is in [SpawningMode::StopAll],
/// the children that are still running are stopped, and leave no output.
///
/// Returns the run after the last scan, which is done if no child is left
/// running. If a scan failed, returns the error with the run as it was then.
#[must_use]
pub fn life_cycle_loop<M, E>(
    execution: GroupExecution<M>,
    until: &GroupEnd,
    events: Vec<Scanned<E>>,
) -> (ended: Result<GroupRun<M, E>, (GroupRun<M, E>, E)>)
    requires
        execution.1.fits(*until),
        GroupRunView::<M, E>::start(execution.0@, execution.1, *until).fit(events@),
    ensures
        ({
            let start = GroupRunView::<M, E>::start(execution.0@, execution.1, *until);
            match ended {
                Ok(run) => start.after_all(events@) == (run@, None::<E>),
                Err((run, error)) => start.after_all(events@) == (run@, Some(error)),
            }
        }),
{
    let mut run = GroupRun::new(execution, *until);
    let ghost all = events@;
    let ghost start = run@;
    proof {
        assert(all.skip(0) == all);
    }
    for scanned in it: events
        invariant
            it.seq() == all,
            all == events@,
            start == GroupRunView::<M, E>::start(execution.0@, execution.1, *until),
            run@.fit(all.skip(it.index() as int)),
            start.after_all(all) == run@.after_all(all.skip(it.index() as int)),
    {
        proof {
            let rest = all.skip(it.index() as int);
            assert(rest.drop_first() == all.skip(it.index() + 1));
        }
        match run.advance(scanned) {
            Ok(next) => {
                run = next;
            },
            Err((at, error)) => {
                return Err((at, error));
            },
        }
    }
    Ok(run)
}

/// Run a group of parallel tasks, as it was recorded: `tasks` holds what
/// starting each task brought, and `events` what each scan of the group
/// brought after that, in their order.
///
/// All tasks run in parallel: the group takes every task that started, and its
/// policy `group_until` decides what the failure of one means for the others.
///
/// Returns how far the group has come, with what its children left; and the
/// errors of the tasks that did not start.
pub fn parallel_single_tasks<M, E>(
    tasks: Vec<StartedTask<M, E>>,
    group_until: GroupEnd,
    events: Vec<Scanned<E>>,
) -> (outcome: (Result<GroupRun<M, E>, (GroupRun<M, E>, E)>, Vec<E>))
    requires
        GroupRunView::<M, E>::start(
            children_started(tasks@),
            mode_after_start(tasks@, group_until),
            group_until,
        ).fit(events@),
    ensures
        ({
            let start = GroupRunView::<M, E>::start(
                children_started(tasks@),
                mode_after_start(tasks@, group_until),
                group_until,
            );
            match outcome.0 {
                Ok(run) => start.after_all(events@) == (run@, None::<E>),
                Err((run, error)) => start.after_all(events@) == (run@, Some(error)),
            }
        }),
        outcome.1@ == start_errors(tasks@),
{
    proof {
        law_start_mode(tasks@, group_until);
    }
    let (execution, errors) = start_parallel_tasks(tasks, &group_until);
    (life_cycle_loop(execution, &group_until, events), errors)
}

} // verus!
