//! A group of child processes that run in parallel, from its start to its end.

use crate::indicators::{BinaryCrateName, GroupEnd, SpawningMode};
use crate::output::{indicates_error, ExitStatus, OptOutput, OutputAndOrError, ProcessOutput};
use phantom_newtype::Id;
use std::collections::HashMap;
use vstd::prelude::*;
use vstd::std_specs::iter::IteratorSpec;

verus! {

broadcast use vstd::std_specs::hash::group_hash_axioms;

/// `phantom_newtype::Id`, an identifier that holds a representation and is
/// marked by the type of what it identifies.
#[verifier::external_type_specification]
#[verifier::external_body]
#[verifier::reject_recursive_types(Entity)]
#[verifier::reject_recursive_types(Repr)]
pub struct ExId<Entity, Repr>(Id<Entity, Repr>);

/// Stands for a child process of the operating system. The library holds no
/// process: it knows a child by its identifier.
pub struct ChildProcess;

/// The operating system's identifier of a child process.
pub type ChildProcessId = Id<ChildProcess, u32>;

/// The description of a child, for reports.
pub type ChildInfo = String;

/// The number that an identifier holds: what `phantom_newtype::Id::get` finds
/// in it.
pub uninterp spec fn child_id_value(id: ChildProcessId) -> u32;

/// Calls `phantom_newtype::Id::from`. Nothing of this is proved. It is taken
/// from the source of `Id` that the identifier made holds the number given.
#[verifier::external_body]
pub(crate) fn child_id_from(raw: u32) -> (id: ChildProcessId)
    ensures
        child_id_value(id) == raw,
{
    Id::from(raw)
}

/// Calls `phantom_newtype::Id::get`. Nothing of this is proved. It is taken
/// from the source of `Id` that the number handed out is the one that the
/// identifier holds.
#[verifier::external_body]
pub(crate) fn child_id_get(id: &ChildProcessId) -> (raw: u32)
    ensures
        raw == child_id_value(*id),
{
    *id.get()
}

/// What a group keeps of one child that runs: the number that the operating
/// system gave its process, its description and the metadata that the caller
/// gave its task.
#[derive(Debug)]
pub struct ChildInfoMeta<M>(pub u32, pub ChildInfo, pub M);

impl<M> ChildInfoMeta<M> {
    /// The identifier of the child's process.
    pub fn child(&self) -> (child: ChildProcessId)
        ensures
            child_id_value(child) == self.0,
    {
        child_id_from(self.0)
    }

    /// The description of the child.
    pub fn info(&self) -> (info: &ChildInfo)
        ensures
            *info == self.1,
    {
        &self.1
    }

    /// The metadata of the child's task.
    pub fn meta(&self) -> (meta: &M)
        ensures
            *meta == self.2,
    {
        &self.2
    }

    /// The metadata of the child's task, to change it in place.
    pub fn meta_mut(&mut self) -> (meta: &mut M)
        ensures
            *meta == old(self).2,
            final(self).0 == old(self).0,
            final(self).1 == old(self).1,
            final(self).2 == *final(meta),
    {
        &mut self.2
    }
}

impl<M: Copy> ChildInfoMeta<M> {
    /// A copy of the metadata of the child's task.
    pub fn meta_copy(&self) -> (meta: M)
        ensures
            meta == self.2,
    {
        self.2
    }
}

/// Group of active (running) child processes, each under the number of its
/// process, which is the number that its identifier holds.
#[derive(Debug)]
pub struct GroupOfChildren<M> {
    children: HashMap<u32, ChildInfoMeta<M>>,
}

impl<M> View for GroupOfChildren<M> {
    type V = Map<u32, ChildInfoMeta<M>>;

    closed spec fn view(&self) -> Map<u32, ChildInfoMeta<M>> {
        self.children@
    }
}

/// The numbers that the identifiers hold, in the order of the identifiers.
pub open spec fn id_values(ids: Seq<ChildProcessId>) -> Seq<u32> {
    ids.map_values(|id: ChildProcessId| child_id_value(id))
}

/// Whether each child stands under the number of its own process.
pub open spec fn keyed_by_id<M>(children: Map<u32, ChildInfoMeta<M>>) -> bool {
    forall|key: u32| #[trigger] children.contains_key(key) ==> children[key].0 == key
}

impl<M> GroupOfChildren<M> {
    /// What holds of every group: it has finitely many children, and each
    /// stands under the number of its own process.
    #[verifier::type_invariant]
    pub open spec fn well_keyed(&self) -> bool {
        self@.dom().finite() && keyed_by_id(self@)
    }

    /// A group without children.
    pub fn new() -> (group: Self)
        ensures
            group@ == Map::<u32, ChildInfoMeta<M>>::empty(),
    {
        GroupOfChildren { children: HashMap::new() }
    }

    /// Whether no child is left in the group.
    pub fn is_empty(&self) -> (empty: bool)
        ensures
            empty == (self@.len() == 0),
    {
        proof {
            use_type_invariant(self);
        }
        self.children.is_empty()
    }

    /// The number of children in the group.
    pub fn len(&self) -> (len: usize)
        ensures
            len == self@.len(),
    {
        proof {
            use_type_invariant(self);
        }
        self.children.len()
    }

    /// Whether the group holds a child with this identifier.
    pub fn contains(&self, id: &ChildProcessId) -> (found: bool)
        ensures
            found == self@.contains_key(child_id_value(*id)),
    {
        let key = child_id_get(id);
        self.children.contains_key(&key)
    }

    /// The child with this identifier, if the group holds one.
    pub fn get(&self, id: &ChildProcessId) -> (child: Option<&ChildInfoMeta<M>>)
        ensures
            child == if self@.contains_key(child_id_value(*id)) {
                Some(&self@[child_id_value(*id)])
            } else {
                None
            },
    {
        let key = child_id_get(id);
        self.children.get(&key)
    }

    /// The identifiers of the children in the group, each once, in no order
    /// that a caller can count on.
    pub fn ids(&self) -> (ids: Vec<ChildProcessId>)
        ensures
            id_values(ids@).no_duplicates(),
            id_values(ids@).to_set() == self@.dom(),
    {
        let mut ids: Vec<ChildProcessId> = Vec::new();
        let ghost keys = self.children.keys().remaining().unref();
        for key in it: self.children.keys()
            invariant
                it.seq().unref() == keys,
                id_values(ids@) == keys.take(it.index() as int),
        {
            let ghost before = ids@;
            ids.push(child_id_from(*key));
            proof {
                let done = it.index() as int;
                assert(id_values(before) == keys.take(done));
                assert forall|at: int| 0 <= at < done + 1 implies id_values(ids@)[at]
                    == keys.take(done + 1)[at] by {}
            }
        }
        proof {
            assert(keys.take(keys.len() as int) == keys);
        }
        ids
    }

    /// Takes the child into the group, under the number of its process. A
    /// child that the group held under the same number leaves the group and
    /// is returned.
    pub fn insert(&mut self, child: ChildInfoMeta<M>) -> (previous: Option<ChildInfoMeta<M>>)
        ensures
            final(self)@ == old(self)@.insert(child.0, child),
            previous == if old(self)@.contains_key(child.0) {
                Some(old(self)@[child.0])
            } else {
                None
            },
    {
        proof {
            use_type_invariant(&*self);
        }
        let key = child.0;
        let mut children = HashMap::new();
        core::mem::swap(&mut self.children, &mut children);
        let previous = children.insert(key, child);
        self.children = children;
        previous
    }

    /// Takes the child with this identifier out of the group, if the group
    /// holds one.
    pub fn remove(&mut self, id: &ChildProcessId) -> (removed: Option<ChildInfoMeta<M>>)
        ensures
            final(self)@ == old(self)@.remove(child_id_value(*id)),
            removed == if old(self)@.contains_key(child_id_value(*id)) {
                Some(old(self)@[child_id_value(*id)])
            } else {
                None
            },
    {
        proof {
            use_type_invariant(&*self);
        }
        let key = child_id_get(id);
        let mut children = HashMap::new();
        core::mem::swap(&mut self.children, &mut children);
        let removed = children.remove(&key);
        self.children = children;
        removed
    }
}

/// The crate features that a task is built with.
pub type Features<'a> = Vec<&'a str>;

/// The tasks of a group. Each holds the subdirectory of its package, the
/// binary to build and run, the features to build it with, the description of
/// the child and the metadata that the caller gives it.
pub type ParallelTasks<'a, M> = Vec<
    (&'a str, &'a BinaryCrateName<'a>, Features<'a>, ChildInfo, M),
>;

/// What starting one task brought: the number that identifies the new process,
/// or the error that kept the task from starting; with them the description and
/// the metadata of the task.
pub type StartedTask<M, E> = (Result<u32, E>, ChildInfo, M);

/// A group as it stands: its children that are running, and its mode.
pub type GroupExecution<M> = (GroupOfChildren<M>, SpawningMode);

/// The children that are left after a scan, with what the scan brought.
pub type GroupOfChildrenAndOptOutput<M, E> = (GroupOfChildren<M>, OptOutput<M, E>);

/// A group that has just started, with the errors of the tasks that did not
/// start.
pub type GroupExecutionAndStartErrors<M, E> = (GroupExecution<M>, Vec<E>);

/// The children of a group whose tasks were started in this order: each task
/// that started, under the number that identifies its process. One that
/// started as a process that an earlier task had started as (which no
/// operating system does while both run) takes the place of the earlier one.
pub open spec fn children_started<M, E>(tasks: Seq<StartedTask<M, E>>) -> Map<
    u32,
    ChildInfoMeta<M>,
>
    decreases tasks.len(),
{
    if tasks.len() == 0 {
        Map::empty()
    } else {
        let before = children_started(tasks.drop_last());
        match tasks.last().0 {
            Ok(raw) => before.insert(raw, ChildInfoMeta(raw, tasks.last().1, tasks.last().2)),
            Err(_) => before,
        }
    }
}

/// The errors of the tasks that did not start, in the order of the tasks.
pub open spec fn start_errors<M, E>(tasks: Seq<StartedTask<M, E>>) -> Seq<E>
    decreases tasks.len(),
{
    if tasks.len() == 0 {
        Seq::empty()
    } else {
        let before = start_errors(tasks.drop_last());
        match tasks.last().0 {
            Ok(_) => before,
            Err(error) => before.push(error),
        }
    }
}

/// The mode that a group starts its life in: that of a failure under `until`
/// if a task did not start, [SpawningMode::ProcessAll] if all of them did.
pub open spec fn mode_after_start<M, E>(
    tasks: Seq<StartedTask<M, E>>,
    until: GroupEnd,
) -> SpawningMode {
    if start_errors(tasks).len() > 0 {
        until.failure_mode()
    } else {
        SpawningMode::ProcessAll
    }
}

/// Start a group of parallel child process(es) - tasks.
///
/// The caller has tried to start every task, in the order of `tasks`, whether
/// or not an earlier one failed to start. This takes what that brought and
/// makes the group of it: the children that started, and the mode that the
/// group is in.
///
/// This does NOT check for exit status/stderr of any child process. It only
/// looks at whether the start itself succeeded. If all tasks started, the mode
/// is [SpawningMode::ProcessAll]. Otherwise it is the mode of a failure under
/// `until`.
pub fn start_parallel_tasks<M, E>(tasks: Vec<StartedTask<M, E>>, until: &GroupEnd) -> (started:
    GroupExecutionAndStartErrors<M, E>)
    ensures
        started.0.0@ == children_started(tasks@),
        started.0.1 == mode_after_start(tasks@, *until),
        started.1@ == start_errors(tasks@),
{
    let mut children = GroupOfChildren::new();
    let mut spawning_mode = SpawningMode::default();
    let mut errors: Vec<E> = Vec::new();
    let ghost all = tasks@;

    for task in it: tasks
        invariant
            it.seq() == all,
            children@ == children_started(all.take(it.index() as int)),
            spawning_mode == mode_after_start(all.take(it.index() as int), *until),
            errors@ == start_errors(all.take(it.index() as int)),
    {
        proof {
            let done = it.index() as int;
            assert(all.take(done + 1).drop_last() == all.take(done));
        }
        let (child_or_err, child_info, meta) = task;
        match child_or_err {
            Ok(raw) => {
                children.insert(ChildInfoMeta(raw, child_info, meta));
            },
            Err(err) => {
                spawning_mode = until.mode_after_error_in_same_group();
                errors.push(err);
            },
        }
    }
    proof {
        assert(all.take(all.len() as int) == all);
    }
    ((children, spawning_mode), errors)
}

/// What polling one child brought, without waiting for it: the child has
/// finished (`Ok(Some(..))`, with how it ended, which may well be a failure), it
/// is still running (`Ok(None)`), or the operating system could not tell
/// (`Err(..)`).
pub type PolledChild<E> = (ChildProcessId, Result<Option<ExitStatus>, E>);

/// What a scan of the children in the order of `polled` finds: the first child
/// that has finished, or the error of the first child that could not be
/// polled, whichever comes first; `Ok(None)` if all of them are still running.
pub open spec fn first_finished<E>(polled: Seq<PolledChild<E>>) -> Result<
    Option<ChildProcessId>,
    E,
>
    decreases polled.len(),
{
    if polled.len() == 0 {
        Ok(None)
    } else {
        match polled.first().1 {
            Ok(Some(_)) => Ok(Some(polled.first().0)),
            Ok(None) => first_finished(polled.drop_first()),
            Err(error) => Err(error),
        }
    }
}

/// Go over the given children max. once, in the order in which they were
/// polled. Take the first finished child (if any), and return its process ID.
///
/// Beware: [Ok] of [Some] actually CAN stand for a child whose exit status is
/// _NOT_ a success!
pub fn try_finished_child<E>(polled: Vec<PolledChild<E>>) -> (found: Result<
    Option<ChildProcessId>,
    E,
>)
    ensures
        found == first_finished(polled@),
{
    let ghost all = polled@;
    proof {
        assert(all.skip(0) == all);
    }
    for child in it: polled
        invariant
            it.seq() == all,
            first_finished(all) == first_finished(all.skip(it.index() as int)),
    {
        let ghost rest = all.skip(it.index() as int);
        proof {
            assert(rest.drop_first() == all.skip(it.index() + 1));
        }
        let (child_id, opt_status_or_err) = child;
        match opt_status_or_err {
            Ok(Some(_exit_status)) => {
                return Ok(Some(child_id));
            },
            Ok(None) => {},
            Err(err) => {
                return Err(err);
            },
        }
    }
    Ok(None)
}

/// What one scan of a group brought.
#[derive(Debug)]
pub enum Scanned<E> {
    /// No child has finished: all of them are still running, or there is none.
    NoneFinished,
    /// The child with this identifier has finished. With it comes what
    /// collecting its output brought: the output, or the error that kept it
    /// from being collected.
    Finished(ChildProcessId, Result<ProcessOutput, E>),
    /// The scan itself failed: the operating system could not tell whether a
    /// child has finished.
    Failed(E),
}

/// What a finished child leaves: its output and/or the error that kept the
/// output from being collected, with the description and metadata of the child.
pub open spec fn output_of<M, E>(
    child: ChildInfoMeta<M>,
    collected: Result<ProcessOutput, E>,
) -> OutputAndOrError<M, E> {
    match collected {
        Ok(output) => (Some((Some(output), child.1, child.2)), None),
        Err(error) => (Some((None, child.1, child.2)), Some(error)),
    }
}

/// The children that are left in a group after a scan: all but the one that
/// has finished.
pub open spec fn left_after<M, E>(
    children: Map<u32, ChildInfoMeta<M>>,
    scanned: Scanned<E>,
) -> Map<u32, ChildInfoMeta<M>> {
    match scanned {
        Scanned::Finished(id, _) => children.remove(child_id_value(id)),
        _ => children,
    }
}

/// The output and/or error that a scan of a group brings, if any.
pub open spec fn brought_by<M, E>(
    children: Map<u32, ChildInfoMeta<M>>,
    scanned: Scanned<E>,
) -> OptOutput<M, E> {
    match scanned {
        Scanned::NoneFinished => None,
        Scanned::Finished(id, collected) => Some(
            output_of(children[child_id_value(id)], collected),
        ),
        Scanned::Failed(error) => Some((None, Some(error))),
    }
}

/// Whether a scan can have been made of these children: a child that it found
/// finished is one of them.
pub open spec fn scan_fits<M, E>(
    children: Map<u32, ChildInfoMeta<M>>,
    scanned: Scanned<E>,
) -> bool {
    scanned matches Scanned::Finished(id, _) ==> children.contains_key(child_id_value(id))
}

/// Return [Some] if any child has finished or is still running; return [None]
/// when all children have finished: when none is left and the scan found none.
///
/// The child that the scan found finished leaves the group, and its output
/// and/or error is handed out with its description and metadata. A scan that
/// failed leaves the group as it is and hands out its error alone.
#[must_use]
pub fn collect_finished_child<M, E>(
    children: GroupOfChildren<M>,
    scanned: Scanned<E>,
) -> (collected: Option<GroupOfChildrenAndOptOutput<M, E>>)
    requires
        scan_fits(children@, scanned),
    ensures
        collected is None <==> scanned is NoneFinished && children@.len() == 0,
        collected matches Some((left, brought)) ==> left@ == left_after(children@, scanned)
            && brought == brought_by(children@, scanned),
{
    let mut children = children;
    match scanned {
        Scanned::Finished(child_id, output_or_err) => {
            let ChildInfoMeta(_, child_info, meta) = match children.remove(&child_id) {
                Some(child) => child,
                None => unreached(),
            };
            let (child_output, err) = match output_or_err {
                Ok(child_output) => (Some(child_output), None),
                Err(err) => (None, Some(err)),
            };
            Some((children, Some((Some((child_output, child_info, meta)), err))))
        },
        Scanned::NoneFinished => {
            if children.is_empty() {
                None
            } else {
                Some((children, None))
            }
        },
        Scanned::Failed(err) => Some((children, Some((None, Some(err))))),
    }
}

/// What one step in the life of a group brought.
#[derive(Debug)]
pub enum StepResult<M, E> {
    /// No child has finished, and some are still running: the caller waits a
    /// short while and scans again.
    NoChange,
    /// One child has finished. Here is its output and/or the error that kept
    /// the output from being collected, and the mode that the group is in now.
    Finished(OutputAndOrError<M, E>, SpawningMode),
    /// No child is left in the group.
    GroupDone,
    /// The scan itself failed. The group is as it was.
    ScanError(E),
}

/// What a step brings that starts from these children in this mode.
pub open spec fn step_result<M, E>(
    children: Map<u32, ChildInfoMeta<M>>,
    mode: SpawningMode,
    until: GroupEnd,
    scanned: Scanned<E>,
) -> StepResult<M, E> {
    match scanned {
        Scanned::NoneFinished => if children.len() == 0 {
            StepResult::GroupDone
        } else {
            StepResult::NoChange
        },
        Scanned::Finished(id, collected) => {
            let output = output_of(children[child_id_value(id)], collected);
            StepResult::Finished(output, mode.after(indicates_error(output.0, output.1), until))
        },
        Scanned::Failed(error) => StepResult::ScanError(error),
    }
}

/// One step in the life of a group: takes what a scan brought, and says what
/// that means for the group.
///
/// The child that has finished leaves the group. Whether it failed decides on
/// the mode of the group from here on. Nothing else changes the group: not a
/// scan that found nothing, and not one that failed.
#[must_use]
pub fn life_cycle_step<M, E>(
    execution: GroupExecution<M>,
    until: &GroupEnd,
    scanned: Scanned<E>,
) -> (stepped: (GroupOfChildren<M>, StepResult<M, E>))
    requires
        execution.1.fits(*until),
        scan_fits(execution.0@, scanned),
    ensures
        stepped.0@ == left_after(execution.0@, scanned),
        stepped.1 == step_result(execution.0@, execution.1, *until, scanned),
{
    let (children, spawning_mode) = execution;
    match collect_finished_child(children, scanned) {
        None => (GroupOfChildren::new(), StepResult::GroupDone),
        Some((children, None)) => (children, StepResult::NoChange),
        Some((children, Some((Some(child_output), err)))) => {
            let output = Some(child_output);
            let spawning_mode = spawning_mode.after_output_and_or_error(&output, &err, until);
            (children, StepResult::Finished((output, err), spawning_mode))
        },
        Some((children, Some((None, Some(err))))) => (children, StepResult::ScanError(err)),
        Some((_, Some((None, None)))) => unreached(),
    }
}

} // verus!
