//! What holds of every group, whatever its tasks are and however its children
//! end.

use crate::group::{
    child_id_value, children_started, first_finished, keyed_by_id, mode_after_start, output_of,
    scan_fits, start_errors, ChildInfoMeta, ChildProcessId, PolledChild, Scanned, StartedTask,
};
use crate::indicators::{GroupEnd, SpawningMode};
use crate::output::{indicates_error, ExitStatus, OutputAndOrError, ProcessOutput};
use crate::run::GroupRunView;
use vstd::prelude::*;

verus! {

/// Whether all tasks started.
pub open spec fn all_started<M, E>(tasks: Seq<StartedTask<M, E>>) -> bool {
    forall|index: int| 0 <= index < tasks.len() ==> (#[trigger] tasks[index]).0 is Ok
}

/// Whether no two tasks started as the same process.
pub open spec fn distinct_starts<M, E>(tasks: Seq<StartedTask<M, E>>) -> bool {
    forall|earlier: int, later: int|
        0 <= earlier < later < tasks.len() && (#[trigger] tasks[earlier]).0 is Ok ==> (
        #[trigger] tasks[later]).0 != tasks[earlier].0
}

/// Whether the task at `index` started, as the process that `key` identifies.
pub open spec fn started_as<M, E>(tasks: Seq<StartedTask<M, E>>, index: int, key: u32) -> bool {
    0 <= index < tasks.len() && tasks[index].0 == Ok::<u32, E>(key)
}

/// Whether a scan brought no failure: it found no child finished, or it found
/// one whose output was collected and is not judged failed.
pub open spec fn succeeded<E>(scanned: Scanned<E>) -> bool {
    match scanned {
        Scanned::NoneFinished => true,
        Scanned::Finished(_, Ok(output)) => !output.failed(),
        _ => false,
    }
}

/// Whether each of the scans brought no failure.
pub open spec fn all_succeeded<E>(events: Seq<Scanned<E>>) -> bool {
    forall|index: int| 0 <= index < events.len() ==> succeeded(#[trigger] events[index])
}

/// Whether this is what the child left: it bears the description and the
/// metadata of the child.
pub open spec fn is_of<M, E>(output: OutputAndOrError<M, E>, child: ChildInfoMeta<M>) -> bool {
    output.0 matches Some((_, info, meta)) && info == child.1 && meta == child.2
}

/// Whether what the child left stands among the outputs, at `from` or later.
pub open spec fn appears<M, E>(
    outputs: Seq<OutputAndOrError<M, E>>,
    from: int,
    child: ChildInfoMeta<M>,
) -> bool {
    exists|index: int| from <= index < outputs.len() && is_of(#[trigger] outputs[index], child)
}

/// A group's mode changes in one direction only: once a group has left
/// [SpawningMode::ProcessAll], it stays in the mode that it has entered,
/// whatever its other tasks do.
pub proof fn law_failure_mode_stays(mode: SpawningMode, failed: bool, until: GroupEnd)
    requires
        mode.is_failure(),
    ensures
        mode.after(failed, until) == mode,
{
}

/// From [SpawningMode::ProcessAll] a task that succeeded changes nothing, and a
/// task that failed leads to the mode that the policy asks for.
pub proof fn law_first_failure_decides(failed: bool, until: GroupEnd)
    ensures
        SpawningMode::ProcessAll.after(failed, until) == if failed {
            until.failure_mode()
        } else {
            SpawningMode::ProcessAll
        },
        SpawningMode::ProcessAll.after(failed, until).fits(until),
{
}

/// The group that starts holds exactly the tasks that started: a process is
/// in the group if and only if a task started as it, and it stands there with
/// the description and the metadata of the last task that did.
pub proof fn law_group_holds_started_tasks<M, E>(tasks: Seq<StartedTask<M, E>>)
    ensures
        children_started(tasks).dom().finite(),
        keyed_by_id(children_started(tasks)),
        forall|key: u32| #[trigger]
            children_started(tasks).contains_key(key) <==> exists|index: int|
                started_as(tasks, index, key),
        forall|index: int, key: u32|
            started_as(tasks, index, key) && (forall|later: int|
                index < later < tasks.len() ==> !started_as(tasks, later, key))
                ==> #[trigger] children_started(tasks)[key] == ChildInfoMeta(
                key,
                #[trigger] tasks[index].1,
                tasks[index].2,
            ),
    decreases tasks.len(),
{
    if tasks.len() > 0 {
        let before = tasks.drop_last();
        let last = tasks.len() - 1;
        law_group_holds_started_tasks(before);
        assert forall|index: int, key: u32| #[trigger]
            started_as(tasks, index, key) <==> started_as(before, index, key) || (index == last
                && tasks[last].0 == Ok::<u32, E>(key)) by {}
        assert forall|key: u32| #[trigger]
            children_started(tasks).contains_key(key) <==> exists|index: int|
                started_as(tasks, index, key) by {
            if children_started(tasks).contains_key(key) {
                if children_started(before).contains_key(key) {
                    let index = choose|index: int| started_as(before, index, key);
                    assert(started_as(tasks, index, key));
                } else {
                    assert(started_as(tasks, last, key));
                }
            }
        }
        assert forall|index: int, key: u32|
            started_as(tasks, index, key) && (forall|later: int|
                index < later < tasks.len() ==> !started_as(tasks, later, key)) implies (
        #[trigger] children_started(tasks)[key]) == ChildInfoMeta(
            key,
            #[trigger] tasks[index].1,
            tasks[index].2,
        ) by {
            if index != last {
                assert(!started_as(tasks, last, key));
                assert forall|later: int| index < later < before.len() implies !started_as(
                    before,
                    later,
                    key,
                ) by {
                    assert(!started_as(tasks, later, key));
                }
            }
        }
    }
}

/// Where no two tasks started as the same process, every task is accounted
/// for: it stands in the group, or its error stands among the start errors.
pub proof fn law_every_task_accounted_for<M, E>(tasks: Seq<StartedTask<M, E>>)
    requires
        distinct_starts(tasks),
    ensures
        children_started(tasks).len() + start_errors(tasks).len() == tasks.len(),
    decreases tasks.len(),
{
    if tasks.len() > 0 {
        let before = tasks.drop_last();
        let last = tasks.len() - 1;
        assert forall|earlier: int, later: int|
            0 <= earlier < later < before.len() && (#[trigger] before[earlier]).0 is Ok implies (
        #[trigger] before[later]).0 != before[earlier].0 by {}
        law_every_task_accounted_for(before);
        law_group_holds_started_tasks(before);
    }
}

/// A task that did not start puts the group into the mode that its policy asks
/// for before any child is polled; where all tasks started, the group starts
/// in [SpawningMode::ProcessAll] and no error is reported.
pub proof fn law_start_mode<M, E>(tasks: Seq<StartedTask<M, E>>, until: GroupEnd)
    ensures
        all_started(tasks) <==> start_errors(tasks).len() == 0,
        all_started(tasks) ==> mode_after_start(tasks, until) == SpawningMode::ProcessAll,
        !all_started(tasks) ==> mode_after_start(tasks, until) == until.failure_mode(),
        mode_after_start(tasks, until).fits(until),
    decreases tasks.len(),
{
    if tasks.len() > 0 {
        let before = tasks.drop_last();
        law_start_mode(before, until);
        if all_started(before) && tasks.last().0 is Ok {
            assert forall|index: int| 0 <= index < tasks.len() implies (#[trigger] tasks[index]).0
                is Ok by {
                if index < before.len() {
                    assert(before[index] == tasks[index]);
                }
            }
        }
        if all_started(tasks) {
            assert forall|index: int| 0 <= index < before.len() implies (
            #[trigger] before[index]).0 is Ok by {}
        }
    }
}

/// Whether the child at `index` is the first that is not still running: it
/// has finished, or it could not be polled.
pub open spec fn first_settled_at<E>(polled: Seq<PolledChild<E>>, index: int) -> bool {
    &&& 0 <= index < polled.len()
    &&& polled[index].1 != Ok::<Option<ExitStatus>, E>(None)
    &&& forall|earlier: int|
        0 <= earlier < index ==> (#[trigger] polled[earlier]).1 == Ok::<Option<ExitStatus>, E>(
            None,
        )
}

/// A scan finds no child finished if and only if all children are still
/// running. Otherwise it goes by the first child that is not: it finds this
/// child, if it has finished, and fails with its error, if it could not be
/// polled. What was polled after this child plays no part.
pub proof fn law_scan_goes_by_first_settled<E>(polled: Seq<PolledChild<E>>)
    ensures
        first_finished(polled) == Ok::<Option<ChildProcessId>, E>(None) <==> forall|index: int|
            0 <= index < polled.len() ==> (#[trigger] polled[index]).1 == Ok::<
                Option<ExitStatus>,
                E,
            >(None),
        forall|index: int| #[trigger]
            first_settled_at(polled, index) ==> first_finished(polled) == match polled[index].1 {
                Ok(_) => Ok::<Option<ChildProcessId>, E>(Some(polled[index].0)),
                Err(error) => Err(error),
            },
        first_finished(polled) != Ok::<Option<ChildProcessId>, E>(None) ==> exists|index: int|
            first_settled_at(polled, index),
    decreases polled.len(),
{
    if polled.len() > 0 {
        let rest = polled.drop_first();
        law_scan_goes_by_first_settled(rest);
        assert forall|index: int| 0 <= index < rest.len() implies #[trigger] rest[index]
            == polled[index + 1] by {}
        if polled.first().1 == Ok::<Option<ExitStatus>, E>(None) {
            assert forall|index: int| #[trigger] first_settled_at(polled, index) implies
                first_settled_at(rest, index - 1) by {
                assert forall|earlier: int| 0 <= earlier < index - 1 implies (
                #[trigger] rest[earlier]).1 == Ok::<Option<ExitStatus>, E>(None) by {}
            }
            if first_finished(polled) != Ok::<Option<ChildProcessId>, E>(None) {
                let index = choose|index: int| first_settled_at(rest, index);
                assert(first_settled_at(polled, index + 1)) by {
                    assert forall|earlier: int| 0 <= earlier < index + 1 implies (
                    #[trigger] polled[earlier]).1 == Ok::<Option<ExitStatus>, E>(None) by {
                        if earlier > 0 {
                            assert(rest[earlier - 1].1 == Ok::<Option<ExitStatus>, E>(None));
                        }
                    }
                }
            }
            if forall|index: int|
                0 <= index < rest.len() ==> (#[trigger] rest[index]).1 == Ok::<
                    Option<ExitStatus>,
                    E,
                >(None) {
                assert forall|index: int| 0 <= index < polled.len() implies (
                #[trigger] polled[index]).1 == Ok::<Option<ExitStatus>, E>(None) by {
                    if index > 0 {
                        assert(rest[index - 1].1 == Ok::<Option<ExitStatus>, E>(None));
                    }
                }
            }
            if forall|index: int|
                0 <= index < polled.len() ==> (#[trigger] polled[index]).1 == Ok::<
                    Option<ExitStatus>,
                    E,
                >(None) {
                assert forall|index: int| 0 <= index < rest.len() implies (
                #[trigger] rest[index]).1 == Ok::<Option<ExitStatus>, E>(None) by {}
            }
        } else {
            assert(first_settled_at(polled, 0));
        }
    }
}

/// Where the children of a group were polled, the child that the scan finds
/// finished is one of the group: its output can be collected and handed to
/// the group.
pub proof fn law_found_child_is_of_the_group<M, E>(
    children: Map<u32, ChildInfoMeta<M>>,
    polled: Seq<PolledChild<E>>,
    collected: Result<ProcessOutput, E>,
)
    requires
        forall|index: int|
            0 <= index < polled.len() ==> children.contains_key(
                child_id_value((#[trigger] polled[index]).0),
            ),
        first_finished(polled) is Ok,
        first_finished(polled)->Ok_0 is Some,
    ensures
        scan_fits(children, Scanned::Finished(first_finished(polled)->Ok_0->Some_0, collected)),
{
    law_scan_goes_by_first_settled(polled);
}

/// The run of a group that has just started is a valid one.
pub proof fn law_start_is_valid<M, E>(
    children: Map<u32, ChildInfoMeta<M>>,
    mode: SpawningMode,
    until: GroupEnd,
)
    requires
        children.dom().finite(),
        mode.fits(until),
    ensures
        GroupRunView::<M, E>::start(children, mode, until).valid(),
{
    assert(Map::<u32, ChildInfoMeta<M>>::empty().union_prefer_right(children) == children);
}

/// A scan keeps a valid run valid.
pub proof fn law_scan_keeps_valid<M, E>(run: GroupRunView<M, E>, scanned: Scanned<E>)
    requires
        run.valid(),
        scan_fits(run.children, scanned),
    ensures
        run.after(scanned).valid(),
{
    if let Scanned::Finished(id, _) = scanned {
        let left = run.children.remove(child_id_value(id));
        assert(run.stopped.union_prefer_right(left) == left);
    }
}

/// What is held in a part of a part of a map is held in the map.
proof fn lemma_submap_of_submap<K, V>(part: Map<K, V>, middle: Map<K, V>, whole: Map<K, V>)
    requires
        part.submap_of(middle),
        middle.submap_of(whole),
    ensures
        part.submap_of(whole),
{
    assert forall|key: K| #[trigger] part.dom().contains(key) implies whole.dom().contains(key)
        && part[key] == whole[key] by {
        assert(middle.dom().contains(key));
    }
}

/// A group's life goes one way. Whatever is scanned, the policy stays; a mode
/// of failure, once entered, stays; children only leave the group; the
/// outputs that are there stay where they are; and a child is stopped only if
/// it was still running.
pub proof fn law_run_goes_one_way<M, E>(run: GroupRunView<M, E>, events: Seq<Scanned<E>>)
    requires
        run.valid(),
        run.fit(events),
    ensures
        ({
            let end = run.after_all(events).0;
            &&& end.valid()
            &&& end.until == run.until
            &&& run.mode.is_failure() ==> end.mode == run.mode
            &&& end.children.submap_of(run.children)
            &&& run.outputs.is_prefix_of(end.outputs)
            &&& end.stopped.submap_of(run.stopped.union_prefer_right(run.children))
        }),
    decreases events.len(),
{
    let held = run.stopped.union_prefer_right(run.children);
    if events.len() > 0 && !(events.first() is Failed) {
        let first = events.first();
        let next = run.after(first);
        let end = next.after_all(events.drop_first()).0;
        law_scan_keeps_valid(run, first);
        law_run_goes_one_way(next, events.drop_first());
        if let Scanned::Finished(id, _) = first {
            let left = run.children.remove(child_id_value(id));
            assert(next.stopped.union_prefer_right(next.children) == left);
            assert(held == run.children);
            lemma_submap_of_submap(end.children, next.children, run.children);
            lemma_submap_of_submap(end.stopped, left, held);
        }
    }
}

/// Where all tasks of a group succeed, the group stays in
/// [SpawningMode::ProcessAll], no child is stopped, and every child has either
/// left its output or is still running.
pub proof fn law_successes_keep_all<M, E>(run: GroupRunView<M, E>, events: Seq<Scanned<E>>)
    requires
        run.valid(),
        run.mode == SpawningMode::ProcessAll,
        run.fit(events),
        all_succeeded(events),
    ensures
        ({
            let (end, error) = run.after_all(events);
            &&& error is None
            &&& end.mode == SpawningMode::ProcessAll
            &&& end.stopped == run.stopped
            &&& end.outputs.len() + end.children.len() == run.outputs.len() + run.children.len()
        }),
    decreases events.len(),
{
    if events.len() > 0 {
        let first = events.first();
        let next = run.after(first);
        law_scan_keeps_valid(run, first);
        assert forall|index: int| 0 <= index < events.drop_first().len() implies succeeded(
            #[trigger] events.drop_first()[index],
        ) by {}
        law_successes_keep_all(next, events.drop_first());
    }
}

/// Where all tasks of a group start, each as a process of its own, and all of
/// them succeed, the group ends in [SpawningMode::ProcessAll] with as many
/// outputs as it had tasks.
pub proof fn law_all_tasks_succeed<M, E>(
    tasks: Seq<StartedTask<M, E>>,
    until: GroupEnd,
    events: Seq<Scanned<E>>,
)
    requires
        all_started(tasks),
        distinct_starts(tasks),
        all_succeeded(events),
        GroupRunView::<M, E>::start(
            children_started(tasks),
            mode_after_start(tasks, until),
            until,
        ).fit(events),
        GroupRunView::<M, E>::start(
            children_started(tasks),
            mode_after_start(tasks, until),
            until,
        ).after_all(events).0.done(),
    ensures
        ({
            let (end, error) = GroupRunView::<M, E>::start(
                children_started(tasks),
                mode_after_start(tasks, until),
                until,
            ).after_all(events);
            &&& error is None
            &&& end.mode == SpawningMode::ProcessAll
            &&& end.outputs.len() == tasks.len()
        }),
{
    let start = GroupRunView::<M, E>::start(
        children_started(tasks),
        mode_after_start(tasks, until),
        until,
    );
    law_start_mode(tasks, until);
    law_group_holds_started_tasks(tasks);
    law_every_task_accounted_for(tasks);
    law_start_is_valid::<M, E>(children_started(tasks), mode_after_start(tasks, until), until);
    law_successes_keep_all(start, events);
}

/// Under [GroupEnd::OnFailureStopAll], the first task that fails stops all
/// others: its own output is kept, every other child that is still running is
/// stopped, and whatever is scanned later adds no output.
pub proof fn law_failure_stops_all<M, E>(
    run: GroupRunView<M, E>,
    id: ChildProcessId,
    collected: Result<ProcessOutput, E>,
    later: Seq<Scanned<E>>,
)
    requires
        run.valid(),
        run.until == GroupEnd::OnFailureStopAll,
        run.mode == SpawningMode::ProcessAll,
        run.children.contains_key(child_id_value(id)),
        ({
            let output = output_of(run.children[child_id_value(id)], collected);
            indicates_error(output.0, output.1)
        }),
    ensures
        ({
            let output = output_of(run.children[child_id_value(id)], collected);
            let next = run.after(Scanned::Finished(id, collected));
            &&& next.mode == SpawningMode::StopAll
            &&& next.done()
            &&& next.stopped == run.children.remove(child_id_value(id))
            &&& next.outputs == run.outputs.push(output)
            &&& next.fit(later) ==> next.after_all(later).0 == next
        }),
{
    lemma_done_run_stays(run.after(Scanned::Finished(id, collected)), later);
}

/// Under [GroupEnd::OnFailureStopAll], a task that did not start stops all
/// that did: the group is done before its first scan, every child that
/// started is stopped, and none leaves an output, whatever is scanned later.
pub proof fn law_start_failure_stops_all<M, E>(
    tasks: Seq<StartedTask<M, E>>,
    events: Seq<Scanned<E>>,
)
    requires
        !all_started(tasks),
    ensures
        ({
            let start = GroupRunView::<M, E>::start(
                children_started(tasks),
                mode_after_start(tasks, GroupEnd::OnFailureStopAll),
                GroupEnd::OnFailureStopAll,
            );
            &&& start.mode == SpawningMode::StopAll
            &&& start.done()
            &&& start.stopped == children_started(tasks)
            &&& start.outputs.len() == 0
            &&& start.fit(events) ==> start.after_all(events).0 == start
        }),
{
    let start = GroupRunView::<M, E>::start(
        children_started(tasks),
        mode_after_start(tasks, GroupEnd::OnFailureStopAll),
        GroupEnd::OnFailureStopAll,
    );
    law_start_mode(tasks, GroupEnd::OnFailureStopAll);
    assert(Map::<u32, ChildInfoMeta<M>>::empty().union_prefer_right(children_started(tasks))
        == children_started(tasks));
    lemma_done_run_stays(start, events);
}

/// A run without children stays as it is, whatever is scanned.
proof fn lemma_done_run_stays<M, E>(run: GroupRunView<M, E>, events: Seq<Scanned<E>>)
    requires
        run.children == Map::<u32, ChildInfoMeta<M>>::empty(),
    ensures
        run.fit(events) ==> run.after_all(events).0 == run,
    decreases events.len(),
{
    if events.len() > 0 && run.fit(events) && !(events.first() is Failed) {
        lemma_done_run_stays(run, events.drop_first());
    }
}

/// Under a policy that stops no child, every child that is running leaves its
/// output, whether or not another task has failed: once the group is done,
/// the outputs hold what was there before, then one entry for each child that
/// was still running, and no child was stopped.
pub proof fn law_active_children_finish<M, E>(run: GroupRunView<M, E>, events: Seq<Scanned<E>>)
    requires
        run.valid(),
        run.until != GroupEnd::OnFailureStopAll,
        run.fit(events),
        run.after_all(events).0.done(),
    ensures
        ({
            let end = run.after_all(events).0;
            &&& end.outputs.len() == run.outputs.len() + run.children.len()
            &&& end.outputs.take(run.outputs.len() as int) == run.outputs
            &&& forall|key: u32| #[trigger]
                run.children.contains_key(key) ==> appears(
                    end.outputs,
                    run.outputs.len() as int,
                    run.children[key],
                )
            &&& end.stopped == Map::<u32, ChildInfoMeta<M>>::empty()
        }),
    decreases events.len(),
{
    let end = run.after_all(events).0;
    if events.len() > 0 && events.first() is NoneFinished {
        law_active_children_finish(run, events.drop_first());
    } else if events.len() > 0 && events.first() is Finished {
        let first = events.first();
        let next = run.after(first);
        let found = child_id_value(first->Finished_0);
        let kept = run.outputs.len() as int;
        law_scan_keeps_valid(run, first);
        law_active_children_finish(next, events.drop_first());
        assert(end.outputs.take(kept) == run.outputs) by {
            assert(end.outputs.take(kept + 1).take(kept) == end.outputs.take(kept));
        }
        assert forall|key: u32| #[trigger] run.children.contains_key(key) implies appears(
            end.outputs,
            kept,
            run.children[key],
        ) by {
            if key == found {
                assert(end.outputs.take(kept + 1)[kept] == next.outputs[kept]);
            } else {
                assert(appears(end.outputs, kept + 1, next.children[key]));
            }
        }
    }
}

} // verus!
