use phantom_newtype::Id;
use process_groups::group::{
    collect_finished_child, life_cycle_step, start_parallel_tasks, try_finished_child,
    ChildInfoMeta, ChildProcessId, GroupOfChildren, PolledChild, Scanned, StartedTask,
    StepResult,
};
use process_groups::indicators::{GroupEnd, SpawningMode};
use process_groups::output::{ExitStatus, ProcessOutput};

fn id(raw: u32) -> ChildProcessId {
    Id::from(raw)
}

fn started(raw: u32, info: &str, meta: u8) -> StartedTask<u8, String> {
    (Ok(raw), info.to_owned(), meta)
}

fn not_started(error: &str, info: &str, meta: u8) -> StartedTask<u8, String> {
    (Err(error.to_owned()), info.to_owned(), meta)
}

fn out(code: i32, stdout: &[u8], stderr: &[u8]) -> ProcessOutput {
    ProcessOutput {
        status: ExitStatus { code: Some(code) },
        stdout: stdout.to_vec(),
        stderr: stderr.to_vec(),
    }
}

fn group_of(pids: &[u32]) -> GroupOfChildren<u8> {
    let tasks: Vec<StartedTask<u8, String>> = pids
        .iter()
        .map(|pid| started(*pid, &format!("task {}", pid), *pid as u8))
        .collect();
    let ((children, _), _) = start_parallel_tasks(tasks, &GroupEnd::ProcessAll);
    children
}

fn sorted_raw(ids: Vec<ChildProcessId>) -> Vec<u32> {
    let mut raw: Vec<u32> = ids.iter().map(|id| *id.get()).collect();
    raw.sort();
    raw
}

#[test]
fn child_info_meta_accessors() {
    let mut child = ChildInfoMeta(41, "description".to_owned(), 5u8);
    assert_eq!(*child.child().get(), 41);
    assert_eq!(child.info(), "description");
    assert_eq!(*child.meta(), 5);
    assert_eq!(child.meta_copy(), 5);
    *child.meta_mut() = 6;
    assert_eq!(*child.meta(), 6);
    assert_eq!(child.meta_copy(), 6);
    assert_eq!(*child.child().get(), 41);
    assert_eq!(child.info(), "description");
}

#[test]
fn new_group_is_empty() {
    let group: GroupOfChildren<u8> = GroupOfChildren::new();
    assert!(group.is_empty());
    assert_eq!(group.len(), 0);
    assert!(group.ids().is_empty());
    assert!(!group.contains(&id(0)));
    assert!(group.get(&id(0)).is_none());
}

#[test]
fn insert_keys_the_child_by_its_own_identifier() {
    let mut group = GroupOfChildren::new();
    assert!(group
        .insert(ChildInfoMeta(300, "a".to_owned(), 1u8))
        .is_none());
    assert!(group.contains(&id(300)));
    assert!(!group.contains(&id(301)));
    assert!(!group.contains(&id(0)));
    assert_eq!(group.len(), 1);
    assert!(!group.is_empty());
    let held = group.get(&id(300)).unwrap();
    assert_eq!(*held.child().get(), 300);
    assert_eq!(held.info(), "a");
    assert_eq!(sorted_raw(group.ids()), vec![300]);
}

#[test]
fn insert_under_a_held_identifier_hands_back_the_earlier_child() {
    let mut group = GroupOfChildren::new();
    group.insert(ChildInfoMeta(7, "first".to_owned(), 1u8));
    let previous = group
        .insert(ChildInfoMeta(7, "second".to_owned(), 2u8))
        .unwrap();
    assert_eq!(previous.info(), "first");
    assert_eq!(previous.meta_copy(), 1);
    assert_eq!(group.len(), 1);
    assert_eq!(group.get(&id(7)).unwrap().info(), "second");
}

#[test]
fn remove_takes_out_the_child_and_only_it() {
    let mut group = group_of(&[1, 2, 3]);
    let removed = group.remove(&id(2)).unwrap();
    assert_eq!(*removed.child().get(), 2);
    assert_eq!(removed.info(), "task 2");
    assert_eq!(removed.meta_copy(), 2);
    assert_eq!(sorted_raw(group.ids()), vec![1, 3]);
    assert!(group.remove(&id(2)).is_none());
    assert!(group.remove(&id(9)).is_none());
    assert_eq!(group.len(), 2);
}

#[test]
fn ids_hold_every_child_once() {
    let group = group_of(&[5, u32::MAX, 0, 77]);
    assert_eq!(sorted_raw(group.ids()), vec![0, 5, 77, u32::MAX]);
}

#[test]
fn start_of_no_tasks() {
    let ((children, mode), errors) =
        start_parallel_tasks(Vec::<StartedTask<u8, String>>::new(), &GroupEnd::OnFailureStopAll);
    assert!(children.is_empty());
    assert_eq!(mode, SpawningMode::ProcessAll);
    assert!(errors.is_empty());
}

#[test]
fn start_where_all_tasks_started() {
    let tasks = vec![started(10, "a", 1), started(11, "b", 2), started(12, "c", 3)];
    let ((children, mode), errors) = start_parallel_tasks(tasks, &GroupEnd::OnFailureStopAll);
    assert_eq!(mode, SpawningMode::ProcessAll);
    assert!(errors.is_empty());
    assert_eq!(children.len(), 3);
    assert_eq!(sorted_raw(children.ids()), vec![10, 11, 12]);
    assert_eq!(children.get(&id(11)).unwrap().info(), "b");
    assert_eq!(children.get(&id(11)).unwrap().meta_copy(), 2);
    assert_eq!(*children.get(&id(12)).unwrap().child().get(), 12);
}

#[test]
fn start_where_the_second_of_three_did_not_start() {
    for (until, expected) in [
        (GroupEnd::OnFailureStopAll, SpawningMode::StopAll),
        (GroupEnd::OnFailureFinishActive, SpawningMode::FinishActive),
        (GroupEnd::ProcessAll, SpawningMode::ProcessAll),
    ] {
        let tasks = vec![
            started(10, "task 1", 1),
            not_started("no such binary", "task 2", 2),
            started(12, "task 3", 3),
        ];
        let ((children, mode), errors) = start_parallel_tasks(tasks, &until);
        assert_eq!(errors, vec!["no such binary".to_owned()]);
        assert_eq!(sorted_raw(children.ids()), vec![10, 12]);
        assert_eq!(children.get(&id(10)).unwrap().info(), "task 1");
        assert_eq!(children.get(&id(12)).unwrap().info(), "task 3");
        assert_eq!(mode, expected);
    }
}

#[test]
fn start_goes_on_after_a_task_that_did_not_start() {
    let tasks = vec![
        not_started("first", "a", 1),
        not_started("second", "b", 2),
        started(3, "c", 3),
        not_started("third", "d", 4),
    ];
    let ((children, mode), errors) = start_parallel_tasks(tasks, &GroupEnd::OnFailureStopAll);
    assert_eq!(
        errors,
        vec!["first".to_owned(), "second".to_owned(), "third".to_owned()]
    );
    assert_eq!(sorted_raw(children.ids()), vec![3]);
    assert_eq!(mode, SpawningMode::StopAll);
}

#[test]
fn start_under_a_process_seen_before_keeps_the_later_task() {
    let tasks = vec![started(4, "early", 1), started(4, "late", 2)];
    let ((children, _), errors) = start_parallel_tasks(tasks, &GroupEnd::ProcessAll);
    assert!(errors.is_empty());
    assert_eq!(children.len(), 1);
    assert_eq!(children.get(&id(4)).unwrap().info(), "late");
}

fn polled(raw: u32, outcome: Result<Option<ExitStatus>, String>) -> PolledChild<String> {
    (id(raw), outcome)
}

fn running(raw: u32) -> PolledChild<String> {
    polled(raw, Ok(None))
}

fn ended(raw: u32, code: i32) -> PolledChild<String> {
    polled(raw, Ok(Some(ExitStatus { code: Some(code) })))
}

fn unknown(raw: u32, error: &str) -> PolledChild<String> {
    polled(raw, Err(error.to_owned()))
}

fn found(result: Result<Option<ChildProcessId>, String>) -> Result<Option<u32>, String> {
    result.map(|id| id.map(|id| *id.get()))
}

#[test]
fn scan_of_no_children_finds_none() {
    assert_eq!(found(try_finished_child(Vec::new())), Ok(None));
}

#[test]
fn scan_of_running_children_finds_none() {
    assert_eq!(
        found(try_finished_child(vec![running(1), running(2), running(3)])),
        Ok(None)
    );
}

#[test]
fn scan_finds_the_first_finished_child() {
    assert_eq!(
        found(try_finished_child(vec![
            running(1),
            ended(2, 0),
            ended(3, 0),
            running(4)
        ])),
        Ok(Some(2))
    );
}

#[test]
fn scan_finds_a_child_that_ended_in_failure() {
    assert_eq!(
        found(try_finished_child(vec![running(8), ended(9, 101)])),
        Ok(Some(9))
    );
}

#[test]
fn scan_stops_at_the_first_error() {
    assert_eq!(
        found(try_finished_child(vec![
            running(1),
            unknown(2, "wait failed"),
            ended(3, 0),
            unknown(4, "later")
        ])),
        Err("wait failed".to_owned())
    );
}

#[test]
fn scan_does_not_see_an_error_behind_a_finished_child() {
    assert_eq!(
        found(try_finished_child(vec![
            ended(1, 0),
            unknown(2, "wait failed")
        ])),
        Ok(Some(1))
    );
}

#[test]
fn scan_gives_the_same_answer_for_the_same_polls() {
    let polls = || vec![running(1), ended(2, 3), running(3)];
    for _ in 0..5 {
        assert_eq!(found(try_finished_child(polls())), Ok(Some(2)));
    }
}

#[test]
fn collect_takes_the_finished_child_out_with_its_output() {
    let children = group_of(&[1, 2, 3]);
    let scanned: Scanned<String> = Scanned::Finished(id(2), Ok(out(0, b"done", b"")));
    let (left, brought) = collect_finished_child(children, scanned).unwrap();
    assert_eq!(sorted_raw(left.ids()), vec![1, 3]);
    assert_eq!(
        brought,
        Some((
            Some((Some(out(0, b"done", b"")), "task 2".to_owned(), 2u8)),
            None
        ))
    );
}

#[test]
fn collect_keeps_the_error_of_an_output_that_was_not_collected() {
    let children = group_of(&[1, 2]);
    let scanned = Scanned::Finished(id(1), Err("pipe broke".to_owned()));
    let (left, brought) = collect_finished_child(children, scanned).unwrap();
    assert_eq!(sorted_raw(left.ids()), vec![2]);
    assert_eq!(
        brought,
        Some((
            Some((None, "task 1".to_owned(), 1u8)),
            Some("pipe broke".to_owned())
        ))
    );
}

#[test]
fn collect_of_a_scan_that_found_none() {
    let scanned: Scanned<String> = Scanned::NoneFinished;
    let (left, brought) = collect_finished_child(group_of(&[1, 2]), scanned).unwrap();
    assert_eq!(sorted_raw(left.ids()), vec![1, 2]);
    assert_eq!(brought, None);
}

#[test]
fn collect_of_an_empty_group_is_none() {
    let scanned: Scanned<String> = Scanned::NoneFinished;
    assert!(collect_finished_child(group_of(&[]), scanned).is_none());
}

#[test]
fn collect_of_a_failed_scan_leaves_the_group() {
    let scanned = Scanned::Failed("wait failed".to_owned());
    let (left, brought) = collect_finished_child(group_of(&[1, 2]), scanned).unwrap();
    assert_eq!(sorted_raw(left.ids()), vec![1, 2]);
    assert_eq!(brought, Some((None, Some("wait failed".to_owned()))));
}

#[test]
fn collect_of_the_last_child_leaves_an_empty_group() {
    let scanned: Scanned<String> = Scanned::Finished(id(1), Ok(out(0, b"", b"")));
    let (left, brought) = collect_finished_child(group_of(&[1]), scanned).unwrap();
    assert!(left.is_empty());
    assert!(brought.is_some());
}

fn step(
    pids: &[u32],
    mode: SpawningMode,
    until: GroupEnd,
    scanned: Scanned<String>,
) -> (Vec<u32>, StepResult<u8, String>) {
    let (left, result) = life_cycle_step((group_of(pids), mode), &until, scanned);
    (sorted_raw(left.ids()), result)
}

#[test]
fn step_without_change() {
    let (left, result) = step(
        &[1, 2],
        SpawningMode::ProcessAll,
        GroupEnd::OnFailureStopAll,
        Scanned::NoneFinished,
    );
    assert_eq!(left, vec![1, 2]);
    assert!(matches!(result, StepResult::NoChange));
}

#[test]
fn step_of_an_empty_group_is_done() {
    let (left, result) = step(
        &[],
        SpawningMode::FinishActive,
        GroupEnd::OnFailureFinishActive,
        Scanned::NoneFinished,
    );
    assert!(left.is_empty());
    assert!(matches!(result, StepResult::GroupDone));
}

#[test]
fn step_with_a_success() {
    let (left, result) = step(
        &[1, 2],
        SpawningMode::ProcessAll,
        GroupEnd::OnFailureStopAll,
        Scanned::Finished(id(1), Ok(out(0, b"fine", b""))),
    );
    assert_eq!(left, vec![2]);
    match result {
        StepResult::Finished(output, mode) => {
            assert_eq!(mode, SpawningMode::ProcessAll);
            assert_eq!(
                output,
                (
                    Some((Some(out(0, b"fine", b"")), "task 1".to_owned(), 1u8)),
                    None
                )
            );
        }
        _ => panic!("the step should have found a finished child"),
    }
}

#[test]
fn step_with_a_failure_changes_the_mode() {
    let (left, result) = step(
        &[1, 2],
        SpawningMode::ProcessAll,
        GroupEnd::OnFailureStopAll,
        Scanned::Finished(id(2), Ok(out(0, b"", b"warning"))),
    );
    assert_eq!(left, vec![1]);
    match result {
        StepResult::Finished(_, mode) => assert_eq!(mode, SpawningMode::StopAll),
        _ => panic!("the step should have found a finished child"),
    }
}

#[test]
fn step_with_a_collection_error_changes_the_mode() {
    let (left, result) = step(
        &[1, 2],
        SpawningMode::ProcessAll,
        GroupEnd::OnFailureFinishActive,
        Scanned::Finished(id(2), Err("lost".to_owned())),
    );
    assert_eq!(left, vec![1]);
    match result {
        StepResult::Finished(output, mode) => {
            assert_eq!(mode, SpawningMode::FinishActive);
            assert_eq!(
                output,
                (
                    Some((None, "task 2".to_owned(), 2u8)),
                    Some("lost".to_owned())
                )
            );
        }
        _ => panic!("the step should have found a finished child"),
    }
}

#[test]
fn step_with_a_scan_error_leaves_the_group() {
    let (left, result) = step(
        &[1, 2],
        SpawningMode::ProcessAll,
        GroupEnd::OnFailureStopAll,
        Scanned::Failed("wait failed".to_owned()),
    );
    assert_eq!(left, vec![1, 2]);
    match result {
        StepResult::ScanError(error) => assert_eq!(error, "wait failed"),
        _ => panic!("the step should have handed the error on"),
    }
}
