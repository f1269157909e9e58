use openclaudia::session::{
    TaskManager, TaskStatus, TaskUpdateParams, TaskUpdateStatus,
};

fn status(to: TaskUpdateStatus) -> TaskUpdateParams {
    TaskUpdateParams {
        status: Some(to),
        ..Default::default()
    }
}

fn blocks(ids: &[&str]) -> TaskUpdateParams {
    TaskUpdateParams {
        add_blocks: Some(ids.iter().map(|id| id.to_string()).collect()),
        ..Default::default()
    }
}

fn blocked_by(ids: &[&str]) -> TaskUpdateParams {
    TaskUpdateParams {
        add_blocked_by: Some(ids.iter().map(|id| id.to_string()).collect()),
        ..Default::default()
    }
}

/// A manager with a task for each of the subjects.
fn manager(subjects: &[&str]) -> TaskManager {
    let mut tm = TaskManager::new();
    for subject in subjects {
        tm.create_task(subject.to_string(), "Desc".to_string(), None);
    }
    tm
}

#[test]
fn test_task_manager_create() {
    let mut tm = TaskManager::new();
    let task = tm.create_task(
        "Implement feature".to_string(),
        "Add the new feature".to_string(),
        Some("Implementing feature".to_string()),
    );
    assert_eq!(task.id, "task-1");
    assert_eq!(task.subject, "Implement feature");
    assert_eq!(task.status, TaskStatus::Pending);
    assert_eq!(task.active_form, Some("Implementing feature".to_string()));
}

#[test]
fn test_task_manager_auto_increment() {
    let mut tm = TaskManager::new();
    tm.create_task("A".to_string(), "Desc".to_string(), None);
    tm.create_task("B".to_string(), "Desc".to_string(), None);
    tm.create_task("C".to_string(), "Desc".to_string(), None);

    let tasks = tm.list_tasks();
    assert_eq!(tasks.len(), 3);
    assert_eq!(tasks[0].id, "task-1");
    assert_eq!(tasks[1].id, "task-2");
    assert_eq!(tasks[2].id, "task-3");
}

#[test]
fn test_task_manager_update_status() {
    let mut tm = manager(&["Task A"]);
    let result = tm.update_task("task-1", status(TaskUpdateStatus::InProgress));
    assert!(result.is_ok());
    assert_eq!(
        tm.get_task("task-1").unwrap().status,
        TaskStatus::InProgress
    );
}

#[test]
fn test_task_manager_single_in_progress() {
    let mut tm = manager(&["Task A", "Task B"]);

    tm.update_task("task-1", status(TaskUpdateStatus::InProgress))
        .unwrap();
    assert_eq!(
        tm.get_task("task-1").unwrap().status,
        TaskStatus::InProgress
    );

    tm.update_task("task-2", status(TaskUpdateStatus::InProgress))
        .unwrap();
    assert_eq!(tm.get_task("task-1").unwrap().status, TaskStatus::Pending);
    assert_eq!(
        tm.get_task("task-2").unwrap().status,
        TaskStatus::InProgress
    );
}

#[test]
fn test_task_manager_delete() {
    let mut tm = manager(&["To delete"]);
    assert_eq!(tm.list_tasks().len(), 1);

    let result = tm.update_task("task-1", status(TaskUpdateStatus::Deleted));
    // "deleted" returns Ok(None) — task removed, no reference to return
    assert!(result.is_ok());
    assert!(result.unwrap().is_none());
    assert_eq!(tm.list_tasks().len(), 0);
}

#[test]
fn test_task_update_status_parse() {
    assert_eq!(
        TaskUpdateStatus::parse("pending"),
        Some(TaskUpdateStatus::Pending)
    );
    assert_eq!(
        TaskUpdateStatus::parse("in_progress"),
        Some(TaskUpdateStatus::InProgress)
    );
    assert_eq!(
        TaskUpdateStatus::parse("completed"),
        Some(TaskUpdateStatus::Completed)
    );
    assert_eq!(
        TaskUpdateStatus::parse("deleted"),
        Some(TaskUpdateStatus::Deleted)
    );
    assert_eq!(TaskUpdateStatus::parse("invalid"), None);
    assert_eq!(TaskUpdateStatus::parse(""), None);
}

#[test]
fn test_task_manager_not_found() {
    let mut tm = TaskManager::new();
    let result = tm.update_task("task-999", status(TaskUpdateStatus::Completed));
    assert!(result.is_err());
    assert!(result.unwrap_err().contains("not found"));
}

#[test]
fn test_task_manager_dependencies() {
    let mut tm = manager(&["Setup", "Build"]);

    // task-2 blocked by task-1
    tm.update_task("task-2", blocked_by(&["task-1"])).unwrap();

    let task1 = tm.get_task("task-1").unwrap();
    let task2 = tm.get_task("task-2").unwrap();
    assert!(task2.blocked_by.contains(&"task-1".to_string()));
    assert!(task1.blocks.contains(&"task-2".to_string()));
}

#[test]
fn test_task_manager_self_dependency_blocked() {
    let mut tm = manager(&["Task"]);
    let result = tm.update_task("task-1", blocks(&["task-1"]));
    assert!(result.is_err());
    assert!(result.unwrap_err().contains("cannot block itself"));
}

#[test]
fn test_task_manager_current_task() {
    let mut tm = TaskManager::new();
    assert!(tm.current_task().is_none());

    tm.create_task("Task".to_string(), "Desc".to_string(), None);
    assert!(tm.current_task().is_none()); // still pending

    tm.update_task("task-1", status(TaskUpdateStatus::InProgress))
        .unwrap();
    assert!(tm.current_task().is_some());
    assert_eq!(tm.current_task().unwrap().id, "task-1");
}

#[test]
fn test_task_manager_format_summary() {
    let mut tm = TaskManager::new();
    let task = tm.create_task(
        "Fix bug".to_string(),
        "Fix the null pointer".to_string(),
        Some("Fixing bug".to_string()),
    );
    let summary = TaskManager::format_task_summary(task);
    assert!(summary.contains("[ ]")); // pending icon
    assert!(summary.contains("task-1"));
    assert!(summary.contains("Fix bug"));
    assert!(summary.contains("Fixing bug"));
}

#[test]
fn task_status_display_strings() {
    assert_eq!(TaskStatus::Pending.to_string(), "pending");
    assert_eq!(TaskStatus::InProgress.to_string(), "in_progress");
    assert_eq!(TaskStatus::Completed.to_string(), "completed");
}

#[test]
fn new_task_starts_pending() {
    let mut tm = TaskManager::new();
    let t = tm.create_task("Deploy".to_string(), "desc".to_string(), None);
    assert_eq!(t.status, TaskStatus::Pending);
}

#[test]
fn single_in_progress_invariant() {
    let mut tm = manager(&["A", "B", "C"]);
    for id in ["task-1", "task-2", "task-3"] {
        tm.update_task(id, status(TaskUpdateStatus::InProgress))
            .unwrap();
    }

    // Only task-3 should be InProgress; task-1 and task-2 must be Pending.
    assert_eq!(tm.get_task("task-1").unwrap().status, TaskStatus::Pending);
    assert_eq!(tm.get_task("task-2").unwrap().status, TaskStatus::Pending);
    assert_eq!(
        tm.get_task("task-3").unwrap().status,
        TaskStatus::InProgress
    );

    // `current_task()` reflects the single in-progress entry.
    let cur = tm.current_task().unwrap();
    assert_eq!(cur.id, "task-3");
}

#[test]
fn update_nonexistent_task_returns_err() {
    let mut tm = TaskManager::new();
    let res = tm.update_task("task-99", TaskUpdateParams::default());
    assert!(res.is_err());
}

#[test]
fn delete_removes_task_returns_ok_none() {
    let mut tm = manager(&["X"]);
    let res = tm.update_task("task-1", status(TaskUpdateStatus::Deleted));
    assert!(res.is_ok());
    assert!(res.unwrap().is_none(), "Deleted must return Ok(None)");
    assert!(tm.list_tasks().is_empty(), "task must be gone from list");
}

#[test]
fn cycle_detection_rejects_circular_dependency() {
    let mut tm = manager(&["A", "B"]);

    // task-1 blocks task-2
    tm.update_task("task-1", blocks(&["task-2"])).unwrap();

    // Now try to make task-2 block task-1 — should be rejected as a cycle
    let res = tm.update_task("task-2", blocks(&["task-1"]));
    assert!(res.is_err(), "circular dependency must be rejected");
    let msg = res.unwrap_err();
    assert!(
        msg.contains("circular") || msg.contains("cycle"),
        "error must mention circularity, got: {msg}"
    );
}

#[test]
fn add_blocks_syncs_reverse_blocked_by() {
    let mut tm = manager(&["First", "Second"]);
    tm.update_task("task-1", blocks(&["task-2"])).unwrap();

    let t2 = tm.get_task("task-2").unwrap();
    assert!(
        t2.blocked_by.contains(&"task-1".to_string()),
        "task-2.blocked_by must contain task-1 after add_blocks"
    );
}

#[test]
fn issue_593_empty_blocked_by_allows_in_progress() {
    let mut tm = manager(&["Solo"]);
    let res = tm.update_task("task-1", status(TaskUpdateStatus::InProgress));
    assert!(res.is_ok(), "empty blocked_by must allow InProgress");
    assert_eq!(
        tm.get_task("task-1").unwrap().status,
        TaskStatus::InProgress
    );
}

#[test]
fn issue_593_all_blockers_completed_allows_in_progress() {
    let mut tm = manager(&["A", "B", "C"]);

    // task-3 is blocked by task-1 and task-2
    tm.update_task("task-3", blocked_by(&["task-1", "task-2"]))
        .unwrap();

    // Complete both blockers
    tm.update_task("task-1", status(TaskUpdateStatus::Completed))
        .unwrap();
    tm.update_task("task-2", status(TaskUpdateStatus::Completed))
        .unwrap();

    // task-3 should now be allowed to transition
    let res = tm.update_task("task-3", status(TaskUpdateStatus::InProgress));
    assert!(
        res.is_ok(),
        "all-Completed blockers must allow InProgress, got: {res:?}"
    );
    assert_eq!(
        tm.get_task("task-3").unwrap().status,
        TaskStatus::InProgress
    );
}

#[test]
fn issue_593_pending_blocker_rejects_in_progress() {
    let mut tm = manager(&["Setup", "Build"]);

    // task-2 blocked by task-1 (Pending by default)
    tm.update_task("task-2", blocked_by(&["task-1"])).unwrap();

    let res = tm.update_task("task-2", status(TaskUpdateStatus::InProgress));
    assert!(res.is_err(), "Pending blocker must reject InProgress");
    let msg = res.unwrap_err();
    assert!(
        msg.contains("task-1") && msg.contains("pending"),
        "error must name blocker and its status, got: {msg}"
    );
    // Status must not have changed.
    assert_eq!(tm.get_task("task-2").unwrap().status, TaskStatus::Pending);
}

#[test]
fn issue_593_in_progress_blocker_rejects_in_progress() {
    let mut tm = manager(&["Setup", "Build"]);

    // task-2 blocked by task-1
    tm.update_task("task-2", blocked_by(&["task-1"])).unwrap();
    // task-1 is now InProgress (single-in-progress rule still holds)
    tm.update_task("task-1", status(TaskUpdateStatus::InProgress))
        .unwrap();

    let res = tm.update_task("task-2", status(TaskUpdateStatus::InProgress));
    assert!(res.is_err(), "InProgress blocker must reject InProgress");
    let msg = res.unwrap_err();
    assert!(
        msg.contains("task-1") && msg.contains("in_progress"),
        "error must name blocker and its in_progress status, got: {msg}"
    );
    // task-1 must remain InProgress (rejection happens before demote pass).
    assert_eq!(
        tm.get_task("task-1").unwrap().status,
        TaskStatus::InProgress
    );
    assert_eq!(tm.get_task("task-2").unwrap().status, TaskStatus::Pending);
}

#[test]
fn issue_366_combined_pending_edges_cycle_is_detected() {
    let mut tm = TaskManager::new();
    let a = tm
        .create_task("A".to_string(), "a".to_string(), None)
        .id
        .clone();
    let b = tm
        .create_task("B".to_string(), "b".to_string(), None)
        .id
        .clone();

    let result = tm.update_task(
        &a,
        TaskUpdateParams {
            status: None,
            subject: None,
            description: None,
            active_form: None,
            add_blocks: Some(vec![b.clone()]),
            add_blocked_by: Some(vec![b]),
        },
    );
    assert!(
        result.is_err(),
        "combined A->B + B->A in one call must be rejected as a cycle, got: {result:?}"
    );
    let msg = result.unwrap_err();
    assert!(
        msg.contains("circular dependency"),
        "error must mention the cycle, got: {msg}"
    );
}

#[test]
fn issue_366_single_edge_with_no_cycle_succeeds() {
    let mut tm = TaskManager::new();
    let a = tm
        .create_task("A".to_string(), "a".to_string(), None)
        .id
        .clone();
    let b = tm
        .create_task("B".to_string(), "b".to_string(), None)
        .id
        .clone();

    let result = tm.update_task(
        &a,
        TaskUpdateParams {
            status: None,
            subject: None,
            description: None,
            active_form: None,
            add_blocks: Some(vec![b]),
            add_blocked_by: None,
        },
    );
    assert!(
        result.is_ok(),
        "A->B alone (no reverse edge) must be accepted, got: {result:?}"
    );
}

#[test]
fn format_task_detail_contains_required_fields() {
    let mut tm = TaskManager::new();
    let task = tm.create_task(
        "Write tests".to_string(),
        "Full description here".to_string(),
        Some("Writing tests".to_string()),
    );
    let detail = TaskManager::format_task_detail(task);
    assert!(detail.contains("Write tests"));
    assert!(detail.contains("Full description here"));
    assert!(detail.contains("Writing tests"));
    assert!(detail.contains("pending"), "detail must include status");
}

#[test]
fn longer_cycles_are_refused_too() {
    let mut tm = manager(&["A", "B", "C"]);
    tm.update_task("task-1", blocks(&["task-2"])).unwrap();
    tm.update_task("task-2", blocks(&["task-3"])).unwrap();
    assert!(tm.update_task("task-3", blocks(&["task-1"])).is_err());
    assert!(tm.update_task("task-1", blocked_by(&["task-3"])).is_err());
    assert!(tm.update_task("task-1", blocks(&["task-3"])).is_ok());
}

#[test]
fn missing_dependencies_are_refused() {
    let mut tm = manager(&["A"]);
    let err = tm.update_task("task-1", blocks(&["task-9"])).unwrap_err();
    assert!(err.contains("task-9"), "{err}");
    assert!(tm.get_task("task-1").unwrap().blocks.is_empty());
}

#[test]
fn repeated_dependencies_are_listed_once() {
    let mut tm = manager(&["A", "B"]);
    assert!(tm.get_task("task-1").unwrap().blocks.is_empty());
    assert!(tm.get_task("task-1").unwrap().blocked_by.is_empty());
    tm.update_task("task-1", blocks(&["task-2", "task-2"])).unwrap();
    tm.update_task("task-1", blocks(&["task-2"])).unwrap();
    tm.update_task("task-2", blocked_by(&["task-1"])).unwrap();
    assert_eq!(tm.get_task("task-1").unwrap().blocks, vec!["task-2"]);
    assert_eq!(tm.get_task("task-2").unwrap().blocked_by, vec!["task-1"]);
}

#[test]
fn deleted_ids_are_not_used_again() {
    let mut tm = manager(&["A", "B"]);
    tm.update_task("task-1", blocks(&["task-2"])).unwrap();
    tm.update_task("task-1", status(TaskUpdateStatus::Deleted))
        .unwrap();
    // The other task is as it was.
    assert_eq!(tm.get_task("task-2").unwrap().blocked_by, vec!["task-1"]);
    let id = tm
        .create_task("C".to_string(), "Desc".to_string(), None)
        .id
        .clone();
    assert_eq!(id, "task-3");
}

#[test]
fn fields_are_updated_in_one_call() {
    let mut tm = manager(&["A"]);
    let updated = tm
        .update_task(
            "task-1",
            TaskUpdateParams {
                status: Some(TaskUpdateStatus::Completed),
                subject: Some("New".to_string()),
                description: Some("Text".to_string()),
                active_form: Some("Doing".to_string()),
                ..Default::default()
            },
        )
        .unwrap()
        .unwrap();
    assert_eq!(updated.subject, "New");
    assert_eq!(updated.description, "Text");
    assert_eq!(updated.active_form.as_deref(), Some("Doing"));
    assert_eq!(updated.status, TaskStatus::Completed);
    let summary = TaskManager::format_task_summary(tm.get_task("task-1").unwrap());
    assert!(summary.contains("[x]"), "{summary}");
}
