use tais_core::task::{Task, TaskManager, TaskStatus};

#[test]
fn test_task_lifecycle() {
    let mut tm = TaskManager::new();
    let task = tm.create("wf1", "诊断", "课前诊断", Some("analyst"), vec![]);
    assert_eq!(task.status, TaskStatus::Assigned);

    let t = tm.start(&task.id).unwrap();
    assert_eq!(t.status, TaskStatus::InProgress);
    assert!(t.started_at.is_some());

    let t = tm.complete(&task.id, "诊断完成").unwrap();
    assert_eq!(t.status, TaskStatus::Completed);
    assert!(t.result.unwrap().contains("诊断完成"));
}

#[test]
fn test_dependencies() {
    let mut tm = TaskManager::new();
    let t1 = tm.create("wf1", "task1", "first", None, vec![]);
    let t2 = tm.create("wf1", "task2", "depends on task1", None, vec![t1.id.clone()]);

    let next = tm.next_ready("wf1").unwrap();
    assert_eq!(next.id, t1.id);

    tm.start(&t1.id).unwrap();
    tm.complete(&t1.id, "done").unwrap();

    let next = tm.next_ready("wf1").unwrap();
    assert_eq!(next.id, t2.id);
}

#[test]
fn test_interrupt_task() {
    let mut tm = TaskManager::new();
    let task = tm.create("wf1", "risky", "high risk task", Some("agent"), vec![]);
    tm.start(&task.id).unwrap();

    let t = tm.interrupt(&task.id, "学生退出").unwrap();
    assert_eq!(t.status, TaskStatus::Interrupted);
    assert_eq!(t.interrupt_reason.unwrap(), "学生退出");

    let err = tm.interrupt(&task.id, "again");
    assert!(err.is_err());
}

#[test]
fn test_workflow_summary() {
    let mut tm = TaskManager::new();
    tm.create("wf1", "t1", "one", Some("a"), vec![]);
    let t2 = tm.create("wf1", "t2", "two", Some("b"), vec![]);
    tm.create("wf1", "t3", "three", None, vec![]);

    tm.start(&t2.id).unwrap();
    tm.complete(&t2.id, "ok").unwrap();

    let summary = tm.workflow_summary("wf1");
    assert_eq!(summary.total, 3);
    assert_eq!(summary.completed, 1);
    assert_eq!(summary.pending, 2);
    assert_eq!(summary.progress_pct, 33);
}

#[test]
fn test_remove_task() {
    let mut tm = TaskManager::new();
    let t = tm.create("wf1", "remove_me", "unwanted", None, vec![]);
    assert_eq!(tm.list_by_workflow("wf1").len(), 1);

    assert!(tm.remove(&t.id));
    assert_eq!(tm.list_by_workflow("wf1").len(), 0);
    assert!(tm.get(&t.id).is_none());
}

#[test]
fn test_task_update() {
    let mut tm = TaskManager::new();
    let t = tm.create("wf1", "old_name", "old_desc", None, vec![]);

    let updated = tm
        .update(&t.id, Some("new_name".into()), Some("new_desc".into()), Some("new_agent".into()), None)
        .unwrap();

    assert_eq!(updated.name, "new_name");
    assert_eq!(updated.description, "new_desc");
    assert!(updated.assigned_agent.contains(&"new_agent".to_string()));
}

#[test]
fn created_ids_carry_workflow_prefix() {
    let mut tm = TaskManager::new();
    let t = tm.create("wf9", "n", "d", None, vec![]);
    assert!(t.id.starts_with("wf9_"));
    assert_eq!(t.id.len(), "wf9_".len() + 8);
    assert_eq!(t.priority, 10);
    let fixed = tm.create_with_suffix("wf9", "n2", "d2", Some("x"), vec![], "abc");
    assert_eq!(fixed.id, "wf9_abc");
    assert_eq!(tm.list_by_workflow("wf9").len(), 2);
}

#[test]
fn start_refused_unless_pending_or_assigned() {
    let mut tm = TaskManager::new();
    let t = tm.create_with_suffix("w", "n", "d", None, vec![], "1");
    tm.start(&t.id).unwrap();
    let e = tm.start(&t.id).unwrap_err();
    assert_eq!(e, "Cannot start task w_1 from status InProgress");
    assert_eq!(tm.start("missing").unwrap_err(), "Task missing not found");
}

#[test]
fn complete_needs_in_progress_and_assign_needs_pending() {
    let mut tm = TaskManager::new();
    let t = tm.create_with_suffix("w", "n", "d", Some("a"), vec![], "1");
    assert_eq!(tm.complete(&t.id, "x").unwrap_err(), "Task w_1 is not in progress");
    assert_eq!(tm.assign(&t.id, "b").unwrap_err(), "Task w_1 is not pending (current: Assigned)");
    let u = tm.create_with_suffix("w", "n", "d", None, vec![], "2");
    let a = tm.assign(&u.id, "b").unwrap();
    assert_eq!(a.status, TaskStatus::Assigned);
    assert_eq!(a.assigned_agent, vec!["b".to_string()]);
    let f = tm.fail(&a.id, "boom").unwrap();
    assert_eq!(f.status, TaskStatus::Failed);
    assert_eq!(f.result.as_deref(), Some("boom"));
    assert_eq!(tm.interrupt(&a.id, "x").unwrap_err(), "Task w_2 is already terminal (Failed)");
}

#[test]
fn assign_lists_agent_once() {
    let mut t = Task::new("id", "wf", "n", "d");
    t.assign("a");
    t.assign("a");
    assert_eq!(t.assigned_agent, vec!["a".to_string()]);
    t.skip();
    assert_eq!(t.status, TaskStatus::Skipped);
    assert!(t.status.is_terminal());
    assert!(!t.status.is_active());
}

#[test]
fn skipped_dependency_counts_as_finished() {
    let mut tm = TaskManager::new();
    let a = tm.create_with_suffix("w", "a", "", None, vec![], "a");
    let b = tm.create_with_suffix("w", "b", "", None, vec![a.id.clone(), "unknown".into()], "b");
    assert!(!tm.dependencies_met(&b));
    tm.interrupt(&a.id, "stop").unwrap();
    // an interrupted dependency does not count as finished
    assert!(!tm.dependencies_met(&tm.get(&b.id).unwrap()));
    let next = tm.next_ready("w");
    assert!(next.is_none());
}

#[test]
fn summary_of_empty_workflow() {
    let tm = TaskManager::new();
    let s = tm.workflow_summary("none");
    assert_eq!(s.total, 0);
    assert_eq!(s.progress_pct, 0);
    assert_eq!(s.workflow_id, "none");
}

#[test]
fn removing_unknown_task_changes_nothing() {
    let mut tm = TaskManager::new();
    tm.create_with_suffix("w", "a", "", None, vec![], "a");
    assert!(!tm.remove("nope"));
    assert_eq!(tm.list_by_workflow("w").len(), 1);
}

#[test]
fn status_names() {
    assert_eq!(TaskStatus::InProgress.name(), "InProgress");
    assert!(TaskStatus::Pending.is_active());
    assert!(TaskStatus::Interrupted.is_terminal());
}

#[test]
fn finished_tasks_cannot_fail() {
    let mut tm = TaskManager::new();
    let t = tm.create_with_suffix("w", "n", "d", None, vec![], "1");
    tm.start(&t.id).unwrap();
    let done = tm.complete(&t.id, "ok").unwrap();
    assert_eq!(tm.fail(&t.id, "late").unwrap_err(), "Task w_1 is already terminal (Completed)");
    let kept = tm.get(&t.id).unwrap();
    assert_eq!(kept.status, TaskStatus::Completed);
    assert_eq!(kept.result, done.result);
}

#[test]
fn settle_records_a_dispatched_run() {
    let mut tm = TaskManager::new();
    let t = tm.create_with_suffix("w", "n", "d", Some("tutor"), vec![], "1");
    let u = tm.create_with_suffix("w", "n", "d", None, vec![], "2");
    assert_eq!(t.dispatch_agent(), "tutor");
    assert_eq!(u.dispatch_agent(), "");
    tm.start(&t.id).unwrap();
    let done = tm.settle(&t.id, Ok("讲完了".to_string())).unwrap();
    assert_eq!(done.status, TaskStatus::Completed);
    assert_eq!(done.result.as_deref(), Some("讲完了"));
    tm.start(&u.id).unwrap();
    let failed = tm.settle(&u.id, Err("skill missing".to_string())).unwrap();
    assert_eq!(failed.status, TaskStatus::Failed);
    assert_eq!(tm.settle(&u.id, Err("again".to_string())).unwrap_err(), "Task w_2 is already terminal (Failed)");
}
