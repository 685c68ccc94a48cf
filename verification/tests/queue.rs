use var_desktop::queue::{
    cancel_recovery_tasks, enqueue_tasks, ensure_queue_orders_for_queued_tasks, get_queue_recovery_state,
    has_pending_queue_recovery, initialize_runtime_task_state, load_pending_queue_recovery_tasks,
    load_queued_task_positions, next_queue_order, queue_position_for_task, resolve_queue_recovery,
    EnqueueError, QueueRecoveryResolution, QueueRecoveryTask,
};

fn task(id: &str, name: &str, order: i64) -> QueueRecoveryTask {
    QueueRecoveryTask { task_id: id.to_string(), name: name.to_string(), queue_order: order }
}

#[test]
fn next_order_follows_the_largest() {
    assert_eq!(next_queue_order(None), 1);
    assert_eq!(next_queue_order(Some(7)), 8);
    assert_eq!(next_queue_order(Some(-3)), -2);
}

#[test]
fn missing_orders_continue_after_the_largest() {
    assert_eq!(ensure_queue_orders_for_queued_tasks(&vec![4, 9], Some(5)), vec![(4, 6), (9, 7)]);
    assert_eq!(ensure_queue_orders_for_queued_tasks(&vec![2], None), vec![(2, 1)]);
    assert!(ensure_queue_orders_for_queued_tasks(&vec![], Some(5)).is_empty());
}

#[test]
fn queue_positions_count_rows_in_order() {
    let rows = vec![(10, None), (11, Some(1)), (12, Some(2)), (13, Some(2))];
    assert_eq!(load_queued_task_positions(&rows), vec![(11, 2), (12, 3), (13, 4)]);
    assert_eq!(queue_position_for_task(&rows, 11), Some(1));
    assert_eq!(queue_position_for_task(&rows, 12), Some(3));
    assert_eq!(queue_position_for_task(&rows, 10), None);
    assert_eq!(queue_position_for_task(&rows, 99), None);
}

#[test]
fn enqueue_assigns_consecutive_orders() {
    let ids = vec![3, 4];
    let statuses = vec![Some("PENDING".to_string()), Some("FAILED".to_string())];
    let (assigned, err) = enqueue_tasks(false, &ids, &statuses, &["PENDING", "FAILED"], 10);
    assert_eq!(assigned, vec![(3, 10), (4, 11)]);
    assert!(err.is_none());
}

#[test]
fn enqueue_stops_at_the_first_refusal() {
    let ids = vec![3, 4, 5];
    let statuses = vec![Some("PENDING".to_string()), Some("ANALYZING".to_string()), Some("PENDING".to_string())];
    let (assigned, err) = enqueue_tasks(false, &ids, &statuses, &["PENDING"], 1);
    assert_eq!(assigned, vec![(3, 1)]);
    assert!(matches!(err, Some(EnqueueError::StatusNotAllowed(s)) if s == "ANALYZING"));

    let statuses = vec![None, Some("PENDING".to_string()), Some("PENDING".to_string())];
    let (assigned, err) = enqueue_tasks(false, &ids, &statuses, &["PENDING"], 1);
    assert!(assigned.is_empty());
    assert!(matches!(err, Some(EnqueueError::TaskNotFound(3))));

    let (assigned, err) = enqueue_tasks(true, &ids, &statuses, &["PENDING"], 1);
    assert!(assigned.is_empty());
    assert!(matches!(err, Some(EnqueueError::RecoveryPending)));
}

#[test]
fn recovery_tasks_come_from_queued_rows() {
    let tasks = load_pending_queue_recovery_tasks(&vec![(7, "a".to_string(), 2), (-1, "b".to_string(), 0)]);
    assert_eq!(tasks.len(), 2);
    assert_eq!(tasks[0].task_id, "7");
    assert_eq!(tasks[0].name, "a");
    assert_eq!(tasks[0].queue_order, 2);
    assert_eq!(tasks[1].task_id, "-1");

    assert!(initialize_runtime_task_state(Vec::new()).is_none());
    let pending = initialize_runtime_task_state(vec![task("1", "x", 1)]);
    assert!(has_pending_queue_recovery(&pending));
    assert!(!has_pending_queue_recovery(&None));
    assert!(!has_pending_queue_recovery(&Some(Vec::new())));

    let state = get_queue_recovery_state(&pending);
    assert!(state.has_pending_recovery);
    assert_eq!(state.tasks.len(), 1);
    let empty = get_queue_recovery_state(&None);
    assert!(!empty.has_pending_recovery);
    assert!(empty.tasks.is_empty());
}

#[test]
fn recovery_resolution() {
    let r = resolve_queue_recovery(None, true);
    assert!(matches!(r, QueueRecoveryResolution::NothingPending));
    assert_eq!(r.message(), "当前没有待恢复的排队任务");
    let r = resolve_queue_recovery(Some(vec![task("1", "x", 1)]), true);
    assert!(matches!(r, QueueRecoveryResolution::Resume));
    assert_eq!(r.message(), "已恢复上次排队任务");
    let r = resolve_queue_recovery(Some(vec![task("1", "x", 1)]), false);
    assert_eq!(r.message(), "已取消恢复并将任务改回待启动");
    match r {
        QueueRecoveryResolution::Cancel(tasks) => assert_eq!(tasks[0].task_id, "1"),
        other => panic!("unexpected {other:?}"),
    }
}

#[test]
fn cancelled_recovery_ids_are_parsed() {
    let (ids, bad) = cancel_recovery_tasks(&vec![task("4", "a", 1), task("8", "b", 2)]);
    assert_eq!(ids, vec![4, 8]);
    assert!(bad.is_none());
    let (ids, bad) = cancel_recovery_tasks(&vec![task("4", "a", 1), task("x", "b", 2), task("9", "c", 3)]);
    assert_eq!(ids, vec![4]);
    assert_eq!(bad.as_deref(), Some("x"));
}

#[test]
fn recovery_ids_read_back_unchanged() {
    let rows: Vec<(i64, String, i64)> = [i64::MIN, -1, 0, 42, i64::MAX].iter().map(|id| (*id, "t".to_string(), 1)).collect();
    let tasks = load_pending_queue_recovery_tasks(&rows);
    let (ids, bad) = cancel_recovery_tasks(&tasks);
    assert!(bad.is_none());
    assert_eq!(ids, vec![i64::MIN, -1, 0, 42, i64::MAX]);
}

#[test]
fn task_not_queued_has_no_position() {
    let rows = vec![(10, Some(1)), (11, Some(2)), (12, Some(5))];
    assert_eq!(load_queued_task_positions(&rows), vec![(10, 1), (11, 2), (12, 3)]);
    assert_eq!(queue_position_for_task(&rows, 12), Some(3));
    assert_eq!(queue_position_for_task(&rows, 99), None);
    assert_eq!(queue_position_for_task(&vec![(7, None)], 7), None);
}
