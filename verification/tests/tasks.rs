use var_desktop::tasks::{
    build_task_list_order_clause, check_app_exit, check_batch_delete_entry, check_batch_delete_recovery,
    check_delete_task, check_reanalysis, check_task_not_running, dequeue_task_record, dequeue_update_result,
    event_statistics, page_meta, page_window, parse_task_id, plan_delete_tasks, task_result_available,
    TaskActionError, COMPLETED_ASC, COMPLETED_DESC, STATUS_RANK_ASC, STATUS_RANK_DESC,
};
use var_desktop::text::IntErrorKind;

fn strings(v: &[&str]) -> Vec<String> {
    v.iter().map(|s| s.to_string()).collect()
}

#[test]
fn task_ids_parse_as_integers() {
    assert_eq!(parse_task_id("42"), Ok(42));
    assert_eq!(parse_task_id("-7"), Ok(-7));
    assert_eq!(parse_task_id(""), Err(IntErrorKind::Empty));
    assert_eq!(parse_task_id("4x"), Err(IntErrorKind::InvalidDigit));
    assert_eq!(parse_task_id("99999999999999999999"), Err(IntErrorKind::PosOverflow));
    assert_eq!(TaskActionError::InvalidTaskId(IntErrorKind::Empty).message(), "".parse::<i64>().unwrap_err().to_string());
}

#[test]
fn order_clauses() {
    assert_eq!(build_task_list_order_clause(None, Some("createdAt"), Some("asc")), "created_at ASC, id ASC");
    assert_eq!(build_task_list_order_clause(None, Some("createdAt"), None), "created_at DESC, id DESC");
    assert_eq!(build_task_list_order_clause(None, Some("status"), Some("desc")), STATUS_RANK_DESC);
    assert_eq!(build_task_list_order_clause(None, Some("status"), None), STATUS_RANK_ASC);
    assert_eq!(build_task_list_order_clause(None, Some("completedAt"), Some("asc")), COMPLETED_ASC);
    assert_eq!(build_task_list_order_clause(None, Some("completedAt"), Some("desc")), COMPLETED_DESC);
    assert_eq!(build_task_list_order_clause(Some("QUEUED"), None, None), "queue_order ASC, created_at ASC, id ASC");
    assert_eq!(build_task_list_order_clause(Some("FAILED"), Some("name"), None), "created_at DESC, id DESC");
}

#[test]
fn paging() {
    let w = page_window(None, None);
    assert_eq!((w.page, w.size, w.offset), (0, 20, 0));
    let w = page_window(Some(3), Some(500));
    assert_eq!((w.page, w.size, w.offset), (3, 100, 300));
    let w = page_window(Some(-2), Some(0));
    assert_eq!((w.page, w.size, w.offset), (0, 1, 0));

    let m = page_meta(45, 0, 20);
    assert_eq!(m.total_pages, 3);
    assert!(m.has_next);
    assert!(!m.has_previous);
    let m = page_meta(45, 2, 20);
    assert!(!m.has_next);
    assert!(m.has_previous);
    let m = page_meta(0, 0, 20);
    assert_eq!(m.total_pages, 0);
    assert!(!m.has_next);
    let m = page_meta(40, 1, 20);
    assert_eq!(m.total_pages, 2);
    assert!(!m.has_next);
}

#[test]
fn task_action_checks() {
    assert!(check_app_exit(0, false).is_ok());
    assert!(check_app_exit(2, true).is_ok());
    let e = check_app_exit(2, false).unwrap_err();
    assert_eq!(e.message(), "当前仍有 2 个分析任务正在运行");

    assert!(dequeue_task_record("QUEUED").is_ok());
    assert_eq!(dequeue_task_record("PENDING").unwrap_err().message(), "当前任务状态不允许移出队列: PENDING");
    assert_eq!(dequeue_update_result(0).unwrap_err().message(), "任务状态已变化，无法移出队列");
    assert!(dequeue_update_result(1).is_ok());

    for s in ["COMPLETED", "COMPLETED_TIMEOUT", "FAILED"] {
        assert!(check_reanalysis(s).is_ok());
    }
    assert_eq!(check_reanalysis("QUEUED").unwrap_err().message(), "当前任务状态不允许重新分析: QUEUED");

    assert!(task_result_available("COMPLETED").is_ok());
    assert!(task_result_available("COMPLETED_TIMEOUT").is_ok());
    assert_eq!(task_result_available("FAILED").unwrap_err().message(), "任务尚未完成，无法获取结果");

    assert_eq!(check_task_not_running(true).unwrap_err().message(), "正在执行中的任务不能删除");
    assert!(check_task_not_running(false).is_ok());
}

#[test]
fn delete_rules() {
    assert!(matches!(check_delete_task("ANALYZING", false), Err(TaskActionError::TaskRunning)));
    assert!(matches!(check_delete_task("PREPROCESSING", false), Err(TaskActionError::TaskRunning)));
    assert!(matches!(check_delete_task("QUEUED", true), Err(TaskActionError::RecoveryPending)));
    assert!(matches!(check_delete_task("QUEUED", false), Ok(true)));
    assert!(matches!(check_delete_task("FAILED", true), Ok(false)));

    assert_eq!(plan_delete_tasks(&strings(&["3", "5", "3"]), &vec![9]).unwrap(), vec![3, 5]);
    assert!(matches!(plan_delete_tasks(&strings(&[]), &vec![]), Err(TaskActionError::NothingSelected)));
    assert!(matches!(plan_delete_tasks(&strings(&["3", "9"]), &vec![9]), Err(TaskActionError::SelectionHasRunningTask)));
    assert!(matches!(
        plan_delete_tasks(&strings(&["3", "x", ""]), &vec![]),
        Err(TaskActionError::InvalidTaskId(IntErrorKind::InvalidDigit))
    ));
    assert_eq!(TaskActionError::NothingSelected.message(), "请选择要删除的任务");
    assert_eq!(
        TaskActionError::SelectionHasRunningTask.message(),
        "选中的任务包含正在执行中的任务，不能批量删除"
    );

    let e = check_batch_delete_entry("ANALYZING", "熔池 1").unwrap_err();
    assert_eq!(e.message(), "任务“熔池 1”正在执行中，不能批量删除");
    assert!(matches!(check_batch_delete_entry("QUEUED", "a"), Ok(true)));
    assert!(matches!(check_batch_delete_entry("PENDING", "a"), Ok(false)));
    assert_eq!(check_batch_delete_recovery(true, true).unwrap_err().message(), "存在待恢复的排队任务，请先处理恢复弹窗");
    assert!(check_batch_delete_recovery(true, false).is_ok());
    assert!(check_batch_delete_recovery(false, true).is_ok());
}

#[test]
fn event_statistics_count_each_type() {
    let stats = event_statistics(&strings(&["spatter", "crack", "spatter", "spatter"]));
    let mut sorted = stats.clone();
    sorted.sort();
    assert_eq!(sorted, vec![("crack".to_string(), 1), ("spatter".to_string(), 3)]);
    assert!(event_statistics(&Vec::new()).is_empty());
}
