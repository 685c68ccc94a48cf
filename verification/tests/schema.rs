use var_desktop::clock::LocalTimestamp;
use var_desktop::paths::LibPath;
use var_desktop::schema::{ensure_queue_schema, ensure_task_config_schema, migration_backup_path, schema_reset_needed};
use var_desktop::schema::{repair_inconsistent_task_statuses, TaskStatusRow};

fn cols(v: &[&str]) -> Vec<String> {
    v.iter().map(|s| s.to_string()).collect()
}

#[test]
fn task_config_schema_adds_dynamic_metrics_once() {
    assert_eq!(
        ensure_task_config_schema(&cols(&["task_id", "timeout_ratio"])).as_deref(),
        Some("ALTER TABLE task_configs ADD COLUMN enable_dynamic_metrics INTEGER NOT NULL DEFAULT 1")
    );
    assert_eq!(ensure_task_config_schema(&cols(&["task_id", "enable_dynamic_metrics"])), None);
}

#[test]
fn queue_schema_adds_order_and_index() {
    let index = "CREATE INDEX IF NOT EXISTS idx_analysis_tasks_status_queue_order ON analysis_tasks(status, queue_order)";
    assert_eq!(
        ensure_queue_schema(&cols(&["id", "status"])),
        vec!["ALTER TABLE analysis_tasks ADD COLUMN queue_order INTEGER", index]
    );
    assert_eq!(ensure_queue_schema(&cols(&["id", "queue_order"])), vec![index]);
}

#[test]
fn old_databases_are_rebuilt() {
    assert!(schema_reset_needed(0));
    assert!(schema_reset_needed(2));
    assert!(!schema_reset_needed(3));
    assert!(!schema_reset_needed(4));
}

#[test]
fn backups_are_named_by_local_time() {
    let now = LocalTimestamp { year: 2025, month: 3, day: 9, hour: 7, minute: 5, second: 4, nanosecond: 0 };
    let dir = LibPath::new("/data/backups").join("db");
    let p = migration_backup_path(true, &dir, &now).unwrap();
    assert_eq!(p.base, "/data/backups");
    assert_eq!(p.segments, vec!["db", "pre-migration-20250309-070504.sqlite3"]);
    assert!(migration_backup_path(false, &dir, &now).is_none());
}

#[test]
fn restart_repair_fails_interrupted_tasks() {
    let row = TaskStatusRow { status: "ANALYZING".to_string(), queue_order: Some(3), completed_at: None, failure_reason: None };
    let r = repair_inconsistent_task_statuses(&row, "2025-01-01 00:00:00");
    assert_eq!(r.status, "FAILED");
    assert_eq!(r.queue_order, None);
    assert_eq!(r.completed_at.as_deref(), Some("2025-01-01 00:00:00"));
    assert_eq!(r.failure_reason.as_deref(), Some("桌面端异常退出或重启中断"));

    let kept = TaskStatusRow {
        status: "PREPROCESSING".to_string(),
        queue_order: None,
        completed_at: Some("earlier".to_string()),
        failure_reason: Some("oom".to_string()),
    };
    let r = repair_inconsistent_task_statuses(&kept, "now");
    assert_eq!(r.status, "FAILED");
    assert_eq!(r.completed_at.as_deref(), Some("earlier"));
    assert_eq!(r.failure_reason.as_deref(), Some("oom"));

    let queued = TaskStatusRow { status: "QUEUED".to_string(), queue_order: Some(2), completed_at: None, failure_reason: None };
    let r = repair_inconsistent_task_statuses(&queued, "now");
    assert_eq!(r.status, "QUEUED");
    assert_eq!(r.queue_order, Some(2));
    assert_eq!(r.completed_at, None);
}
