//! The database's shape over time: which columns older databases lack and the
//! statements that add them, when a database is rebuilt, and where its backup
//! goes before a migration.

use vstd::prelude::*;
use crate::clock::{compact_datetime_text, format_compact_datetime, LocalTimestamp};
use crate::paths::{joined, seg_views, LibPath};
use crate::text::{owned, push_str, str_eq, string_of};

verus! {

/// Whether `name` is among the column names `columns`.
pub open spec fn has_column(columns: Seq<String>, name: Seq<char>) -> bool {
    exists|i: int| 0 <= i < columns.len() && #[trigger] columns[i]@ == name
}

fn column_present(columns: &Vec<String>, name: &str) -> (r: bool)
    ensures
        r == has_column(columns@, name@),
{
    let mut i: usize = 0;
    while i < columns.len()
        invariant
            i <= columns.len(),
            forall|j: int| 0 <= j < i ==> columns@[j]@ != name@,
        decreases columns.len() - i,
    {
        if str_eq(columns[i].as_str(), name) {
            assert(columns@[i as int]@ == name@);
            return true;
        }
        i += 1;
    }
    false
}

/// The statement that brings the task settings table up to date, given its
/// columns: the dynamic metrics switch is added, on by default, where it is
/// missing.
pub fn ensure_task_config_schema(columns: &Vec<String>) -> (r: Option<String>)
    ensures
        has_column(columns@, "enable_dynamic_metrics"@) ==> r is None,
        !has_column(columns@, "enable_dynamic_metrics"@) ==> (r matches Some(s) && s@
            == "ALTER TABLE task_configs ADD COLUMN enable_dynamic_metrics INTEGER NOT NULL DEFAULT 1"@),
{
    if column_present(columns, "enable_dynamic_metrics") {
        None
    } else {
        Some(owned("ALTER TABLE task_configs ADD COLUMN enable_dynamic_metrics INTEGER NOT NULL DEFAULT 1"))
    }
}

/// The statements that bring the task table's queue up to date, given its
/// columns: the queue position is added where it is missing, then the index
/// over status and queue position is made where it does not exist.
pub fn ensure_queue_schema(columns: &Vec<String>) -> (r: Vec<String>)
    ensures
        has_column(columns@, "queue_order"@) ==> seg_views(r@) == seq![
            "CREATE INDEX IF NOT EXISTS idx_analysis_tasks_status_queue_order ON analysis_tasks(status, queue_order)"@,
        ],
        !has_column(columns@, "queue_order"@) ==> seg_views(r@) == seq![
            "ALTER TABLE analysis_tasks ADD COLUMN queue_order INTEGER"@,
            "CREATE INDEX IF NOT EXISTS idx_analysis_tasks_status_queue_order ON analysis_tasks(status, queue_order)"@,
        ],
{
    let mut r: Vec<String> = Vec::new();
    assert(seg_views(r@) =~= Seq::<Seq<char>>::empty());
    if !column_present(columns, "queue_order") {
        r.push(owned("ALTER TABLE analysis_tasks ADD COLUMN queue_order INTEGER"));
        assert(seg_views(r@) =~= seq!["ALTER TABLE analysis_tasks ADD COLUMN queue_order INTEGER"@]);
    }
    let ghost before = seg_views(r@);
    r.push(
        owned(
            "CREATE INDEX IF NOT EXISTS idx_analysis_tasks_status_queue_order ON analysis_tasks(status, queue_order)",
        ),
    );
    assert(seg_views(r@) =~= before.push(
        "CREATE INDEX IF NOT EXISTS idx_analysis_tasks_status_queue_order ON analysis_tasks(status, queue_order)"@,
    ));
    r
}

/// The schema version below which a database is dropped and rebuilt.
pub const CURRENT_SCHEMA_VERSION: i64 = 3;

/// Whether a database of this user version is dropped and rebuilt.
pub fn schema_reset_needed(user_version: i64) -> (r: bool)
    ensures
        r == (user_version < CURRENT_SCHEMA_VERSION),
{
    user_version < CURRENT_SCHEMA_VERSION
}

/// Where an existing database is copied before it is opened for migration:
/// `pre-migration-<date>-<time>.sqlite3` in the backup directory, stamped
/// with the local time `now`; nothing is copied when there is no database.
pub fn migration_backup_path(db_exists: bool, backup_dir: &LibPath, now: &LocalTimestamp) -> (r: Option<LibPath>)
    requires
        now.well_formed(),
    ensures
        !db_exists ==> r is None,
        db_exists ==> (r matches Some(p) && p@ == joined(
            backup_dir@,
            "pre-migration-"@ + compact_datetime_text(*now) + ".sqlite3"@,
        )),
{
    if !db_exists {
        return None;
    }
    let stamp = format_compact_datetime(now);
    let mut v: Vec<char> = Vec::new();
    push_str(&mut v, "pre-migration-");
    push_str(&mut v, stamp.as_str());
    push_str(&mut v, ".sqlite3");
    let name = string_of(v.as_slice());
    Some(backup_dir.join(name.as_str()))
}

} // verus!

verus! {

/// The fields of a task that the repair after a restart touches.
#[derive(Debug, Clone)]
pub struct TaskStatusRow {
    pub status: String,
    pub queue_order: Option<i64>,
    pub completed_at: Option<String>,
    pub failure_reason: Option<String>,
}

/// A status in which a worker was executing the task.
pub open spec fn was_running(status: Seq<char>) -> bool {
    status == "PREPROCESSING"@ || status == "ANALYZING"@
}

pub open spec fn opt_text(o: Option<String>) -> Option<Seq<char>> {
    match o {
        Some(s) => Some(s@),
        None => None,
    }
}

/// A task after the application restarted: a task that was being executed
/// when the application stopped has failed, leaves the queue, keeps its
/// completion time and failure reason where it had them and otherwise gets
/// `now` and "桌面端异常退出或重启中断". Other tasks are unchanged. No task
/// is left running.
pub fn repair_inconsistent_task_statuses(row: &TaskStatusRow, now: &str) -> (r: TaskStatusRow)
    ensures
        !was_running(r.status@),
        was_running(row.status@) ==> {
            &&& r.status@ == "FAILED"@
            &&& r.queue_order is None
            &&& opt_text(r.completed_at) == Some(match row.completed_at {
                Some(c) => c@,
                None => now@,
            })
            &&& opt_text(r.failure_reason) == Some(match row.failure_reason {
                Some(f) => f@,
                None => "桌面端异常退出或重启中断"@,
            })
        },
        !was_running(row.status@) ==> {
            &&& r.status@ == row.status@
            &&& r.queue_order == row.queue_order
            &&& opt_text(r.completed_at) == opt_text(row.completed_at)
            &&& opt_text(r.failure_reason) == opt_text(row.failure_reason)
        },
{
    proof {
        reveal_strlit("FAILED");
        reveal_strlit("PREPROCESSING");
        reveal_strlit("ANALYZING");
        assert("FAILED"@.len() != "PREPROCESSING"@.len());
        assert("FAILED"@.len() != "ANALYZING"@.len());
    }
    if str_eq(row.status.as_str(), "PREPROCESSING") || str_eq(row.status.as_str(), "ANALYZING") {
        let completed_at = match &row.completed_at {
            Some(c) => c.clone(),
            None => owned(now),
        };
        let failure_reason = match &row.failure_reason {
            Some(f) => f.clone(),
            None => owned("桌面端异常退出或重启中断"),
        };
        TaskStatusRow {
            status: owned("FAILED"),
            queue_order: None,
            completed_at: Some(completed_at),
            failure_reason: Some(failure_reason),
        }
    } else {
        TaskStatusRow {
            status: row.status.clone(),
            queue_order: row.queue_order,
            completed_at: row.completed_at.clone(),
            failure_reason: row.failure_reason.clone(),
        }
    }
}

} // verus!
