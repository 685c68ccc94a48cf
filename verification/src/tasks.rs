//! Task records: ids, list ordering and paging, what each task command
//! allows in which status, the status reports sent to the interface, and the
//! statistics of a finished analysis.

use vstd::prelude::*;
use crate::text::{
    chars_of, concat2, decimal, decimal_int, i64_parse_outcome, i64_to_string, int_error_text, owned,
    parse_i64_detailed, push_decimal, push_str, str_eq, string_of, IntErrorKind,
};

verus! {

/// Reads a task id from the interface, as `str::parse::<i64>()` does.
pub fn parse_task_id(raw: &str) -> (r: Result<i64, IntErrorKind>)
    ensures
        match i64_parse_outcome(raw@) {
            Ok(v) => r == Ok::<i64, IntErrorKind>(v as i64) && v == v as i64,
            Err(e) => r == Err::<i64, IntErrorKind>(e),
        },
{
    let chars = chars_of(raw);
    parse_i64_detailed(chars.as_slice())
}

pub open spec fn opt_is(o: Option<&str>, lit: Seq<char>) -> bool {
    o matches Some(s) && s@ == lit
}

fn opt_eq(o: Option<&str>, lit: &str) -> (r: bool)
    ensures
        r == opt_is(o, lit@),
{
    match o {
        Some(s) => str_eq(s, lit),
        None => false,
    }
}

/// The rank that sorting by status gives each status.
pub const STATUS_RANK_ASC: &'static str = "CASE status
               WHEN 'PENDING' THEN 1
               WHEN 'QUEUED' THEN 2
               WHEN 'PREPROCESSING' THEN 3
               WHEN 'ANALYZING' THEN 4
               WHEN 'COMPLETED' THEN 5
               WHEN 'COMPLETED_TIMEOUT' THEN 6
               WHEN 'FAILED' THEN 7
               ELSE 999
             END ASC,
             created_at DESC,
             id DESC";

pub const STATUS_RANK_DESC: &'static str = "CASE status
               WHEN 'PENDING' THEN 1
               WHEN 'QUEUED' THEN 2
               WHEN 'PREPROCESSING' THEN 3
               WHEN 'ANALYZING' THEN 4
               WHEN 'COMPLETED' THEN 5
               WHEN 'COMPLETED_TIMEOUT' THEN 6
               WHEN 'FAILED' THEN 7
               ELSE 999
             END DESC,
             created_at DESC,
             id DESC";

pub const COMPLETED_ASC: &'static str = "completed_at IS NULL ASC,
             completed_at ASC,
             created_at DESC,
             id DESC";

pub const COMPLETED_DESC: &'static str = "completed_at IS NULL ASC,
             completed_at DESC,
             created_at DESC,
             id DESC";

/// The `ORDER BY` of the task list. Sorting by creation time, status or
/// completion time follows the requested direction (descending unless
/// `asc` is asked for creation and completion time, ascending unless `desc`
/// is asked for status); without a sort key the queued list is in queue
/// order and every other list newest first.
pub open spec fn order_clause(status_filter: Option<&str>, sort_by: Option<&str>, sort_direction: Option<&str>) -> Seq<char> {
    if opt_is(sort_by, "createdAt"@) {
        if opt_is(sort_direction, "asc"@) { "created_at ASC, id ASC"@ } else { "created_at DESC, id DESC"@ }
    } else if opt_is(sort_by, "status"@) {
        if opt_is(sort_direction, "desc"@) { STATUS_RANK_DESC@ } else { STATUS_RANK_ASC@ }
    } else if opt_is(sort_by, "completedAt"@) {
        if opt_is(sort_direction, "asc"@) { COMPLETED_ASC@ } else { COMPLETED_DESC@ }
    } else if opt_is(status_filter, "QUEUED"@) {
        "queue_order ASC, created_at ASC, id ASC"@
    } else {
        "created_at DESC, id DESC"@
    }
}

/// Law: sorting by creation time follows the requested direction. It is
/// oldest first exactly when `asc` is asked, and newest first for any other
/// request, `desc` among them; the two directions give different orders.
pub proof fn law_created_at_follows_direction(
    status_filter: Option<&str>,
    sort_by: Option<&str>,
    sort_direction: Option<&str>,
)
    requires
        opt_is(sort_by, "createdAt"@),
    ensures
        order_clause(status_filter, sort_by, sort_direction) == "created_at ASC, id ASC"@ <==> opt_is(
            sort_direction,
            "asc"@,
        ),
        !opt_is(sort_direction, "asc"@) ==> order_clause(status_filter, sort_by, sort_direction)
            == "created_at DESC, id DESC"@,
        opt_is(sort_direction, "desc"@) ==> order_clause(status_filter, sort_by, sort_direction)
            == "created_at DESC, id DESC"@,
{
    reveal_strlit("created_at ASC, id ASC");
    reveal_strlit("created_at DESC, id DESC");
    reveal_strlit("asc");
    reveal_strlit("desc");
    assert("created_at ASC, id ASC"@.len() != "created_at DESC, id DESC"@.len());
    assert("asc"@.len() != "desc"@.len());
}

/// The `ORDER BY` clause of the task list query.
pub fn build_task_list_order_clause(
    status_filter: Option<&str>,
    sort_by: Option<&str>,
    sort_direction: Option<&str>,
) -> (r: &'static str)
    ensures
        r@ == order_clause(status_filter, sort_by, sort_direction),
{
    if opt_eq(sort_by, "createdAt") {
        if opt_eq(sort_direction, "asc") { "created_at ASC, id ASC" } else { "created_at DESC, id DESC" }
    } else if opt_eq(sort_by, "status") {
        if opt_eq(sort_direction, "desc") { STATUS_RANK_DESC } else { STATUS_RANK_ASC }
    } else if opt_eq(sort_by, "completedAt") {
        if opt_eq(sort_direction, "asc") { COMPLETED_ASC } else { COMPLETED_DESC }
    } else if opt_eq(status_filter, "QUEUED") {
        "queue_order ASC, created_at ASC, id ASC"
    } else {
        "created_at DESC, id DESC"
    }
}

/// The page asked for, never negative (the first when none is asked).
pub open spec fn page_of(page: Option<i64>) -> int {
    match page {
        Some(p) => if p < 0 { 0 } else { p as int },
        None => 0,
    }
}

/// The page size asked for, between 1 and 100 (20 when none is asked).
pub open spec fn size_of(size: Option<i64>) -> int {
    match size {
        Some(s) => if s < 1 { 1 } else if s > 100 { 100 } else { s as int },
        None => 20,
    }
}

/// Which slice of the task list a request reads.
#[derive(Debug, Clone, Copy)]
pub struct PageWindow {
    pub page: i64,
    pub size: i64,
    pub offset: i64,
}

/// The page, page size and row offset of a task list request.
pub fn page_window(page: Option<i64>, size: Option<i64>) -> (r: PageWindow)
    requires
        page_of(page) * size_of(size) <= i64::MAX,
    ensures
        r.page == page_of(page),
        r.size == size_of(size),
        r.offset == page_of(page) * size_of(size),
{
    let p: i64 = match page {
        Some(p) => if p < 0 { 0 } else { p },
        None => 0,
    };
    let s: i64 = match size {
        Some(s) => if s < 1 { 1 } else if s > 100 { 100 } else { s },
        None => 20,
    };
    PageWindow { page: p, size: s, offset: p * s }
}

/// The number of pages of `total` tasks, `size` to a page.
pub open spec fn pages_for(total: int, size: int) -> int {
    if total == 0 { 0 } else { (total + size - 1) / size }
}

/// The paging facts that a task list reports.
#[derive(Debug, Clone, Copy)]
pub struct PageMeta {
    pub total_pages: i64,
    pub has_next: bool,
    pub has_previous: bool,
}

/// How many pages `total` tasks fill, and whether pages follow or precede
/// `page`.
pub fn page_meta(total: i64, page: i64, size: i64) -> (r: PageMeta)
    requires
        total >= 0,
        1 <= size <= 100,
        page >= 0,
    ensures
        r.total_pages == pages_for(total as int, size as int),
        r.has_next == (r.total_pages > 0 && page < r.total_pages - 1),
        r.has_previous == (page > 0),
{
    let total_pages: i64 = if total == 0 {
        0
    } else {
        let q = total / size;
        let rem = total % size;
        if rem == 0 {
            q
        } else {
            assert(q < i64::MAX) by (nonlinear_arith)
                requires q == total / size, rem == total % size, rem != 0, size >= 1, total >= 0;
            q + 1
        }
    };
    proof {
        if total > 0 {
            lemma_ceil_div(total as int, size as int);
        }
    }
    PageMeta {
        total_pages,
        has_next: total_pages > 0 && page < total_pages - 1,
        has_previous: page > 0,
    }
}

proof fn lemma_ceil_div(total: int, size: int)
    requires
        total > 0,
        size >= 1,
    ensures
        (total + size - 1) / size == total / size + if total % size == 0 { 0int } else { 1int },
{
    let q = total / size;
    let r = total % size;
    assert(total == q * size + r && 0 <= r < size) by (nonlinear_arith)
        requires size >= 1, q == total / size, r == total % size;
    if r == 0 {
        assert((total + size - 1) / size == q) by (nonlinear_arith)
            requires total == q * size, size >= 1;
    } else {
        assert((total + size - 1) / size == q + 1) by (nonlinear_arith)
            requires total == q * size + r, 0 < r < size, size >= 1;
    }
}

/// Law: a task list has just enough pages. Every task falls on one of the
/// pages, and no page is empty: the last page starts before the last task.
pub proof fn law_pages_cover_tasks(total: int, size: int)
    requires
        total >= 0,
        size >= 1,
    ensures
        pages_for(total, size) * size >= total,
        total > 0 ==> (pages_for(total, size) - 1) * size < total,
        total == 0 <==> pages_for(total, size) == 0,
{
    if total > 0 {
        let p = pages_for(total, size);
        assert(p * size >= total && (p - 1) * size < total) by (nonlinear_arith)
            requires p == (total + size - 1) / size, total > 0, size >= 1;
        assert(p >= 1) by (nonlinear_arith)
            requires p == (total + size - 1) / size, total > 0, size >= 1;
    }
}

/// Why a task command was refused.
#[derive(Debug, Clone)]
pub enum TaskActionError {
    /// The id is not a number.
    InvalidTaskId(IntErrorKind),
    /// The queue of the previous run waits for the user's decision.
    RecoveryPending,
    /// Only queued tasks leave the queue; the task's status.
    NotQueued(String),
    /// The task left the queue meanwhile.
    QueueChanged,
    /// Only finished tasks are analysed again; the task's status.
    ReanalysisNotAllowed(String),
    /// A running task cannot be deleted.
    TaskRunning,
    /// No task was chosen for deletion.
    NothingSelected,
    /// The chosen tasks include a running one.
    SelectionHasRunningTask,
    /// A running task, given by its name.
    NamedTaskRunning(String),
    /// The analysis has no result yet.
    ResultNotReady,
    /// Analysis tasks are still running; how many.
    TasksStillRunning(u64),
}

impl TaskActionError {
    /// The message shown to the user.
    pub fn message(&self) -> (r: String)
        ensures
            self matches TaskActionError::InvalidTaskId(k) ==> r@ == int_error_text(*k),
            self matches TaskActionError::RecoveryPending ==> r@ == "存在待恢复的排队任务，请先处理恢复弹窗"@,
            self matches TaskActionError::NotQueued(s) ==> r@ == "当前任务状态不允许移出队列: "@ + s@,
            self matches TaskActionError::QueueChanged ==> r@ == "任务状态已变化，无法移出队列"@,
            self matches TaskActionError::ReanalysisNotAllowed(s) ==> r@ == "当前任务状态不允许重新分析: "@ + s@,
            self matches TaskActionError::TaskRunning ==> r@ == "正在执行中的任务不能删除"@,
            self matches TaskActionError::NothingSelected ==> r@ == "请选择要删除的任务"@,
            self matches TaskActionError::SelectionHasRunningTask ==> r@ == "选中的任务包含正在执行中的任务，不能批量删除"@,
            self matches TaskActionError::NamedTaskRunning(n) ==> r@ == "任务“"@ + n@ + "”正在执行中，不能批量删除"@,
            self matches TaskActionError::ResultNotReady ==> r@ == "任务尚未完成，无法获取结果"@,
            self matches TaskActionError::TasksStillRunning(c) ==> r@ == "当前仍有 "@ + decimal(c as nat) + " 个分析任务正在运行"@,
    {
        match self {
            TaskActionError::InvalidTaskId(k) => k.message(),
            TaskActionError::RecoveryPending => owned("存在待恢复的排队任务，请先处理恢复弹窗"),
            TaskActionError::NotQueued(s) => concat2("当前任务状态不允许移出队列: ", s.as_str()),
            TaskActionError::QueueChanged => owned("任务状态已变化，无法移出队列"),
            TaskActionError::ReanalysisNotAllowed(s) => concat2("当前任务状态不允许重新分析: ", s.as_str()),
            TaskActionError::TaskRunning => owned("正在执行中的任务不能删除"),
            TaskActionError::NothingSelected => owned("请选择要删除的任务"),
            TaskActionError::SelectionHasRunningTask => owned("选中的任务包含正在执行中的任务，不能批量删除"),
            TaskActionError::NamedTaskRunning(n) => {
                let mut v: Vec<char> = Vec::new();
                push_str(&mut v, "任务“");
                push_str(&mut v, n.as_str());
                push_str(&mut v, "”正在执行中，不能批量删除");
                string_of(v.as_slice())
            },
            TaskActionError::ResultNotReady => owned("任务尚未完成，无法获取结果"),
            TaskActionError::TasksStillRunning(c) => {
                let mut v: Vec<char> = Vec::new();
                push_str(&mut v, "当前仍有 ");
                push_decimal(&mut v, *c);
                push_str(&mut v, " 个分析任务正在运行");
                string_of(v.as_slice())
            },
        }
    }
}

/// Whether the application may quit: not while analysis tasks run, unless
/// the user forces it.
pub fn check_app_exit(active_task_count: u64, force: bool) -> (r: Result<(), TaskActionError>)
    ensures
        (active_task_count > 0 && !force) ==> (r matches Err(TaskActionError::TasksStillRunning(c)) && c == active_task_count),
        !(active_task_count > 0 && !force) ==> r is Ok,
{
    if active_task_count > 0 && !force {
        Err(TaskActionError::TasksStillRunning(active_task_count))
    } else {
        Ok(())
    }
}

/// Whether a task may leave the queue: only a queued one.
pub fn dequeue_task_record(status: &str) -> (r: Result<(), TaskActionError>)
    ensures
        status@ == "QUEUED"@ ==> r is Ok,
        status@ != "QUEUED"@ ==> (r matches Err(TaskActionError::NotQueued(s)) && s@ == status@),
{
    if str_eq(status, "QUEUED") {
        Ok(())
    } else {
        Err(TaskActionError::NotQueued(owned(status)))
    }
}

/// The outcome of taking a task off the queue, given how many rows the
/// conditional update changed: none means that its status changed meanwhile.
pub fn dequeue_update_result(updated_rows: usize) -> (r: Result<(), TaskActionError>)
    ensures
        updated_rows == 0 ==> r matches Err(TaskActionError::QueueChanged),
        updated_rows > 0 ==> r is Ok,
{
    if updated_rows == 0 {
        Err(TaskActionError::QueueChanged)
    } else {
        Ok(())
    }
}

pub open spec fn is_finished_status(s: Seq<char>) -> bool {
    s == "COMPLETED"@ || s == "COMPLETED_TIMEOUT"@ || s == "FAILED"@
}

/// Whether a task may be analysed again: only once it completed or failed.
pub fn check_reanalysis(status: &str) -> (r: Result<(), TaskActionError>)
    ensures
        is_finished_status(status@) ==> r is Ok,
        !is_finished_status(status@) ==> (r matches Err(TaskActionError::ReanalysisNotAllowed(s)) && s@ == status@),
{
    if str_eq(status, "COMPLETED") || str_eq(status, "COMPLETED_TIMEOUT") || str_eq(status, "FAILED") {
        Ok(())
    } else {
        Err(TaskActionError::ReanalysisNotAllowed(owned(status)))
    }
}

/// Whether the result of a task may be read: only once it completed.
pub fn task_result_available(status: &str) -> (r: Result<(), TaskActionError>)
    ensures
        (status@ == "COMPLETED"@ || status@ == "COMPLETED_TIMEOUT"@) ==> r is Ok,
        !(status@ == "COMPLETED"@ || status@ == "COMPLETED_TIMEOUT"@) ==> r matches Err(TaskActionError::ResultNotReady),
{
    if str_eq(status, "COMPLETED") || str_eq(status, "COMPLETED_TIMEOUT") {
        Ok(())
    } else {
        Err(TaskActionError::ResultNotReady)
    }
}

pub open spec fn is_running_status(s: Seq<char>) -> bool {
    s == "PREPROCESSING"@ || s == "ANALYZING"@
}

/// A task that a worker is executing cannot be deleted.
pub fn check_task_not_running(is_active: bool) -> (r: Result<(), TaskActionError>)
    ensures
        is_active ==> r matches Err(TaskActionError::TaskRunning),
        !is_active ==> r is Ok,
{
    if is_active {
        Err(TaskActionError::TaskRunning)
    } else {
        Ok(())
    }
}

/// Whether a loaded task may be deleted: not while it is being analysed, and
/// not a queued one while the previous run's queue waits for a decision.
/// Gives whether the task was queued.
pub fn check_delete_task(status: &str, recovery_pending: bool) -> (r: Result<bool, TaskActionError>)
    ensures
        is_running_status(status@) ==> r matches Err(TaskActionError::TaskRunning),
        (!is_running_status(status@) && status@ == "QUEUED"@ && recovery_pending) ==> r matches Err(TaskActionError::RecoveryPending),
        (!is_running_status(status@) && !(status@ == "QUEUED"@ && recovery_pending)) ==> r == Ok::<bool, TaskActionError>(status@ == "QUEUED"@),
{
    proof {
        reveal_strlit("QUEUED");
        reveal_strlit("PREPROCESSING");
        reveal_strlit("ANALYZING");
    }
    if str_eq(status, "PREPROCESSING") || str_eq(status, "ANALYZING") {
        return Err(TaskActionError::TaskRunning);
    }
    let queued = str_eq(status, "QUEUED");
    if queued && recovery_pending {
        return Err(TaskActionError::RecoveryPending);
    }
    Ok(queued)
}

/// The ids `raw_ids` parsed, without repeats, in the order they first appear.
pub open spec fn first_occurrences(ids: Seq<i64>) -> Seq<i64>
    decreases ids.len(),
{
    if ids.len() == 0 {
        ids
    } else {
        let init = first_occurrences(ids.drop_last());
        if init.contains(ids.last()) { init } else { init.push(ids.last()) }
    }
}

pub proof fn lemma_first_occurrences(ids: Seq<i64>)
    ensures
        first_occurrences(ids).no_duplicates(),
        forall|x: i64| ids.contains(x) <==> #[trigger] first_occurrences(ids).contains(x),
    decreases ids.len(),
{
    if ids.len() > 0 {
        let init = ids.drop_last();
        let last = ids.last();
        let fi = first_occurrences(init);
        lemma_first_occurrences(init);
        assert forall|x: i64| ids.contains(x) <==> (init.contains(x) || x == last) by {
            if ids.contains(x) {
                let i = choose|i: int| 0 <= i < ids.len() && ids[i] == x;
                if i < ids.len() - 1 {
                    assert(init[i] == x);
                }
            }
            if init.contains(x) {
                let i = choose|i: int| 0 <= i < init.len() && init[i] == x;
                assert(ids[i] == x);
            }
            if x == last {
                assert(ids[ids.len() - 1] == x);
            }
        }
        if !fi.contains(last) {
            let fo = fi.push(last);
            assert forall|x: i64| fo.contains(x) <==> (fi.contains(x) || x == last) by {
                if fo.contains(x) {
                    let i = choose|i: int| 0 <= i < fo.len() && fo[i] == x;
                    if i < fi.len() {
                        assert(fi[i] == x);
                    }
                }
                if fi.contains(x) {
                    let i = choose|i: int| 0 <= i < fi.len() && fi[i] == x;
                    assert(fo[i] == x);
                }
                if x == last {
                    assert(fo[fi.len() as int] == x);
                }
            }
            assert forall|i: int, j: int| 0 <= i < fo.len() && 0 <= j < fo.len() && i != j implies fo[i] != fo[j] by {
                if i < fi.len() && j < fi.len() {
                    assert(fo[i] == fi[i] && fo[j] == fi[j]);
                } else if i < fi.len() {
                    assert(fo[i] == fi[i]);
                    assert(fi.contains(fo[i]));
                } else if j < fi.len() {
                    assert(fo[j] == fi[j]);
                    assert(fi.contains(fo[j]));
                }
            }
        }
    }
}

/// The ids parsed, one by one, until the first that is not a number.
fn parse_task_ids(raw_ids: &Vec<String>) -> (r: Result<Vec<i64>, IntErrorKind>)
    ensures
        (exists|i: int| 0 <= i < raw_ids@.len() && i64_parse_outcome(#[trigger] raw_ids@[i]@) is Err) ==> {
            let i = choose|i: int| 0 <= i < raw_ids@.len() && i64_parse_outcome(#[trigger] raw_ids@[i]@) is Err
                && forall|j: int| 0 <= j < i ==> i64_parse_outcome(#[trigger] raw_ids@[j]@) is Ok;
            r == Err::<Vec<i64>, IntErrorKind>(i64_parse_outcome(raw_ids@[i]@)->Err_0)
        },
        (forall|i: int| 0 <= i < raw_ids@.len() ==> i64_parse_outcome(#[trigger] raw_ids@[i]@) is Ok) ==> (
            r matches Ok(v) && v@ == Seq::new(raw_ids@.len(), |i: int| i64_parse_outcome(raw_ids@[i]@)->Ok_0 as i64)),
{
    let mut ids: Vec<i64> = Vec::new();
    let mut i: usize = 0;
    while i < raw_ids.len()
        invariant
            i <= raw_ids.len(),
            ids.len() == i,
            forall|j: int| 0 <= j < i ==> i64_parse_outcome(#[trigger] raw_ids@[j]@) is Ok,
            forall|j: int| 0 <= j < i ==> ids@[j] == i64_parse_outcome(#[trigger] raw_ids@[j]@)->Ok_0 as i64,
        decreases raw_ids.len() - i,
    {
        match parse_task_id(raw_ids[i].as_str()) {
            Ok(v) => {
                ids.push(v);
            },
            Err(e) => {
                proof {
                    let w = choose|w: int| 0 <= w < raw_ids@.len() && i64_parse_outcome(#[trigger] raw_ids@[w]@) is Err
                        && forall|j: int| 0 <= j < w ==> i64_parse_outcome(#[trigger] raw_ids@[j]@) is Ok;
                    assert(w == i as int) by {
                        if w < i {
                        } else if w > i {
                            assert(i64_parse_outcome(raw_ids@[i as int]@) is Err);
                        }
                    }
                }
                return Err(e);
            },
        }
        i += 1;
    }
    assert(ids@ =~= Seq::new(raw_ids@.len(), |i: int| i64_parse_outcome(raw_ids@[i]@)->Ok_0 as i64));
    Ok(ids)
}

/// `ids` without repeats, in the order in which each first appears.
fn dedupe_ids(ids: &Vec<i64>) -> (r: Vec<i64>)
    ensures
        r@ == first_occurrences(ids@),
{
    let mut unique: Vec<i64> = Vec::new();
    let mut i: usize = 0;
    while i < ids.len()
        invariant
            i <= ids.len(),
            unique@ == first_occurrences(ids@.take(i as int)),
        decreases ids.len() - i,
    {
        let v = ids[i];
        let mut seen = false;
        let mut k: usize = 0;
        while k < unique.len()
            invariant
                k <= unique.len(),
                seen == exists|j: int| 0 <= j < k && unique@[j] == v,
            decreases unique.len() - k,
        {
            if unique[k] == v {
                seen = true;
            }
            k += 1;
        }
        assert(ids@.take(i + 1).drop_last() == ids@.take(i as int));
        assert(ids@.take(i + 1).last() == v);
        if !seen {
            unique.push(v);
        }
        i += 1;
    }
    assert(ids@.take(i as int) == ids@);
    unique
}

/// Whether one of `ids` is in `active`.
fn any_active(ids: &Vec<i64>, active: &Vec<i64>) -> (r: bool)
    ensures
        r == exists|k: int| 0 <= k < ids@.len() && active@.contains(#[trigger] ids@[k]),
{
    let mut k: usize = 0;
    while k < ids.len()
        invariant
            k <= ids.len(),
            forall|j: int| 0 <= j < k ==> !active@.contains(#[trigger] ids@[j]),
        decreases ids.len() - k,
    {
        let id = ids[k];
        let mut a: usize = 0;
        while a < active.len()
            invariant
                a <= active.len(),
                k < ids.len(),
                id == ids@[k as int],
                forall|j: int| 0 <= j < a ==> active@[j] != id,
            decreases active.len() - a,
        {
            if active[a] == id {
                assert(active@.contains(ids@[k as int]));
                return true;
            }
            a += 1;
        }
        k += 1;
    }
    false
}

/// Plans a batch deletion: every id must be a number, repeats are dropped,
/// at least one task must be chosen, and none of them may be running
/// (`active` lists the running tasks).
pub fn plan_delete_tasks(raw_ids: &Vec<String>, active: &Vec<i64>) -> (r: Result<Vec<i64>, TaskActionError>)
    ensures
        (exists|i: int| 0 <= i < raw_ids@.len() && i64_parse_outcome(#[trigger] raw_ids@[i]@) is Err) ==> {
            let i = choose|i: int| 0 <= i < raw_ids@.len() && i64_parse_outcome(#[trigger] raw_ids@[i]@) is Err
                && forall|j: int| 0 <= j < i ==> i64_parse_outcome(#[trigger] raw_ids@[j]@) is Ok;
            r == Err::<Vec<i64>, TaskActionError>(TaskActionError::InvalidTaskId(i64_parse_outcome(raw_ids@[i]@)->Err_0))
        },
        (forall|i: int| 0 <= i < raw_ids@.len() ==> i64_parse_outcome(#[trigger] raw_ids@[i]@) is Ok) ==> {
            let ids = Seq::new(raw_ids@.len(), |i: int| i64_parse_outcome(raw_ids@[i]@)->Ok_0 as i64);
            let unique = first_occurrences(ids);
            if unique.len() == 0 {
                r matches Err(TaskActionError::NothingSelected)
            } else if exists|k: int| 0 <= k < unique.len() && active@.contains(#[trigger] unique[k]) {
                r matches Err(TaskActionError::SelectionHasRunningTask)
            } else {
                r matches Ok(v) && v@ == unique
            }
        },
{
    let ids = match parse_task_ids(raw_ids) {
        Ok(ids) => ids,
        Err(e) => {
            return Err(TaskActionError::InvalidTaskId(e));
        },
    };
    let unique = dedupe_ids(&ids);
    if unique.len() == 0 {
        return Err(TaskActionError::NothingSelected);
    }
    if any_active(&unique, active) {
        return Err(TaskActionError::SelectionHasRunningTask);
    }
    Ok(unique)
}

/// Whether one task of a batch may be deleted: not while it is being
/// analysed. Gives whether it was queued.
pub fn check_batch_delete_entry(status: &str, name: &str) -> (r: Result<bool, TaskActionError>)
    ensures
        is_running_status(status@) ==> (r matches Err(TaskActionError::NamedTaskRunning(n)) && n@ == name@),
        !is_running_status(status@) ==> r == Ok::<bool, TaskActionError>(status@ == "QUEUED"@),
{
    if str_eq(status, "PREPROCESSING") || str_eq(status, "ANALYZING") {
        Err(TaskActionError::NamedTaskRunning(owned(name)))
    } else {
        Ok(str_eq(status, "QUEUED"))
    }
}

/// A batch that holds queued tasks cannot be deleted while the previous
/// run's queue waits for a decision.
pub fn check_batch_delete_recovery(deleted_queued: bool, recovery_pending: bool) -> (r: Result<(), TaskActionError>)
    ensures
        (deleted_queued && recovery_pending) ==> r matches Err(TaskActionError::RecoveryPending),
        !(deleted_queued && recovery_pending) ==> r is Ok,
{
    if deleted_queued && recovery_pending {
        Err(TaskActionError::RecoveryPending)
    } else {
        Ok(())
    }
}

/// How many events in `types` are of the kind `t`.
pub open spec fn count_of(types: Seq<Seq<char>>, t: Seq<char>) -> nat
    decreases types.len(),
{
    if types.len() == 0 {
        0
    } else {
        count_of(types.drop_last(), t) + if types.last() == t { 1nat } else { 0nat }
    }
}

pub open spec fn string_views(v: Seq<String>) -> Seq<Seq<char>> {
    v.map_values(|s: String| s@)
}

pub open spec fn stat_keys(v: Seq<(String, i64)>) -> Seq<Seq<char>> {
    v.map_values(|p: (String, i64)| p.0@)
}

/// Where the statistics hold the kind `t`.
fn find_key(r: &Vec<(String, i64)>, t: &str) -> (k: Option<usize>)
    ensures
        k matches Some(k) ==> k < r@.len() && r@[k as int].0@ == t@,
        k is None ==> forall|j: int| 0 <= j < r@.len() ==> (#[trigger] r@[j]).0@ != t@,
{
    let mut k: usize = 0;
    while k < r.len()
        invariant
            k <= r.len(),
            forall|j: int| 0 <= j < k ==> (#[trigger] r@[j]).0@ != t@,
        decreases r.len() - k,
    {
        if str_eq(r[k].0.as_str(), t) {
            return Some(k);
        }
        k += 1;
    }
    None
}

/// The number of anomaly events of each kind: every kind that occurs appears
/// once, with its count. The order of the kinds is no part of the result:
/// the shell turns the pairs into a map.
pub fn event_statistics(event_types: &Vec<String>) -> (r: Vec<(String, i64)>)
    requires
        event_types.len() <= i64::MAX,
    ensures
        stat_keys(r@).no_duplicates(),
        forall|t: Seq<char>| string_views(event_types@).contains(t) <==> #[trigger] stat_keys(r@).contains(t),
        forall|k: int| 0 <= k < r@.len() ==> (#[trigger] r@[k]).1 == count_of(string_views(event_types@), r@[k].0@),
{
    let mut r: Vec<(String, i64)> = Vec::new();
    let mut i: usize = 0;
    while i < event_types.len()
        invariant
            i <= event_types.len(),
            event_types.len() <= i64::MAX,
            stat_keys(r@).no_duplicates(),
            forall|t: Seq<char>| string_views(event_types@).take(i as int).contains(t) <==> #[trigger] stat_keys(r@).contains(t),
            forall|k: int| 0 <= k < r@.len() ==> (#[trigger] r@[k]).1 == count_of(string_views(event_types@).take(i as int), r@[k].0@),
            forall|k: int| 0 <= k < r@.len() ==> (#[trigger] r@[k]).1 <= i,
        decreases event_types.len() - i,
    {
        let ghost before = string_views(event_types@).take(i as int);
        let ghost after = string_views(event_types@).take(i + 1);
        assert(after.drop_last() == before);
        assert(after.last() == event_types@[i as int]@);
        let t = &event_types[i];
        let found_at = find_key(&r, t.as_str());
        proof {
            assert forall|c: Seq<char>| #![trigger count_of(after, c)] count_of(after, c) == count_of(before, c) + if c == t@ { 1nat } else { 0nat } by {}
        }
        if let Some(k) = found_at {
            let ghost old_r = r@;
            let old_count = r[k].1;
            let key = r[k].0.clone();
            r.set(k, (key, old_count + 1));
            proof {
                assert(stat_keys(r@) =~= stat_keys(old_r));
                assert forall|j: int| 0 <= j < r@.len() implies (#[trigger] r@[j]).1 == count_of(after, r@[j].0@) by {
                    if j == k as int {
                    } else {
                        assert(r@[j] == old_r[j]);
                        assert(stat_keys(old_r)[j] != stat_keys(old_r)[k as int]);
                    }
                }
                assert forall|c: Seq<char>| after.contains(c) <==> #[trigger] stat_keys(r@).contains(c) by {
                    if after.contains(c) && !before.contains(c) {
                        assert(c == t@) by {
                            let x = choose|x: int| 0 <= x < after.len() && after[x] == c;
                            if x < before.len() {
                                assert(before[x] == c);
                            }
                        }
                        assert(stat_keys(r@)[k as int] == c);
                    }
                    if before.contains(c) {
                        let x = choose|x: int| 0 <= x < before.len() && before[x] == c;
                        assert(after[x] == c);
                    }
                }
            }
        } else {
            let ghost old_r = r@;
            r.push((t.clone(), 1));
            proof {
                assert(!stat_keys(old_r).contains(t@)) by {
                    if stat_keys(old_r).contains(t@) {
                        let x = choose|x: int| 0 <= x < stat_keys(old_r).len() && stat_keys(old_r)[x] == t@;
                        assert(old_r[x].0@ == t@);
                    }
                }
                assert(stat_keys(r@) =~= stat_keys(old_r).push(t@));
                assert(!before.contains(t@));
                assert(count_of(before, t@) == 0) by {
                    lemma_count_absent(before, t@);
                }
                assert forall|j: int| 0 <= j < r@.len() implies (#[trigger] r@[j]).1 == count_of(after, r@[j].0@) by {
                    if j < old_r.len() {
                        assert(r@[j] == old_r[j]);
                        assert(stat_keys(old_r)[j] != t@);
                    }
                }
                assert forall|c: Seq<char>| after.contains(c) <==> #[trigger] stat_keys(r@).contains(c) by {
                    if after.contains(c) && c != t@ {
                        let x = choose|x: int| 0 <= x < after.len() && after[x] == c;
                        assert(x < before.len());
                        assert(before[x] == c);
                        assert(before.contains(c));
                        assert(stat_keys(old_r).contains(c));
                        let y = choose|y: int| 0 <= y < stat_keys(old_r).len() && stat_keys(old_r)[y] == c;
                        assert(stat_keys(r@)[y] == c);
                    }
                    if c == t@ {
                        assert(after[i as int] == c);
                        assert(stat_keys(r@)[old_r.len() as int] == c);
                    }
                    if stat_keys(r@).contains(c) && c != t@ {
                        let x = choose|x: int| 0 <= x < stat_keys(r@).len() && stat_keys(r@)[x] == c;
                        assert(stat_keys(old_r)[x] == c);
                        assert(stat_keys(old_r).contains(c));
                        assert(before.contains(c));
                        let y = choose|y: int| 0 <= y < before.len() && before[y] == c;
                        assert(after[y] == c);
                    }
                }
            }
        }
        i += 1;
    }
    assert(string_views(event_types@).take(i as int) == string_views(event_types@));
    r
}

proof fn lemma_count_absent(types: Seq<Seq<char>>, t: Seq<char>)
    requires
        !types.contains(t),
    ensures
        count_of(types, t) == 0,
    decreases types.len(),
{
    if types.len() > 0 {
        assert(types[types.len() - 1] != t);
        assert forall|x: int| 0 <= x < types.drop_last().len() implies types.drop_last()[x] != t by {
            assert(types[x] == types.drop_last()[x]);
        }
        lemma_count_absent(types.drop_last(), t);
    }
}

} // verus!
