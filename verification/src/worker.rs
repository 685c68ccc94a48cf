//! What the library makes of the analysis worker's output: the lines it
//! writes to its log, and the result files it names.

use vstd::prelude::*;
use crate::text::{chars_of, concat2, owned, str_eq, trim, trim_chars};
use crate::trusted::{file_name, from_utf8_lossy, path_file_name, utf8_lossy};

verus! {

/// The bytes of a line read from the worker, with its line ending removed:
/// a final "\r\n" or a final "\r". A line that ends in "\n" alone keeps it.
pub open spec fn worker_line_bytes(b: Seq<u8>) -> Seq<u8> {
    if b.len() >= 2 && b[b.len() - 2] == 13u8 && b[b.len() - 1] == 10u8 {
        b.take(b.len() - 2)
    } else if b.len() >= 1 && b[b.len() - 1] == 13u8 {
        b.take(b.len() - 1)
    } else {
        b
    }
}

/// The text of one line of worker output as it goes into the worker's log
/// (see `worker_line_bytes`), invalid UTF-8 replaced.
pub fn decode_worker_line(bytes: &[u8]) -> (r: String)
    ensures
        r@ == utf8_lossy(worker_line_bytes(bytes@)),
{
    let n = bytes.len();
    let end: usize = if n >= 2 && bytes[n - 2] == 13u8 && bytes[n - 1] == 10u8 {
        n - 2
    } else if n >= 1 && bytes[n - 1] == 13u8 {
        n - 1
    } else {
        n
    };
    let trimmed = vstd::slice::slice_subrange(bytes, 0, end);
    assert(trimmed@ =~= worker_line_bytes(bytes@));
    from_utf8_lossy(trimmed)
}

/// The path, relative to the task's directory, under which a result file is
/// recorded: `output/` and the file's name, or `fallback` where the path has
/// no file name.
pub open spec fn task_output_rel(absolute: Seq<char>, fallback: Seq<char>) -> Seq<char> {
    match path_file_name(absolute) {
        Some(n) => "output/"@ + n,
        None => "output/"@ + fallback,
    }
}

/// The recorded relative path of the result file at `absolute` (see
/// `task_output_rel`).
pub fn relative_to_task_output(_task_id: i64, absolute: &str, fallback: &str) -> (r: String)
    ensures
        r@ == task_output_rel(absolute@, fallback@),
{
    match file_name(absolute) {
        Some(n) => concat2("output/", n.as_str()),
        None => concat2("output/", fallback),
    }
}

} // verus!

verus! {

/// One event that the worker writes on its standard output: its type, and
/// the string fields of its payload that decide what is done with it (the
/// model version, a file's path, a failure's message). Progress and result
/// payloads are read by the shell.
#[derive(Debug, Clone)]
pub struct WorkerEvent {
    pub event_type: String,
    pub model_version: Option<String>,
    pub path: Option<String>,
    pub message: Option<String>,
}

/// What is done with a worker event.
#[derive(Debug, Clone)]
pub enum WorkerEventAction {
    /// Record the model version in the task's settings.
    SetModelVersion(String),
    /// Apply the progress payload.
    ApplyProgress,
    /// Record the preprocessed video under this relative path.
    SetPreprocessedVideo(String),
    /// Record the result video under this relative path.
    SetResultVideo(String),
    /// Store the result payload; the task is finished.
    PersistResult,
    /// Mark the task failed with this message; the task is finished.
    MarkFailed(String),
    /// An event of another type: nothing is done.
    Ignore,
}

/// A worker event that lacks a field its type needs.
#[derive(Debug, Clone, Copy, PartialEq, Eq)]
pub enum WorkerEventError {
    MissingModelVersion,
    MissingPreprocessedPath,
    MissingResultPath,
}

impl WorkerEventError {
    /// The error's message.
    pub fn message(&self) -> (r: String)
        ensures
            *self == WorkerEventError::MissingModelVersion ==> r@ == "model_version 缺少 modelVersion"@,
            *self == WorkerEventError::MissingPreprocessedPath ==> r@ == "preprocessed_video_ready 缺少 path"@,
            *self == WorkerEventError::MissingResultPath ==> r@ == "result_video_ready 缺少 path"@,
    {
        match self {
            WorkerEventError::MissingModelVersion => owned("model_version 缺少 modelVersion"),
            WorkerEventError::MissingPreprocessedPath => owned("preprocessed_video_ready 缺少 path"),
            WorkerEventError::MissingResultPath => owned("result_video_ready 缺少 path"),
        }
    }
}

/// The event types after which the worker has nothing more to report.
pub open spec fn is_final_event_type(t: Seq<char>) -> bool {
    t == "result"@ || t == "failed"@
}

/// Whether an event of type `t` finishes the task.
pub fn final_event_type(t: &str) -> (r: bool)
    ensures
        r == is_final_event_type(t@),
{
    str_eq(t, "result") || str_eq(t, "failed")
}

impl WorkerEventAction {
    /// Whether the task is finished after this action.
    pub open spec fn finishes(self) -> bool {
        self is PersistResult || self is MarkFailed
    }
}

/// What is done with a worker event of task `task_id`, by its type:
/// `model_version` records its model version; `progress` is applied;
/// `preprocessed_video_ready` and `result_video_ready` record their file
/// under `output/` (see `task_output_rel`); `result` is stored; `failed`
/// marks the task failed with its message ("分析失败" where it has none);
/// other types are ignored. A missing model version or path is an error.
pub fn handle_worker_event(task_id: i64, event: &WorkerEvent) -> (r: Result<WorkerEventAction, WorkerEventError>)
    ensures
        event.event_type@ == "model_version"@ ==> match event.model_version {
            Some(v) => (r matches Ok(WorkerEventAction::SetModelVersion(m)) && m@ == v@),
            None => r == Err::<WorkerEventAction, WorkerEventError>(WorkerEventError::MissingModelVersion),
        },
        event.event_type@ == "progress"@ ==> (r matches Ok(WorkerEventAction::ApplyProgress)),
        event.event_type@ == "preprocessed_video_ready"@ ==> match event.path {
            Some(p) => (r matches Ok(WorkerEventAction::SetPreprocessedVideo(rel)) && rel@ == task_output_rel(
                p@,
                "preprocessed.mp4"@,
            )),
            None => r == Err::<WorkerEventAction, WorkerEventError>(WorkerEventError::MissingPreprocessedPath),
        },
        event.event_type@ == "result_video_ready"@ ==> match event.path {
            Some(p) => (r matches Ok(WorkerEventAction::SetResultVideo(rel)) && rel@ == task_output_rel(p@, "result.mp4"@)),
            None => r == Err::<WorkerEventAction, WorkerEventError>(WorkerEventError::MissingResultPath),
        },
        event.event_type@ == "result"@ ==> (r matches Ok(WorkerEventAction::PersistResult)),
        event.event_type@ == "failed"@ ==> (r matches Ok(WorkerEventAction::MarkFailed(m)) && m@ == match event.message {
            Some(x) => x@,
            None => "分析失败"@,
        }),
        !(event.event_type@ == "model_version"@ || event.event_type@ == "progress"@ || event.event_type@
            == "preprocessed_video_ready"@ || event.event_type@ == "result_video_ready"@ || event.event_type@
            == "result"@ || event.event_type@ == "failed"@) ==> (r matches Ok(WorkerEventAction::Ignore)),
        r matches Ok(a) ==> (a.finishes() <==> is_final_event_type(event.event_type@)),
{
    proof {
        reveal_strlit("model_version");
        reveal_strlit("progress");
        reveal_strlit("preprocessed_video_ready");
        reveal_strlit("result_video_ready");
        reveal_strlit("result");
        reveal_strlit("failed");
        assert("model_version"@.len() != "progress"@.len());
        assert("model_version"@.len() != "preprocessed_video_ready"@.len());
        assert("model_version"@.len() != "result_video_ready"@.len());
        assert("model_version"@.len() != "result"@.len());
        assert("model_version"@.len() != "failed"@.len());
        assert("progress"@.len() != "preprocessed_video_ready"@.len());
        assert("progress"@.len() != "result_video_ready"@.len());
        assert("progress"@.len() != "result"@.len());
        assert("progress"@.len() != "failed"@.len());
        assert("preprocessed_video_ready"@.len() != "result_video_ready"@.len());
        assert("preprocessed_video_ready"@.len() != "result"@.len());
        assert("preprocessed_video_ready"@.len() != "failed"@.len());
        assert("result_video_ready"@.len() != "result"@.len());
        assert("result_video_ready"@.len() != "failed"@.len());
        assert("result"@[0] != "failed"@[0]);
    }
    let t = event.event_type.as_str();
    if str_eq(t, "model_version") {
        match &event.model_version {
            Some(v) => Ok(WorkerEventAction::SetModelVersion(v.clone())),
            None => Err(WorkerEventError::MissingModelVersion),
        }
    } else if str_eq(t, "progress") {
        Ok(WorkerEventAction::ApplyProgress)
    } else if str_eq(t, "preprocessed_video_ready") {
        match &event.path {
            Some(p) => Ok(WorkerEventAction::SetPreprocessedVideo(relative_to_task_output(task_id, p.as_str(), "preprocessed.mp4"))),
            None => Err(WorkerEventError::MissingPreprocessedPath),
        }
    } else if str_eq(t, "result_video_ready") {
        match &event.path {
            Some(p) => Ok(WorkerEventAction::SetResultVideo(relative_to_task_output(task_id, p.as_str(), "result.mp4"))),
            None => Err(WorkerEventError::MissingResultPath),
        }
    } else if str_eq(t, "result") {
        Ok(WorkerEventAction::PersistResult)
    } else if str_eq(t, "failed") {
        match &event.message {
            Some(m) => Ok(WorkerEventAction::MarkFailed(m.clone())),
            None => Ok(WorkerEventAction::MarkFailed(owned("分析失败"))),
        }
    } else {
        Ok(WorkerEventAction::Ignore)
    }
}

/// The timestamps that a progress report writes besides the status: the
/// start, when preprocessing begins for a task that has not started; the end
/// of preprocessing (kept if already set, else `now`), when analysis
/// begins. Other reports set the status alone.
#[derive(Debug, Clone)]
pub struct ProgressUpdate {
    pub status: String,
    pub started_at: Option<String>,
    pub preprocessing_completed_at: Option<String>,
}

pub open spec fn opt_str_view(o: Option<String>) -> Option<Seq<char>> {
    match o {
        Some(s) => Some(s@),
        None => None,
    }
}

/// The task fields written for a progress report with `status`, given the
/// task's start and end of preprocessing and the time `now`.
pub fn apply_progress_payload(
    status: &str,
    started_at: &Option<String>,
    preprocessing_completed_at: &Option<String>,
    now: &str,
) -> (r: ProgressUpdate)
    ensures
        r.status@ == status@,
        status@ == "PREPROCESSING"@ && started_at is None ==> opt_str_view(r.started_at) == Some(now@)
            && r.preprocessing_completed_at is None,
        status@ == "ANALYZING"@ ==> r.started_at is None && opt_str_view(r.preprocessing_completed_at) == Some(
            match preprocessing_completed_at {
                Some(t) => t@,
                None => now@,
            },
        ),
        !(status@ == "PREPROCESSING"@ && started_at is None) && status@ != "ANALYZING"@ ==> r.started_at is None
            && r.preprocessing_completed_at is None,
{
    proof {
        reveal_strlit("PREPROCESSING");
        reveal_strlit("ANALYZING");
        assert("PREPROCESSING"@.len() != "ANALYZING"@.len());
    }
    if str_eq(status, "PREPROCESSING") && started_at.is_none() {
        ProgressUpdate { status: owned(status), started_at: Some(owned(now)), preprocessing_completed_at: None }
    } else if str_eq(status, "ANALYZING") {
        let done = match preprocessing_completed_at {
            Some(t) => t.clone(),
            None => owned(now),
        };
        ProgressUpdate { status: owned(status), started_at: None, preprocessing_completed_at: Some(done) }
    } else {
        ProgressUpdate { status: owned(status), started_at: None, preprocessing_completed_at: None }
    }
}

/// How a worker run ends: it must have reported a final event and exited
/// successfully; `status` is its exit status as shown.
pub fn worker_exit_outcome(final_received: bool, exit_success: bool, status: &str) -> (r: Result<(), String>)
    ensures
        !final_received ==> (r matches Err(e) && e@ == "worker 未输出最终结果事件: "@ + status@),
        final_received && !exit_success ==> (r matches Err(e) && e@ == "worker 非正常退出: "@ + status@),
        final_received && exit_success ==> r is Ok,
{
    if !final_received {
        return Err(concat2("worker 未输出最终结果事件: ", status));
    }
    if !exit_success {
        return Err(concat2("worker 非正常退出: ", status));
    }
    Ok(())
}


/// Whether a line of worker output holds nothing but white space; such
/// lines are skipped.
pub fn worker_line_is_blank(line: &str) -> (r: bool)
    ensures
        r == (trim(line@).len() == 0),
{
    let chars = chars_of(line);
    let t = trim_chars(chars.as_slice());
    t.len() == 0
}

/// What became of one non-blank line of the worker's standard output.
#[derive(Debug, Clone)]
pub enum WorkerEventOutcome {
    /// The line is not a worker event; it is logged and skipped.
    Unreadable,
    /// The event was handled; `finished` where it finished the task.
    Handled { finished: bool },
    /// Handling the event of type `event_type` failed; the failure is logged.
    Failed { event_type: String },
}

/// How the reading of the worker's output goes on after one line.
#[derive(Debug, Clone, PartialEq, Eq)]
pub enum WorkerStreamStep {
    /// Read the next line; `final_received` tells whether a final event has
    /// been handled so far.
    Continue { final_received: bool },
    /// A final event could not be handled: the run fails at once.
    AbortOnFinal,
}

/// The step after one line: a handled event adds to whether a final event
/// was received; a failed final event aborts the run; anything else goes on
/// unchanged.
pub open spec fn worker_stream_step_spec(final_received: bool, outcome: WorkerEventOutcome) -> WorkerStreamStep {
    match outcome {
        WorkerEventOutcome::Unreadable => WorkerStreamStep::Continue { final_received },
        WorkerEventOutcome::Handled { finished } => WorkerStreamStep::Continue {
            final_received: final_received || finished,
        },
        WorkerEventOutcome::Failed { event_type } => if is_final_event_type(event_type@) {
            WorkerStreamStep::AbortOnFinal
        } else {
            WorkerStreamStep::Continue { final_received }
        },
    }
}

/// One step of reading the worker's output (see `worker_stream_step_spec`).
pub fn worker_stream_step(final_received: bool, outcome: &WorkerEventOutcome) -> (r: WorkerStreamStep)
    ensures
        r == worker_stream_step_spec(final_received, *outcome),
{
    match outcome {
        WorkerEventOutcome::Unreadable => WorkerStreamStep::Continue { final_received },
        WorkerEventOutcome::Handled { finished } => WorkerStreamStep::Continue {
            final_received: final_received || *finished,
        },
        WorkerEventOutcome::Failed { event_type } => if final_event_type(event_type.as_str()) {
            WorkerStreamStep::AbortOnFinal
        } else {
            WorkerStreamStep::Continue { final_received }
        },
    }
}

/// The whole output of a run, line by line from `final_received`: whether a
/// final event was received once the output ends, or the type of the final
/// event whose handling failed and ended the reading.
pub open spec fn worker_stream_spec(final_received: bool, outcomes: Seq<WorkerEventOutcome>) -> Result<
    bool,
    Seq<char>,
>
    decreases outcomes.len(),
{
    if outcomes.len() == 0 {
        Ok(final_received)
    } else {
        match worker_stream_step_spec(final_received, outcomes[0]) {
            WorkerStreamStep::AbortOnFinal => Err(outcomes[0]->event_type@),
            WorkerStreamStep::Continue { final_received: f } => worker_stream_spec(f, outcomes.drop_first()),
        }
    }
}

/// Whether the `i`-th line is a final event whose handling failed.
pub open spec fn failed_final_at(outcomes: Seq<WorkerEventOutcome>, i: int) -> bool {
    outcomes[i] matches WorkerEventOutcome::Failed { event_type } && is_final_event_type(event_type@)
}

/// Whether the `i`-th line is a handled event that finished the task.
pub open spec fn handled_final_at(outcomes: Seq<WorkerEventOutcome>, i: int) -> bool {
    outcomes[i] matches WorkerEventOutcome::Handled { finished } && finished
}

/// Law: a received final event is never forgotten. After a final event was
/// received, every line that does not abort the run leaves it received; an
/// unreadable line, and a failed event that is not final, change nothing.
pub proof fn law_final_event_stays_received(final_received: bool, outcome: WorkerEventOutcome)
    ensures
        final_received && worker_stream_step_spec(final_received, outcome) != WorkerStreamStep::AbortOnFinal
            ==> worker_stream_step_spec(final_received, outcome) == (WorkerStreamStep::Continue {
            final_received: true,
        }),
        outcome is Unreadable ==> worker_stream_step_spec(final_received, outcome) == (WorkerStreamStep::Continue {
            final_received,
        }),
        (outcome matches WorkerEventOutcome::Failed { event_type } && !is_final_event_type(event_type@))
            ==> worker_stream_step_spec(final_received, outcome) == (WorkerStreamStep::Continue { final_received }),
        (outcome matches WorkerEventOutcome::Handled { finished } && finished) ==> worker_stream_step_spec(
            final_received,
            outcome,
        ) == (WorkerStreamStep::Continue { final_received: true }),
{
}

proof fn lemma_worker_stream_from(final_received: bool, outcomes: Seq<WorkerEventOutcome>)
    ensures
        (forall|i: int| 0 <= i < outcomes.len() ==> !#[trigger] failed_final_at(outcomes, i)) ==> worker_stream_spec(
            final_received,
            outcomes,
        ) == Ok::<bool, Seq<char>>(final_received || exists|i: int| 0 <= i < outcomes.len() && #[trigger] handled_final_at(outcomes, i)),
        (exists|i: int| 0 <= i < outcomes.len() && #[trigger] failed_final_at(outcomes, i)) ==> worker_stream_spec(
            final_received,
            outcomes,
        ) is Err,
    decreases outcomes.len(),
{
    if outcomes.len() > 0 {
        let rest = outcomes.drop_first();
        lemma_worker_stream_from(
            match worker_stream_step_spec(final_received, outcomes[0]) {
                WorkerStreamStep::Continue { final_received: f } => f,
                WorkerStreamStep::AbortOnFinal => final_received,
            },
            rest,
        );
        assert forall|i: int| 0 <= i < rest.len() implies (#[trigger] failed_final_at(rest, i)) == failed_final_at(
            outcomes,
            i + 1,
        ) && handled_final_at(rest, i) == handled_final_at(outcomes, i + 1) by {
            assert(rest[i] == outcomes[i + 1]);
        }
        if forall|i: int| 0 <= i < outcomes.len() ==> !#[trigger] failed_final_at(outcomes, i) {
            assert(!failed_final_at(outcomes, 0));
            assert forall|i: int| 0 <= i < rest.len() implies !#[trigger] failed_final_at(rest, i) by {
                assert(!failed_final_at(outcomes, i + 1));
            }
            assert(worker_stream_step_spec(final_received, outcomes[0]) == (WorkerStreamStep::Continue {
                final_received: final_received || handled_final_at(outcomes, 0),
            }));
            let all = exists|i: int| 0 <= i < outcomes.len() && #[trigger] handled_final_at(outcomes, i);
            let later = exists|i: int| 0 <= i < rest.len() && #[trigger] handled_final_at(rest, i);
            if all {
                let i = choose|i: int| 0 <= i < outcomes.len() && #[trigger] handled_final_at(outcomes, i);
                if i > 0 {
                    assert(handled_final_at(rest, i - 1));
                }
            }
            if later {
                let i = choose|i: int| 0 <= i < rest.len() && #[trigger] handled_final_at(rest, i);
                assert(handled_final_at(outcomes, i + 1));
            }
            if handled_final_at(outcomes, 0) {
                assert(all);
            }
            assert(all == (handled_final_at(outcomes, 0) || later));
        }
        if exists|i: int| 0 <= i < outcomes.len() && #[trigger] failed_final_at(outcomes, i) {
            let i = choose|i: int| 0 <= i < outcomes.len() && #[trigger] failed_final_at(outcomes, i);
            if i > 0 {
                assert(failed_final_at(rest, i - 1));
            }
        }
    }
}

/// Law: what the whole output of a run comes to. Where no final event failed
/// to be handled, the reading ends with a final event received exactly when
/// some line was a handled event that finished the task, whatever lines
/// come between or after it; where one failed, the run is aborted.
pub proof fn law_worker_stream_outcome(outcomes: Seq<WorkerEventOutcome>)
    ensures
        (forall|i: int| 0 <= i < outcomes.len() ==> !#[trigger] failed_final_at(outcomes, i)) ==> worker_stream_spec(
            false,
            outcomes,
        ) == Ok::<bool, Seq<char>>(exists|i: int| 0 <= i < outcomes.len() && #[trigger] handled_final_at(outcomes, i)),
        (exists|i: int| 0 <= i < outcomes.len() && #[trigger] failed_final_at(outcomes, i)) ==> worker_stream_spec(
            false,
            outcomes,
        ) is Err,
{
    lemma_worker_stream_from(false, outcomes);
}

/// The message of a run that ended because its final event of type
/// `event_type` could not be handled.
pub fn final_event_failure_message(event_type: &str) -> (r: String)
    ensures
        r@ == "处理 worker 最终事件失败: "@ + event_type@,
{
    concat2("处理 worker 最终事件失败: ", event_type)
}

/// How a worker run ends, from what became of each line of its output
/// (`outcomes`, in order) and its exit: the reading stops at a final event
/// that could not be handled, and the run fails with that event's message;
/// otherwise `worker_exit_outcome` decides from whether a final event was
/// received.
pub fn worker_run_outcome(outcomes: &Vec<WorkerEventOutcome>, exit_success: bool, status: &str) -> (r: Result<
    (),
    String,
>)
    ensures
        match worker_stream_spec(false, outcomes@) {
            Err(t) => (r matches Err(e) && e@ == "处理 worker 最终事件失败: "@ + t),
            Ok(final_received) => {
                &&& !final_received ==> (r matches Err(e) && e@ == "worker 未输出最终结果事件: "@ + status@)
                &&& final_received && !exit_success ==> (r matches Err(e) && e@ == "worker 非正常退出: "@ + status@)
                &&& final_received && exit_success ==> r is Ok
            },
        },
{
    let mut final_received = false;
    let mut i: usize = 0;
    assert(outcomes@.skip(0) =~= outcomes@);
    while i < outcomes.len()
        invariant
            i <= outcomes.len(),
            worker_stream_spec(false, outcomes@) == worker_stream_spec(final_received, outcomes@.skip(i as int)),
        decreases outcomes.len() - i,
    {
        assert(outcomes@.skip(i as int)[0] == outcomes@[i as int]);
        assert(outcomes@.skip(i as int).drop_first() =~= outcomes@.skip(i + 1));
        match worker_stream_step(final_received, &outcomes[i]) {
            WorkerStreamStep::AbortOnFinal => {
                let event_type = match &outcomes[i] {
                    WorkerEventOutcome::Failed { event_type } => event_type.as_str(),
                    _ => "",
                };
                return Err(final_event_failure_message(event_type));
            },
            WorkerStreamStep::Continue { final_received: f } => {
                final_received = f;
            },
        }
        i += 1;
    }
    assert(outcomes@.skip(outcomes.len() as int).len() == 0);
    worker_exit_outcome(final_received, exit_success, status)
}

} // verus!
