use var_desktop::worker::{final_event_failure_message, worker_line_is_blank, worker_run_outcome, worker_stream_step, WorkerEventOutcome, WorkerStreamStep};
use var_desktop::worker::{
    apply_progress_payload, decode_worker_line, final_event_type, handle_worker_event,
    relative_to_task_output, worker_exit_outcome, WorkerEvent, WorkerEventAction, WorkerEventError,
};

fn event(t: &str, model_version: Option<&str>, path: Option<&str>, message: Option<&str>) -> WorkerEvent {
    WorkerEvent {
        event_type: t.to_string(),
        model_version: model_version.map(str::to_string),
        path: path.map(str::to_string),
        message: message.map(str::to_string),
    }
}

#[test]
fn worker_lines_lose_their_line_ending() {
    assert_eq!(decode_worker_line(b"hello\r\n"), "hello");
    assert_eq!(decode_worker_line(b"hello\r"), "hello");
    assert_eq!(decode_worker_line(b"hello"), "hello");
    assert_eq!(decode_worker_line(b"hello\n"), "hello\n");
    assert_eq!(decode_worker_line(b""), "");
    assert_eq!(decode_worker_line(b"bad \xff\r\n"), "bad \u{fffd}");
    assert_eq!(decode_worker_line("中文\r\n".as_bytes()), "中文");
}

#[test]
fn output_files_are_recorded_under_output() {
    assert_eq!(relative_to_task_output(1, "/lib/tasks/1/output/result.mp4", "result.mp4"), "output/result.mp4");
    assert_eq!(relative_to_task_output(1, "/x/y/other.mp4", "result.mp4"), "output/other.mp4");
    assert_eq!(relative_to_task_output(1, "/", "preprocessed.mp4"), "output/preprocessed.mp4");
}

#[test]
fn worker_events_map_to_actions() {
    assert!(matches!(
        handle_worker_event(5, &event("model_version", Some("yolo-v8"), None, None)),
        Ok(WorkerEventAction::SetModelVersion(v)) if v == "yolo-v8"
    ));
    assert!(matches!(
        handle_worker_event(5, &event("model_version", None, None, None)),
        Err(WorkerEventError::MissingModelVersion)
    ));
    assert!(matches!(handle_worker_event(5, &event("progress", None, None, None)), Ok(WorkerEventAction::ApplyProgress)));
    assert!(matches!(
        handle_worker_event(5, &event("preprocessed_video_ready", None, Some("/t/5/output/pre.mp4"), None)),
        Ok(WorkerEventAction::SetPreprocessedVideo(p)) if p == "output/pre.mp4"
    ));
    assert!(matches!(
        handle_worker_event(5, &event("preprocessed_video_ready", None, None, None)),
        Err(WorkerEventError::MissingPreprocessedPath)
    ));
    assert!(matches!(
        handle_worker_event(5, &event("result_video_ready", None, Some("/t/5/output/result.mp4"), None)),
        Ok(WorkerEventAction::SetResultVideo(p)) if p == "output/result.mp4"
    ));
    assert!(matches!(
        handle_worker_event(5, &event("result_video_ready", None, None, None)),
        Err(WorkerEventError::MissingResultPath)
    ));
    assert!(matches!(handle_worker_event(5, &event("result", None, None, None)), Ok(WorkerEventAction::PersistResult)));
    assert!(matches!(
        handle_worker_event(5, &event("failed", None, None, Some("GPU 不可用"))),
        Ok(WorkerEventAction::MarkFailed(m)) if m == "GPU 不可用"
    ));
    assert!(matches!(
        handle_worker_event(5, &event("failed", None, None, None)),
        Ok(WorkerEventAction::MarkFailed(m)) if m == "分析失败"
    ));
    assert!(matches!(handle_worker_event(5, &event("heartbeat", None, None, None)), Ok(WorkerEventAction::Ignore)));
    assert_eq!(WorkerEventError::MissingModelVersion.message(), "model_version 缺少 modelVersion");
    assert_eq!(WorkerEventError::MissingPreprocessedPath.message(), "preprocessed_video_ready 缺少 path");
    assert_eq!(WorkerEventError::MissingResultPath.message(), "result_video_ready 缺少 path");
}

#[test]
fn only_result_and_failed_finish_a_task() {
    for t in ["model_version", "progress", "preprocessed_video_ready", "result_video_ready", "result", "failed", "x"] {
        let e = event(t, Some("m"), Some("/p/f.mp4"), Some("m"));
        let finishes = matches!(
            handle_worker_event(1, &e),
            Ok(WorkerEventAction::PersistResult) | Ok(WorkerEventAction::MarkFailed(_))
        );
        assert_eq!(finishes, final_event_type(t));
    }
    assert!(final_event_type("result"));
    assert!(final_event_type("failed"));
    assert!(!final_event_type("progress"));
}

#[test]
fn progress_reports_stamp_phase_changes() {
    let p = apply_progress_payload("PREPROCESSING", &None, &None, "2025-01-01 10:00:00");
    assert_eq!(p.status, "PREPROCESSING");
    assert_eq!(p.started_at.as_deref(), Some("2025-01-01 10:00:00"));
    assert_eq!(p.preprocessing_completed_at, None);

    let started = Some("2025-01-01 09:00:00".to_string());
    let again = apply_progress_payload("PREPROCESSING", &started, &None, "2025-01-01 10:00:00");
    assert_eq!(again.started_at, None);

    let a = apply_progress_payload("ANALYZING", &started, &None, "2025-01-01 10:00:00");
    assert_eq!(a.preprocessing_completed_at.as_deref(), Some("2025-01-01 10:00:00"));
    let kept = Some("2025-01-01 09:30:00".to_string());
    let b = apply_progress_payload("ANALYZING", &started, &kept, "2025-01-01 10:00:00");
    assert_eq!(b.preprocessing_completed_at.as_deref(), Some("2025-01-01 09:30:00"));
    assert_eq!(b.started_at, None);

    let c = apply_progress_payload("COMPLETED", &started, &kept, "2025-01-01 10:00:00");
    assert_eq!(c.status, "COMPLETED");
    assert_eq!(c.started_at, None);
    assert_eq!(c.preprocessing_completed_at, None);
}

#[test]
fn worker_run_outcomes() {
    assert_eq!(worker_exit_outcome(true, true, "exit status: 0"), Ok(()));
    assert_eq!(
        worker_exit_outcome(false, true, "exit status: 0"),
        Err("worker 未输出最终结果事件: exit status: 0".to_string())
    );
    assert_eq!(
        worker_exit_outcome(true, false, "exit status: 1"),
        Err("worker 非正常退出: exit status: 1".to_string())
    );
    assert_eq!(
        worker_exit_outcome(false, false, "exit status: 1"),
        Err("worker 未输出最终结果事件: exit status: 1".to_string())
    );
}

#[test]
fn blank_worker_lines_are_skipped() {
    assert!(worker_line_is_blank(" \t\r"));
    assert!(worker_line_is_blank(""));
    assert!(!worker_line_is_blank(" {} "));
}

#[test]
fn worker_stream_steps() {
    assert_eq!(worker_stream_step(false, &WorkerEventOutcome::Unreadable), WorkerStreamStep::Continue { final_received: false });
    assert_eq!(
        worker_stream_step(false, &WorkerEventOutcome::Handled { finished: true }),
        WorkerStreamStep::Continue { final_received: true }
    );
    assert_eq!(
        worker_stream_step(true, &WorkerEventOutcome::Handled { finished: false }),
        WorkerStreamStep::Continue { final_received: true }
    );
    assert_eq!(
        worker_stream_step(false, &WorkerEventOutcome::Failed { event_type: "progress".to_string() }),
        WorkerStreamStep::Continue { final_received: false }
    );
    assert_eq!(
        worker_stream_step(true, &WorkerEventOutcome::Failed { event_type: "result".to_string() }),
        WorkerStreamStep::AbortOnFinal
    );
}

#[test]
fn worker_run_outcome_from_lines() {
    let finished = vec![
        WorkerEventOutcome::Handled { finished: false },
        WorkerEventOutcome::Unreadable,
        WorkerEventOutcome::Handled { finished: true },
    ];
    assert_eq!(worker_run_outcome(&finished, true, "exit status: 0"), Ok(()));
    assert_eq!(worker_run_outcome(&finished, false, "exit status: 1"), Err("worker 非正常退出: exit status: 1".to_string()));
    assert_eq!(
        worker_run_outcome(&vec![WorkerEventOutcome::Handled { finished: false }], true, "exit status: 0"),
        Err("worker 未输出最终结果事件: exit status: 0".to_string())
    );
    let aborted = vec![
        WorkerEventOutcome::Failed { event_type: "failed".to_string() },
        WorkerEventOutcome::Handled { finished: true },
    ];
    assert_eq!(worker_run_outcome(&aborted, true, "exit status: 0"), Err("处理 worker 最终事件失败: failed".to_string()));
    assert_eq!(final_event_failure_message("result"), "处理 worker 最终事件失败: result");
}
