use var_desktop::clock::LocalTimestamp;
use var_desktop::logging::{
    append_log, cleanup_logs, dated_log_path, expired_log_files, log_retention_cutoff, namespace_root,
    prune_empty_dirs, rotate_if_needed, worker_log_path, LogLevel, LogNamespace, LOG_MAX_BYTES,
    LOG_RETENTION_FILES,
};
use var_desktop::paths::LibPath;

fn t() -> LocalTimestamp {
    LocalTimestamp { year: 2025, month: 7, day: 3, hour: 14, minute: 5, second: 9, nanosecond: 123_456_789 }
}

fn segs(p: &LibPath) -> Vec<&str> {
    p.segments.iter().map(String::as_str).collect()
}

#[test]
fn namespaces_and_levels() {
    assert_eq!(LogNamespace::Backend.as_str(), "backend");
    assert_eq!(LogNamespace::Worker.as_str(), "worker");
    assert_eq!(LogLevel::Info.as_str(), "INFO");
    assert_eq!(LogLevel::Error.as_str(), "ERROR");
    let root = Some(LibPath::new("/data/logs"));
    let r = namespace_root(&root, LogNamespace::Worker);
    assert_eq!(r.base, "/data/logs");
    assert_eq!(segs(&r), vec!["worker"]);
    let r = namespace_root(&None, LogNamespace::Backend);
    assert_eq!(r.base, "logs");
    assert_eq!(segs(&r), vec!["backend"]);
}

#[test]
fn log_files_are_dated() {
    let root = Some(LibPath::new("/l"));
    let p = dated_log_path(&root, LogNamespace::Backend, &t(), "backend.log");
    assert_eq!(segs(&p), vec!["backend", "2025", "07", "03", "backend.log"]);
    let p = worker_log_path(&root, &t(), 42);
    assert_eq!(segs(&p), vec!["worker", "2025", "07", "03", "task-42.log"]);
    let (p, line) = append_log(&root, LogNamespace::Backend, "backend", LogLevel::Error, "boom", &t());
    assert_eq!(segs(&p), vec!["backend", "2025", "07", "03", "backend.log"]);
    assert_eq!(line, "2025-07-03 14:05:09.123 [ERROR] boom");
}

#[test]
fn retention_cutoff_is_thirty_days() {
    let now: i128 = 100 * 24 * 3600 * 1_000_000_000;
    assert_eq!(log_retention_cutoff(now), 70 * 24 * 3600 * 1_000_000_000);
    assert_eq!(expired_log_files(&vec![5, 50, 1, 99], 10), vec![0, 2]);
}

#[test]
fn cleanup_keeps_the_newest_files() {
    let n = LOG_RETENTION_FILES + 3;
    let modified: Vec<i128> = (0..n as i128).map(|i| 1000 + i).collect();
    let present = vec![true; n];
    let mut removed = cleanup_logs(&modified, &present, 0);
    removed.sort();
    assert_eq!(removed, vec![0, 1, 2]);

    let few = cleanup_logs(&vec![5, 6, 7], &vec![true, true, true], 0);
    assert!(few.is_empty());

    let mut modified = vec![50i128; n];
    modified[0] = 1;
    let mut present = vec![true; n];
    present[1] = false;
    let mut removed = cleanup_logs(&modified, &present, 10);
    removed.sort();
    assert_eq!(removed, vec![n - 1]);
}

#[test]
fn rotation_renames_highest_copy_first() {
    let names: Vec<String> = ["app.1.log", "app.2.log", "other.txt"].iter().map(|s| s.to_string()).collect();
    let plan = rotate_if_needed(LOG_MAX_BYTES, Some("app.log"), &names);
    let plan: Vec<(&str, &str)> = plan.iter().map(|(a, b)| (a.as_str(), b.as_str())).collect();
    assert_eq!(plan, vec![("app.2.log", "app.3.log"), ("app.1.log", "app.2.log"), ("app.log", "app.1.log")]);
    assert!(rotate_if_needed(LOG_MAX_BYTES - 1, Some("app.log"), &names).is_empty());
    assert!(rotate_if_needed(LOG_MAX_BYTES, Some("app"), &names).is_empty());
    assert!(rotate_if_needed(LOG_MAX_BYTES, None, &names).is_empty());
}

#[test]
fn empty_directories_are_pruned_deepest_first() {
    let dirs = vec![
        ("/l/worker".to_string(), 3u64),
        ("/l/worker/2025".to_string(), 4),
        ("/l/worker/2025/07".to_string(), 5),
        ("/l/worker/2025/07/03".to_string(), 6),
        ("/l/worker/2025/06".to_string(), 5),
    ];
    assert_eq!(
        prune_empty_dirs(&dirs, "/l/worker"),
        vec!["/l/worker/2025/07/03", "/l/worker/2025/07", "/l/worker/2025/06", "/l/worker/2025"]
    );
}
