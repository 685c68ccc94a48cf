use var_desktop::media::{
    check_migration_target, current_media_root, ensure_task_dirs, library_marker_path, media_url,
    recommended_media_library_path, remove_empty_legacy_task_log_dir, stream_relative_path, task_root,
    validate_library_root, LibraryError, LibraryMarker, MigrationError, StreamError, LIBRARY_IDENTIFIER,
    LIBRARY_MARKER_FILENAME,
};
use var_desktop::paths::LibPath;

fn segs(p: &LibPath) -> Vec<&str> {
    p.segments.iter().map(String::as_str).collect()
}

#[test]
fn library_layout() {
    let root = LibPath::new("/media");
    assert_eq!(segs(&library_marker_path(&root)), vec![LIBRARY_MARKER_FILENAME]);
    let task = task_root(&root, 12);
    assert_eq!(segs(&task), vec!["tasks", "12"]);
    let dirs = ensure_task_dirs(&task);
    assert_eq!(segs(&dirs[0]), vec!["tasks", "12", "input"]);
    assert_eq!(segs(&dirs[1]), vec!["tasks", "12", "work", "tmp"]);
    assert_eq!(segs(&dirs[2]), vec!["tasks", "12", "output"]);
    assert_eq!(segs(&remove_empty_legacy_task_log_dir(&task)), vec!["tasks", "12", "logs"]);
}

#[test]
fn recommended_library_locations() {
    let mac = recommended_media_library_path("macos", Some("/Users/a"), &[false; 4]);
    assert_eq!(mac.base, "/Users/a");
    assert_eq!(segs(&mac), vec!["Movies", "VAR Desktop Library"]);
    let win = recommended_media_library_path("windows", None, &[false, false, true, true]);
    assert_eq!(win.base, "F:\\");
    assert_eq!(segs(&win), vec!["VARDesktopData"]);
    let fallback = recommended_media_library_path("windows", None, &[false; 4]);
    assert_eq!(fallback.base, "C:\\VARDesktopData");
    assert!(fallback.segments.is_empty());
    let linux = recommended_media_library_path("linux", None, &[false; 4]);
    assert_eq!(linux.base, ".");
    assert_eq!(segs(&linux), vec!["VARDesktopData"]);
}

#[test]
fn library_marker_checks() {
    assert!(matches!(validate_library_root(&LibraryMarker::Missing), Err(LibraryError::MissingMarker)));
    assert!(matches!(validate_library_root(&LibraryMarker::Parsed(None)), Err(LibraryError::MissingIdentifier)));
    assert!(validate_library_root(&LibraryMarker::Parsed(Some(LIBRARY_IDENTIFIER.to_string()))).is_ok());
    assert!(matches!(
        validate_library_root(&LibraryMarker::Parsed(Some("other".to_string()))),
        Err(LibraryError::IdentifierMismatch)
    ));
    let e = validate_library_root(&LibraryMarker::Unreadable("bad json".to_string())).unwrap_err();
    assert_eq!(e.message(), "bad json");
    assert_eq!(LibraryError::MissingMarker.message(), "媒体库缺少 library.json");
    assert_eq!(LibraryError::NotInitialized.message(), "媒体库尚未初始化");
    assert!(matches!(current_media_root(&None), Err(LibraryError::NotInitialized)));
    assert_eq!(current_media_root(&Some("/m".to_string())).unwrap().base, "/m");
}

#[test]
fn migration_targets() {
    assert!(matches!(check_migration_target("/a", "/a", true, true), Err(MigrationError::SameDirectory)));
    assert!(matches!(check_migration_target("/a", "/a/", false, false), Err(MigrationError::SameDirectory)));
    assert!(matches!(check_migration_target("/a", "/b", true, true), Err(MigrationError::TargetNotEmpty)));
    assert!(check_migration_target("/a", "/b", true, false).is_ok());
    assert!(check_migration_target("/a", "/b", false, false).is_ok());
    assert_eq!(MigrationError::SameDirectory.message(), "媒体库目标目录不能与当前目录相同");
    assert_eq!(MigrationError::TargetNotEmpty.message(), "迁移目标目录必须为空目录或不存在");
}

#[test]
fn streamed_videos() {
    let pre = Some("output/pre.mp4".to_string());
    let res = None;
    assert_eq!(stream_relative_path("original", "input/original.avi", &Some("work/a.mp4".to_string()), &pre, &res).unwrap(), "work/a.mp4");
    assert_eq!(stream_relative_path("original", "input/original.mp4", &None, &pre, &res).unwrap(), "input/original.mp4");
    assert_eq!(stream_relative_path("preprocessed", "x", &None, &pre, &res).unwrap(), "output/pre.mp4");
    assert!(matches!(stream_relative_path("result", "x", &None, &pre, &res), Err(StreamError::ResultMissing)));
    assert!(matches!(stream_relative_path("preprocessed", "x", &None, &None, &res), Err(StreamError::PreprocessedMissing)));
    assert!(matches!(stream_relative_path("thumb", "x", &None, &pre, &res), Err(StreamError::UnknownVideoType)));
    assert_eq!(StreamError::UnknownVideoType.message(), "不支持的视频类型");
    assert_eq!(media_url(8123, "tok"), "http://127.0.0.1:8123/media/tok");
}
