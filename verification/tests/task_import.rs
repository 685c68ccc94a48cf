use var_desktop::task_import::{
    analysis_input_rel_path, check_import_batch, check_import_source, default_task_config_input,
    default_task_name, import_extension, import_failure_file_name, is_web_friendly_codec,
    normalize_analysis_input, original_rel_path, parse_timeout_ratio, resolve_task_config,
    task_name_from_stem, tasks_to_enqueue, ImportError, TaskConfigInput, TimeoutRatioError,
};
use var_desktop::text::IntErrorKind;

#[test]
fn default_config_matches_documented_defaults() {
    let c = default_task_config_input();
    assert_eq!(c.timeout_ratio.as_deref(), Some("1:4"));
    assert_eq!(c.enable_preprocessing, Some(false));
    assert_eq!(c.preprocessing_strength.as_deref(), Some("moderate"));
    assert_eq!(c.preprocessing_enhance_pool, Some(false));
    assert_eq!(c.enable_dynamic_metrics, Some(true));
}

#[test]
fn resolved_config_fills_defaults_and_drops_pool_without_preprocessing() {
    let none = resolve_task_config(None);
    assert_eq!(none.timeout_ratio, "1:4");
    assert!(!none.enable_preprocessing);
    assert_eq!(none.preprocessing_strength, "moderate");
    assert!(!none.preprocessing_enhance_pool);
    assert!(none.enable_dynamic_metrics);

    let partial = resolve_task_config(Some(TaskConfigInput {
        timeout_ratio: Some("1:2".to_string()),
        enable_preprocessing: None,
        preprocessing_strength: None,
        preprocessing_enhance_pool: Some(true),
        enable_dynamic_metrics: Some(false),
    }));
    assert_eq!(partial.timeout_ratio, "1:2");
    assert!(!partial.enable_preprocessing);
    assert!(!partial.preprocessing_enhance_pool);
    assert!(!partial.enable_dynamic_metrics);

    let full = resolve_task_config(Some(TaskConfigInput {
        timeout_ratio: None,
        enable_preprocessing: Some(true),
        preprocessing_strength: Some("strong".to_string()),
        preprocessing_enhance_pool: Some(true),
        enable_dynamic_metrics: None,
    }));
    assert_eq!(full.timeout_ratio, "1:4");
    assert!(full.enable_preprocessing);
    assert_eq!(full.preprocessing_strength, "strong");
    assert!(full.preprocessing_enhance_pool);
    assert!(full.enable_dynamic_metrics);
}

#[test]
fn task_name_comes_from_the_file_stem() {
    assert_eq!(default_task_name("/videos/melt 01.mp4"), "melt 01");
    assert_eq!(default_task_name("/videos/archive.tar.gz"), "archive.tar");
    assert_eq!(default_task_name("/"), "未命名任务");
    assert_eq!(task_name_from_stem(Some("")), "未命名任务");
    assert_eq!(task_name_from_stem(None), "未命名任务");
    assert_eq!(task_name_from_stem(Some("run")), "run");
}

#[test]
fn import_extension_is_lower_cased() {
    assert_eq!(import_extension("/v/A.MP4"), "mp4");
    assert_eq!(import_extension("/v/clip.MkV"), "mkv");
    assert_eq!(import_extension("/v/noext"), "");
}

#[test]
fn import_source_checks_existence_then_format() {
    assert_eq!(check_import_source(false, "mp4"), Err(ImportError::SourceMissing));
    assert_eq!(check_import_source(true, "wmv"), Err(ImportError::UnsupportedFormat));
    for ext in ["mp4", "mov", "avi", "mkv"] {
        assert_eq!(check_import_source(true, ext), Ok(()));
    }
    assert_eq!(ImportError::SourceMissing.message(), "源视频文件不存在");
    assert_eq!(ImportError::UnsupportedFormat.message(), "不支持的视频格式，仅支持 mp4/mov/avi/mkv");
}

#[test]
fn stored_paths_of_an_import() {
    assert_eq!(original_rel_path("mov"), "input/original.mov");
    assert_eq!(analysis_input_rel_path(true), None);
    assert_eq!(analysis_input_rel_path(false).as_deref(), Some("work/analysis_input.mp4"));
}

#[test]
fn web_friendly_codecs() {
    assert!(is_web_friendly_codec("/v/a.mp4", Some("h264")));
    assert!(is_web_friendly_codec("/v/a.MOV", Some("HEVC")));
    assert!(is_web_friendly_codec("/v/a.mp4", Some("avc1")));
    assert!(is_web_friendly_codec("/v/a.mp4", Some("x265 h265")));
    assert!(!is_web_friendly_codec("/v/a.mkv", Some("h264")));
    assert!(!is_web_friendly_codec("/v/a.mp4", Some("vp9")));
    assert!(!is_web_friendly_codec("/v/a.mp4", None));
}

#[test]
fn ffmpeg_normalisation_arguments() {
    let args = normalize_analysis_input("/in/a.avi", "/out/b.mp4");
    assert_eq!(
        args,
        vec![
            "-i", "/in/a.avi", "-c:v", "libx264", "-preset", "medium", "-crf", "23", "-c:a", "aac",
            "-movflags", "+faststart", "-y", "/out/b.mp4",
        ]
    );
}

#[test]
fn timeout_ratio_formula() {
    assert_eq!(parse_timeout_ratio("1:4", 100), Ok(400));
    assert_eq!(parse_timeout_ratio("3:2", 100), Ok(66));
    assert_eq!(parse_timeout_ratio("2:3", 7), Ok(10));
    assert_eq!(parse_timeout_ratio("3:1", -10), Ok(-3));
    assert_eq!(parse_timeout_ratio("1:4:9", 10), Ok(40));
}

#[test]
fn timeout_ratio_errors() {
    assert_eq!(parse_timeout_ratio("4", 10), Err(TimeoutRatioError::Invalid));
    assert_eq!(parse_timeout_ratio("", 10), Err(TimeoutRatioError::Parse(IntErrorKind::Empty)));
    assert_eq!(parse_timeout_ratio("a:4", 10), Err(TimeoutRatioError::Parse(IntErrorKind::InvalidDigit)));
    assert_eq!(parse_timeout_ratio("1:", 10), Err(TimeoutRatioError::Parse(IntErrorKind::Empty)));
    assert_eq!(parse_timeout_ratio("0:4", 10), Err(TimeoutRatioError::NotPositive));
    assert_eq!(parse_timeout_ratio("1:-4", 10), Err(TimeoutRatioError::NotPositive));
    assert_eq!(TimeoutRatioError::Invalid.message(), "无效超时比例");
    assert_eq!(TimeoutRatioError::NotPositive.message(), "超时比例必须为正整数");
    assert_eq!(
        TimeoutRatioError::Parse(IntErrorKind::InvalidDigit).message(),
        "invalid digit found in string"
    );
    assert_eq!(TimeoutRatioError::Parse(IntErrorKind::InvalidDigit).message(), "a".parse::<i64>().unwrap_err().to_string());
}

#[test]
fn batch_import_rules() {
    assert_eq!(check_import_batch(Some(true), true), Err("存在待恢复的排队任务，请先处理恢复弹窗".to_string()));
    assert_eq!(check_import_batch(Some(false), true), Ok(()));
    assert_eq!(check_import_batch(None, true), Ok(()));
    assert_eq!(check_import_batch(Some(true), false), Ok(()));
    assert_eq!(import_failure_file_name("/videos/bad.mp4"), "bad.mp4");
    assert_eq!(import_failure_file_name("/"), "/");
    let ids = vec!["3".to_string(), "x".to_string(), "7".to_string()];
    assert_eq!(tasks_to_enqueue(Some(true), &ids), vec![3, 7]);
    assert!(tasks_to_enqueue(Some(false), &ids).is_empty());
    assert!(tasks_to_enqueue(None, &ids).is_empty());
}
