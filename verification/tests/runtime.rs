use var_desktop::runtime::{io_retry_failure_message, io_retry_step, runtime_check_poll, RetryStep, SelfCheckPoll, IO_RETRY_MAX_ATTEMPTS};
use var_desktop::paths::{HostPlatform, LibPath};
use var_desktop::runtime::{
    bundled_binary_name, check_manifest_entry, check_manifest_entry_path, check_runtime_import,
    cleanup_inactive_windows_runtimes, dev_source_progress_message, development_source_files, digest_hex,
    first_missing, import_temp_dir, log_excerpt, new_import_temp_dir, normalized_path_key,
    required_runtime_build_id, run_runtime_self_check, runtime_cache_platform_dir, runtime_check_exit_hint,
    runtime_check_failure, runtime_check_timeout, runtime_platform_slug, runtime_state_from_paths_with_progress,
    sha256_hex, validate_development_source_runtime, validate_runtime_layout, validate_runtime_manifest,
    validate_runtime_package_zip, windows_active_runtime_dir, RuntimeCheckError, RuntimeDirEntry,
    RuntimeImportError, RuntimeManifest, RuntimeManifestFile, RuntimePackageLock, SelfCheckStep,
    EXIT_DLL_NOT_FOUND, EXIT_ENTRY_POINT_NOT_FOUND,
};

fn platform(os: &str, arch: &str, debug: bool) -> HostPlatform {
    HostPlatform { os: os.to_string(), arch: arch.to_string(), debug_build: debug }
}

fn segs(p: &LibPath) -> Vec<&str> {
    p.segments.iter().map(String::as_str).collect()
}

fn manifest(platform: &str, build: &str, app: &str) -> RuntimeManifest {
    RuntimeManifest {
        platform: platform.to_string(),
        runtime_build_id: build.to_string(),
        app_version: app.to_string(),
        created_at: "2025-01-01".to_string(),
        files: Vec::new(),
    }
}

#[test]
fn platform_slugs() {
    assert_eq!(runtime_platform_slug("macos", "aarch64"), "darwin-arm64");
    assert_eq!(runtime_platform_slug("macos", "x86_64"), "darwin-x64");
    assert_eq!(runtime_platform_slug("windows", "x86_64"), "windows-x64");
    assert_eq!(runtime_platform_slug("windows", "aarch64"), "windows-arm64");
    assert_eq!(runtime_platform_slug("linux", "x86_64"), "linux-x64");
    assert_eq!(runtime_platform_slug("linux", "aarch64"), "linux-arm64");
    assert_eq!(runtime_platform_slug("macos", "riscv64"), "darwin-unknown");
    assert_eq!(runtime_platform_slug("windows", "x86"), "windows-unknown");
    assert_eq!(runtime_platform_slug("freebsd", "x86_64"), "linux-x64");
    assert_eq!(runtime_platform_slug("freebsd", "riscv64"), "linux-arm64");
    assert_eq!(bundled_binary_name(true, "ffmpeg"), "ffmpeg.exe");
    assert_eq!(bundled_binary_name(false, "ffmpeg"), "ffmpeg");
    assert_eq!(required_runtime_build_id("0.3.1"), "0.3.1");
}

#[test]
fn runtime_directories() {
    let cache = LibPath::new("/data").join("runtime");
    let win = platform("windows", "x86_64", false);
    assert_eq!(segs(&runtime_cache_platform_dir(&cache, &win)), vec!["runtime", "windows-x64"]);
    assert_eq!(segs(&windows_active_runtime_dir(&cache, &win, "1.2.0")), vec!["runtime", "windows-x64", "1.2.0"]);
}

#[test]
fn manifest_checks_in_order() {
    let win = platform("windows", "x86_64", false);
    assert!(validate_runtime_manifest(&manifest("windows-x64", "1.0", "1.0"), &win, "1.0").is_ok());
    let e = validate_runtime_manifest(&manifest("linux-x64", "0.9", "0.9"), &win, "1.0").unwrap_err();
    assert_eq!(e.message(), "算法包平台不匹配：需要 windows-x64，实际 linux-x64");
    let e = validate_runtime_manifest(&manifest("windows-x64", "0.9", "0.9"), &win, "1.0").unwrap_err();
    assert_eq!(e.message(), "算法包版本不匹配：需要 1.0，实际 0.9");
    let e = validate_runtime_manifest(&manifest("windows-x64", "1.0", "0.9"), &win, "1.0").unwrap_err();
    assert_eq!(e.message(), "算法包 App 版本不匹配：需要 1.0，实际 0.9");
}

#[test]
fn package_checks() {
    let win = platform("windows", "x86_64", false);
    let lock = RuntimePackageLock {
        platform: "windows-x64".to_string(),
        runtime_build_id: "1.0".to_string(),
        app_version: "1.0".to_string(),
        package_name: "runtime-1.0.zip".to_string(),
        size: 10,
        sha256: "ABCDEF".to_string(),
        created_at: String::new(),
    };
    assert!(validate_runtime_package_zip(&lock, &win, "1.0", 10, "abcdef").is_ok());
    let e = validate_runtime_package_zip(&lock, &win, "1.0", 11, "abcdef").unwrap_err();
    assert_eq!(e.message(), "算法包大小不匹配：请选择主程序配套的算法包 runtime-1.0.zip");
    let e = validate_runtime_package_zip(&lock, &win, "1.0", 10, "abcdee").unwrap_err();
    assert_eq!(e.message(), "算法包 SHA256 不匹配：请选择主程序配套的算法包 runtime-1.0.zip");
    let e = validate_runtime_package_zip(&lock, &win, "2.0", 10, "abcdef").unwrap_err();
    assert_eq!(e.message(), "主程序算法包锁定文件版本不匹配：需要 2.0，实际 1.0");
    let e = validate_runtime_package_zip(&lock, &platform("linux", "x86_64", false), "1.0", 10, "abcdef").unwrap_err();
    assert_eq!(e.message(), "主程序算法包锁定文件平台不匹配：需要 linux-x64，实际 windows-x64");
}

#[test]
fn manifest_entries() {
    let f = RuntimeManifestFile { path: "tools/ffmpeg.exe".to_string(), size: 3, sha256: "aa".to_string() };
    assert!(check_manifest_entry_path(&f, false).is_ok());
    assert!(matches!(check_manifest_entry_path(&f, true), Err(RuntimeCheckError::IllegalPath(p)) if p == "tools/ffmpeg.exe"));
    let up = RuntimeManifestFile { path: "../evil".to_string(), size: 3, sha256: "aa".to_string() };
    assert_eq!(check_manifest_entry_path(&up, false).unwrap_err().message(), "算法包 manifest 包含非法路径: ../evil");
    assert!(check_manifest_entry(&f, 3, "AA").is_ok());
    assert_eq!(check_manifest_entry(&f, 4, "aa").unwrap_err().message(), "算法包文件大小不匹配: tools/ffmpeg.exe");
    assert_eq!(check_manifest_entry(&f, 3, "ab").unwrap_err().message(), "算法包文件校验失败: tools/ffmpeg.exe");
}

#[test]
fn digests() {
    assert_eq!(digest_hex(&[0x00, 0x0f, 0xa0, 0xff]), "000fa0ff");
    assert_eq!(sha256_hex(b"abc"), "ba7816bf8f01cfea414140de5dae2223b00361a396177a9cb410ff61f20015ad");
    assert_eq!(sha256_hex(b""), "e3b0c44298fc1c149afbf4c8996fb92427ae41e4649b934ca495991b7852b855");
}

#[test]
fn layout_and_first_missing() {
    let root = LibPath::new("/rt");
    let files = validate_runtime_layout(&root, true);
    assert_eq!(segs(&files[0]), vec!["worker", "desktop_worker", "desktop_worker.exe"]);
    assert_eq!(segs(&files[1]), vec!["tools", "ffmpeg.exe"]);
    assert_eq!(segs(&files[5]), vec!["models", "best.onnx"]);
    assert_eq!(first_missing(&[true, true, false, false]), Some(2));
    assert_eq!(first_missing(&[true, true]), None);
}

#[test]
fn path_keys_and_excerpts() {
    assert_eq!(normalized_path_key("C:/Runtime/Windows-X64"), "c:\\runtime\\windows-x64");
    assert_eq!(log_excerpt("a\r\nb"), "a\\r\\nb");
    let long = "x".repeat(4001);
    let e = log_excerpt(&long);
    assert_eq!(e, format!("{}...<truncated>", "x".repeat(4000)));
    assert_eq!(log_excerpt(&"y".repeat(4000)), "y".repeat(4000));
}

#[test]
fn self_check_messages() {
    assert!(runtime_check_exit_hint(Some(EXIT_DLL_NOT_FOUND)).unwrap().contains("缺少 DLL"));
    assert!(runtime_check_exit_hint(Some(EXIT_ENTRY_POINT_NOT_FOUND)).unwrap().contains("570"));
    assert_eq!(EXIT_DLL_NOT_FOUND as u32, 0xc0000135);
    assert_eq!(EXIT_ENTRY_POINT_NOT_FOUND as u32, 0xc0000139);
    assert_eq!(runtime_check_exit_hint(Some(1)), None);
    assert_eq!(runtime_check_exit_hint(None), None);
    assert_eq!(runtime_check_failure("ffmpeg -version", "", "  ", "exit code: 1", Some(1)), "算法包自检失败: ffmpeg -version\n退出码: exit code: 1");
    assert_eq!(runtime_check_failure("x", " out ", "", "s", None), "算法包自检失败: x\nout");
    assert_eq!(runtime_check_failure("x", "", "err\n", "s", None), "算法包自检失败: x\nerr");
    assert_eq!(runtime_check_failure("x", "o", "e", "s", None), "算法包自检失败: x\ne\no");
    let hinted = runtime_check_failure("x", "o", "", "s", Some(EXIT_DLL_NOT_FOUND));
    assert!(hinted.starts_with("算法包自检失败: x\no\n提示：Windows 报告缺少 DLL"));
    assert_eq!(runtime_check_timeout("w", "", ""), "算法包自检超时: w，已等待 60 秒\n无输出");
    assert_eq!(runtime_check_timeout("w", "o", "e"), "算法包自检超时: w，已等待 60 秒\ne\no");
}

#[test]
fn self_check_steps() {
    let steps = run_runtime_self_check(&LibPath::new("/rt"), false);
    assert_eq!(steps.len(), 6);
    match &steps[0] {
        SelfCheckStep::Run { program, args, path_arg, label } => {
            assert_eq!(segs(program), vec!["worker", "desktop_worker", "desktop_worker"]);
            assert_eq!(args, &vec!["--self-check".to_string()]);
            assert!(path_arg.is_none());
            assert_eq!(label, "desktop_worker --self-check");
        }
        other => panic!("unexpected {other:?}"),
    }
    assert!(matches!(steps[3], SelfCheckStep::NvidiaDriver));
    match &steps[5] {
        SelfCheckStep::Run { program, args, path_arg, label } => {
            assert_eq!(segs(program), vec!["tools", "var-video-analyzer"]);
            assert_eq!(args, &vec!["--self-check-onnx".to_string(), "--model".to_string()]);
            assert_eq!(segs(path_arg.as_ref().unwrap()), vec!["models", "best.onnx"]);
            assert_eq!(label, "var-video-analyzer --self-check-onnx");
        }
        other => panic!("unexpected {other:?}"),
    }
}

#[test]
fn runtime_state_decisions() {
    let dev = runtime_state_from_paths_with_progress(&platform("windows", "x86_64", true), "1.0", Some(Ok(())), None, None);
    assert!(!dev.runtime_required && dev.runtime_ready);
    assert_eq!(dev.runtime_build_id.as_deref(), Some("dev-source"));
    assert_eq!(dev.runtime_platform, "windows-x64");
    assert_eq!(dev.required_runtime_build_id, "1.0");

    let mac = runtime_state_from_paths_with_progress(&platform("macos", "aarch64", true), "1.0", Some(Err("no".to_string())), None, None);
    assert!(!mac.runtime_required && mac.runtime_ready);
    assert_eq!(mac.runtime_build_id.as_deref(), Some("1.0"));

    let ok = runtime_state_from_paths_with_progress(&platform("windows", "x86_64", false), "1.0", None, Some(Ok("1.0".to_string())), None);
    assert!(ok.runtime_required && ok.runtime_ready);
    assert_eq!(ok.runtime_build_id.as_deref(), Some("1.0"));
    assert_eq!(ok.runtime_error, None);

    let bad = runtime_state_from_paths_with_progress(
        &platform("windows", "x86_64", false),
        "1.0",
        None,
        Some(Err("missing".to_string())),
        Some("0.9".to_string()),
    );
    assert!(bad.runtime_required && !bad.runtime_ready);
    assert_eq!(bad.runtime_build_id.as_deref(), Some("0.9"));
    assert_eq!(bad.runtime_error.as_deref(), Some("missing"));

    assert_eq!(dev_source_progress_message(&Ok(())), "开发模式使用 Python 源码 worker");
    assert_eq!(dev_source_progress_message(&Err("x".to_string())), "Python 源码 worker 不可用: x");
}

#[test]
fn development_source_checks() {
    let (script, model) = development_source_files(&LibPath::new("/repo"), true);
    assert_eq!(segs(&script), vec!["ai-processor", "desktop_worker.py"]);
    assert_eq!(segs(&model), vec!["ai-processor", "weights", "best.onnx"]);
    let (_, model) = development_source_files(&LibPath::new("/repo"), false);
    assert_eq!(segs(&model), vec!["ai-processor", "weights", "best.pt"]);
    assert_eq!(validate_development_source_runtime(false, false, false, "S", "M"), Err("缺少 S".to_string()));
    assert_eq!(validate_development_source_runtime(true, false, false, "S", "M"), Err("缺少 M".to_string()));
    assert_eq!(
        validate_development_source_runtime(true, true, false, "S", "M"),
        Err("未找到已安装 worker 依赖的 Python 环境".to_string())
    );
    assert_eq!(validate_development_source_runtime(true, true, true, "S", "M"), Ok(()));
}

#[test]
fn import_and_cleanup() {
    assert!(matches!(check_runtime_import(false, true, "a.zip"), Err(RuntimeImportError::NotWindows)));
    let e = check_runtime_import(true, false, "C:\\a.zip").unwrap_err();
    assert_eq!(e.message(), "算法包不存在: C:\\a.zip");
    assert_eq!(RuntimeImportError::NotWindows.message(), "当前平台不需要导入 Windows 算法包");
    assert!(check_runtime_import(true, true, "a.zip").is_ok());

    let root = LibPath::new("/rt");
    assert_eq!(segs(&import_temp_dir(&root, "abc")), vec![".import-abc"]);
    let fresh = new_import_temp_dir(&root);
    assert_eq!(fresh.segments[0].len(), ".import-".len() + 36);
    assert!(fresh.segments[0].starts_with(".import-"));

    let entries = vec![
        RuntimeDirEntry { path: "/rt/1.0".to_string(), is_dir: true },
        RuntimeDirEntry { path: "/rt/0.9".to_string(), is_dir: true },
        RuntimeDirEntry { path: "/rt/stale.txt".to_string(), is_dir: false },
    ];
    let removed = cleanup_inactive_windows_runtimes(true, &entries, "/rt/1.0");
    let paths: Vec<&str> = removed.iter().map(|e| e.path.as_str()).collect();
    assert_eq!(paths, vec!["/rt/0.9", "/rt/stale.txt"]);
    assert!(!removed[1].is_dir);
    assert!(cleanup_inactive_windows_runtimes(false, &entries, "/rt/1.0").is_empty());
}

#[test]
fn self_check_poll_waits_then_kills() {
    assert_eq!(runtime_check_poll(true, 70_000), SelfCheckPoll::Collect);
    assert_eq!(runtime_check_poll(false, 59_999), SelfCheckPoll::WaitMs(50));
    assert_eq!(runtime_check_poll(false, 60_000), SelfCheckPoll::KillForTimeout);
}

#[test]
fn io_retry_steps() {
    assert_eq!(io_retry_step(1, true), RetryStep::Done);
    assert_eq!(io_retry_step(1, false), RetryStep::RetryAfterMs(200));
    assert_eq!(io_retry_step(24, false), RetryStep::RetryAfterMs(200));
    assert_eq!(io_retry_step(IO_RETRY_MAX_ATTEMPTS, false), RetryStep::GiveUp);
    assert_eq!(IO_RETRY_MAX_ATTEMPTS, 25);
    assert_eq!(io_retry_failure_message("切换算法包", "/a", Some("/b")), "切换算法包失败，无法将 /a 移动到 /b");
    assert_eq!(io_retry_failure_message("删除旧算法包", "/a", None), "删除旧算法包失败: /a");
}
