use var_desktop::paths::{HostPlatform, LibPath};
use var_desktop::resources::{
    bundled_resources_root, ensure_runtime_directory, ensure_runtime_file, join_all,
    resolve_development_python_command, resolve_ffmpeg_path, resolve_ffprobe_path, resolve_model_path,
    resolve_resource_file, resolve_runtime_resource_file, resolve_source_worker_launch,
    resolve_worker_launch, resource_file_candidates, runtime_directory_action, runtime_file_needs_copy,
    runtime_resource_candidates, ModelPathError,
    development_python_candidates, local_venv_python, windows_python_candidates, WorkerLaunch, WorkerLaunchError,
};

fn platform(os: &str, arch: &str, debug: bool) -> HostPlatform {
    HostPlatform { os: os.to_string(), arch: arch.to_string(), debug_build: debug }
}

fn segs(p: &LibPath) -> Vec<&str> {
    p.segments.iter().map(String::as_str).collect()
}

#[test]
fn bundled_root_prefers_nested_resources() {
    let dir = LibPath::new("/app");
    assert_eq!(segs(&bundled_resources_root(&dir, true)), vec!["resources"]);
    assert!(segs(&bundled_resources_root(&dir, false)).is_empty());
    assert_eq!(join_all(&dir, &["a", "b"]).segments, vec!["a", "b"]);
}

#[test]
fn resource_files_prefer_the_bundle() {
    let bundled = LibPath::new("/app/resources");
    let repo = LibPath::new("/repo");
    let c = resource_file_candidates(&bundled, &repo, &["models", "best.pt"], &["ai-processor", "weights", "best.pt"]);
    assert_eq!(c[0].base, "/app/resources");
    assert_eq!(segs(&c[0]), vec!["models", "best.pt"]);
    assert_eq!(c[1].base, "/repo");
    assert_eq!(segs(&c[1]), vec!["ai-processor", "weights", "best.pt"]);
    let rel = ["models", "best.pt"];
    let dev = ["ai-processor", "weights", "best.pt"];
    let r = resolve_resource_file(&bundled, &repo, &rel, &dev, true, true).unwrap();
    assert_eq!(r.base, "/app/resources");
    let r = resolve_resource_file(&bundled, &repo, &rel, &dev, false, true).unwrap();
    assert_eq!(r.base, "/repo");
    assert!(resolve_resource_file(&bundled, &repo, &rel, &dev, false, false).is_none());
}

#[test]
fn runtime_resources_are_per_platform() {
    let bundled = LibPath::new("/app/resources");
    let repo = LibPath::new("/repo");
    let p = platform("macos", "aarch64", false);
    let c = runtime_resource_candidates(&bundled, &repo, &p, &["tools", "ffmpeg"]);
    assert_eq!(segs(&c[0]), vec!["runtime", "darwin-arm64", "tools", "ffmpeg"]);
    assert_eq!(
        segs(&c[1]),
        vec!["frontend", "src-tauri", "resources", "runtime", "darwin-arm64", "tools", "ffmpeg"]
    );
    let r = resolve_runtime_resource_file(&bundled, &repo, &p, &["tools", "ffmpeg"], false, true).unwrap();
    assert_eq!(r.base, "/repo");
    assert!(resolve_runtime_resource_file(&bundled, &repo, &p, &["x"], false, false).is_none());
}

#[test]
fn runtime_file_plan_and_copy_rule() {
    let cache = LibPath::new("/cache").join("linux-x64");
    let plan = ensure_runtime_file(Some(LibPath::new("/src/ffmpeg")), &["tools", "ffmpeg"], &cache, &["tools", "ffmpeg"], true).unwrap();
    assert_eq!(plan.source.base, "/src/ffmpeg");
    assert_eq!(segs(&plan.target), vec!["linux-x64", "tools", "ffmpeg"]);
    assert!(plan.mark_executable);
    let err = ensure_runtime_file(None, &["tools", "ffmpeg"], &cache, &["tools", "ffmpeg"], true).unwrap_err();
    assert_eq!(err, "缺少运行资源: tools/ffmpeg");
    assert!(runtime_file_needs_copy(None));
    assert!(runtime_file_needs_copy(Some((10, 12))));
    assert!(!runtime_file_needs_copy(Some((12, 12))));
}

#[test]
fn runtime_directory_plan_and_action() {
    let cache = LibPath::new("/cache");
    let plan = ensure_runtime_directory(
        Some(LibPath::new("/src/worker")),
        &["worker", "desktop_worker"],
        &cache,
        &["worker", "desktop_worker"],
        Some("desktop_worker"),
    )
    .unwrap();
    assert_eq!(segs(&plan.target), vec!["worker", "desktop_worker"]);
    assert_eq!(segs(plan.executable.as_ref().unwrap()), vec!["worker", "desktop_worker", "desktop_worker"]);
    let err = ensure_runtime_directory(None, &["worker", "desktop_worker"], &cache, &["w"], None).unwrap_err();
    assert_eq!(err, "缺少运行目录资源: worker/desktop_worker");
    assert_eq!(runtime_directory_action(false, Some(true)), (true, false));
    assert_eq!(runtime_directory_action(true, Some(false)), (true, true));
    assert_eq!(runtime_directory_action(true, Some(true)), (false, false));
    assert_eq!(runtime_directory_action(true, None), (false, false));
}

#[test]
fn first_ready_python_is_used() {
    let c = vec!["/venv/bin/python".to_string(), "python3".to_string(), "python".to_string()];
    assert_eq!(resolve_development_python_command(&c, &[false, true, true]).as_deref(), Some("python3"));
    assert_eq!(resolve_development_python_command(&c, &[false, false, false]), None);
    assert_eq!(resolve_development_python_command(&c, &[false]), None);
}

#[test]
fn model_path_resolution() {
    let repo = LibPath::new("/repo");
    let active = LibPath::new("/cache/windows-x64/1.0");
    let dev = resolve_model_path(&platform("linux", "x86_64", true), &repo, &active, true, false, None).unwrap();
    assert_eq!(segs(&dev), vec!["ai-processor", "weights", "best.pt"]);
    let win = resolve_model_path(&platform("windows", "x86_64", false), &repo, &active, true, true, None).unwrap();
    assert_eq!(win.base, "/cache/windows-x64/1.0");
    assert_eq!(segs(&win), vec!["models", "best.pt"]);
    assert_eq!(
        resolve_model_path(&platform("windows", "x86_64", false), &repo, &active, false, false, None).unwrap_err(),
        ModelPathError::WindowsMissing
    );
    let bundled = resolve_model_path(&platform("linux", "x86_64", false), &repo, &active, false, false, Some(LibPath::new("/b/best.pt"))).unwrap();
    assert_eq!(bundled.base, "/b/best.pt");
    assert_eq!(
        resolve_model_path(&platform("linux", "x86_64", false), &repo, &active, false, false, None).unwrap_err(),
        ModelPathError::Unresolved
    );
    assert_eq!(ModelPathError::WindowsMissing.message(), "Windows 算法包尚未导入或模型文件缺失 best.pt");
    assert_eq!(ModelPathError::Unresolved.message(), "无法解析模型文件 best.pt");
}

#[test]
fn worker_launch_resolution() {
    let repo = LibPath::new("/repo");
    let active = LibPath::new("/active");
    match resolve_source_worker_launch(&repo, true, Some("python3".to_string())) {
        Some(WorkerLaunch::PythonScript { python, script, python_path }) => {
            assert_eq!(python, "python3");
            assert_eq!(segs(&script), vec!["ai-processor", "desktop_worker.py"]);
            assert_eq!(segs(&python_path), vec!["ai-processor"]);
        }
        other => panic!("unexpected {other:?}"),
    }
    assert!(resolve_source_worker_launch(&repo, false, Some("python3".to_string())).is_none());
    assert!(resolve_source_worker_launch(&repo, true, None).is_none());

    let source = || resolve_source_worker_launch(&repo, true, Some("python3".to_string()));
    assert!(matches!(
        resolve_worker_launch(&platform("windows", "x86_64", true), source(), &active, false, None),
        Ok(WorkerLaunch::PythonScript { .. })
    ));
    match resolve_worker_launch(&platform("windows", "x86_64", false), source(), &active, true, None) {
        Ok(WorkerLaunch::Packaged { executable }) => {
            assert_eq!(segs(&executable), vec!["worker", "desktop_worker", "desktop_worker.exe"])
        }
        other => panic!("unexpected {other:?}"),
    }
    assert!(matches!(
        resolve_worker_launch(&platform("windows", "x86_64", false), None, &active, false, None),
        Err(WorkerLaunchError::WindowsMissing)
    ));
    match resolve_worker_launch(&platform("linux", "x86_64", false), source(), &active, false, Some(Ok(LibPath::new("/cache/w")))) {
        Ok(WorkerLaunch::Packaged { executable }) => assert_eq!(segs(&executable), vec!["desktop_worker"]),
        other => panic!("unexpected {other:?}"),
    }
    assert!(matches!(
        resolve_worker_launch(&platform("linux", "x86_64", false), None, &active, false, Some(Err("disk full".to_string()))),
        Err(WorkerLaunchError::Cache(m)) if m == "disk full"
    ));
    assert!(matches!(
        resolve_worker_launch(&platform("linux", "x86_64", false), source(), &active, false, None),
        Ok(WorkerLaunch::PythonScript { .. })
    ));
    assert!(matches!(
        resolve_worker_launch(&platform("linux", "x86_64", false), None, &active, false, None),
        Err(WorkerLaunchError::Unresolved)
    ));
    assert_eq!(WorkerLaunchError::WindowsMissing.message(), "Windows 算法包尚未导入或 desktop_worker.exe 缺失");
    assert_eq!(WorkerLaunchError::Unresolved.message(), "无法解析桌面 worker 可执行文件");
}

#[test]
fn tool_paths() {
    let active = LibPath::new("/active");
    let win = platform("windows", "x86_64", false);
    let p = resolve_ffmpeg_path(&win, &active, true, None);
    assert_eq!(segs(&p), vec!["tools", "ffmpeg.exe"]);
    let p = resolve_ffprobe_path(&win, &active, false, None);
    assert_eq!(p.base, "ffprobe.exe");
    assert!(p.segments.is_empty());
    let linux = platform("linux", "x86_64", false);
    let p = resolve_ffmpeg_path(&linux, &active, false, Some(LibPath::new("/cache/tools/ffmpeg")));
    assert_eq!(p.base, "/cache/tools/ffmpeg");
    let p = resolve_ffprobe_path(&linux, &active, false, None);
    assert_eq!(p.base, "ffprobe");
}

fn shown(p: &LibPath) -> String {
    let mut out = p.base.clone();
    for s in &p.segments {
        out.push('/');
        out.push_str(s);
    }
    out
}

#[test]
fn windows_python_candidates_follow_conda_then_cpython() {
    let found = windows_python_candidates(
        None,
        Some("C:/envs/active".to_string()),
        Some(LibPath::new("C:/conda")),
        Some("C:/Users/me".to_string()),
        Some("C:/Users/me/AppData/Local".to_string()),
    );
    let shown: Vec<String> = found.iter().map(shown).collect();
    assert_eq!(
        shown,
        vec![
            "C:/envs/active/python.exe",
            "C:/conda/envs/var-env/python.exe",
            "C:/conda/python.exe",
            "C:/Users/me/.conda/envs/var-env/python.exe",
            "C:/Users/me/.conda/python.exe",
            "C:/Users/me/anaconda3/envs/var-env/python.exe",
            "C:/Users/me/anaconda3/python.exe",
            "C:/Users/me/miniconda3/envs/var-env/python.exe",
            "C:/Users/me/miniconda3/python.exe",
            "C:/Users/me/AppData/Local/Programs/Python/Python312/python.exe",
            "C:/Users/me/AppData/Local/Programs/Python/Python311/python.exe",
            "C:/Users/me/AppData/Local/Programs/Python/Python310/python.exe",
            "C:/Users/me/AppData/Local/Programs/Python/Python313/python.exe",
        ]
    );
}

#[test]
fn windows_python_candidates_use_named_environment() {
    let found = windows_python_candidates(Some("weld".to_string()), None, Some(LibPath::new("D:/mc")), None, None);
    let shown: Vec<String> = found.iter().map(shown).collect();
    assert_eq!(shown, vec!["D:/mc/envs/weld/python.exe", "D:/mc/python.exe"]);
    assert!(windows_python_candidates(None, None, None, None, None).is_empty());
}

#[test]
fn local_venv_python_depends_on_platform() {
    let frontend = LibPath::new("/repo/frontend");
    assert_eq!(segs(&local_venv_python(&frontend, true)), vec![".desktop-worker-venv", "Scripts", "python.exe"]);
    assert_eq!(segs(&local_venv_python(&frontend, false)), vec![".desktop-worker-venv", "bin", "python"]);
}

#[test]
fn development_python_candidates_order() {
    assert_eq!(
        development_python_candidates(false, Some("/opt/py".to_string()), Some("/repo/venv/python".to_string()), Vec::new()),
        vec!["/opt/py", "/repo/venv/python", "python3", "python"]
    );
    assert_eq!(
        development_python_candidates(true, Some("   ".to_string()), None, vec!["C:/conda/python.exe".to_string()]),
        vec!["C:/conda/python.exe", "python"]
    );
    assert_eq!(development_python_candidates(true, None, None, Vec::new()), vec!["python"]);
}
