use var_desktop::paths::{build_control_paths, ensure_control_dirs, HostPlatform, LibPath};

fn segs(p: &LibPath) -> Vec<&str> {
    p.segments.iter().map(String::as_str).collect()
}

fn platform(os: &str) -> HostPlatform {
    HostPlatform { os: os.to_string(), arch: "x86_64".to_string(), debug_build: false }
}

#[test]
fn control_paths_layout() {
    let p = build_control_paths("/cfg", "/data", "/res", &platform("linux"), "1.2.3", "1.2.3");
    assert_eq!(p.settings_path.base, "/cfg");
    assert_eq!(segs(&p.settings_path), vec!["settings.json"]);
    assert_eq!(segs(&p.db_path), vec!["db", "app.sqlite3"]);
    assert_eq!(segs(&p.db_backup_dir), vec!["backups", "db"]);
    assert_eq!(segs(&p.log_dir), vec!["logs"]);
    assert_eq!(segs(&p.runtime_cache_dir), vec!["runtime", "1.2.3", "1.2.3"]);
    assert_eq!(p.resource_dir.base, "/res");
    let w = build_control_paths("/cfg", "/data", "/res", &platform("windows"), "1.2.3", "1.2.3");
    assert_eq!(segs(&w.runtime_cache_dir), vec!["runtime"]);
    assert!(platform("windows").is_windows());
    assert!(!platform("macos").is_windows());
}

#[test]
fn control_dirs_in_creation_order() {
    let p = build_control_paths("/cfg", "/data", "/res", &platform("linux"), "1", "1");
    let dirs = ensure_control_dirs(&p);
    assert_eq!(dirs.len(), 8);
    assert_eq!(dirs[0].base, "/cfg");
    assert_eq!(segs(&dirs[2]), vec!["db"]);
    assert_eq!(segs(&dirs[5]), vec!["logs", "backend"]);
    assert_eq!(segs(&dirs[6]), vec!["logs", "worker"]);
    assert_eq!(segs(&dirs[7]), vec!["runtime", "1", "1"]);
}

#[test]
fn joins_accumulate() {
    let p = LibPath::new("/a").join("b").join("c");
    assert_eq!(p.base, "/a");
    assert_eq!(segs(&p), vec!["b", "c"]);
    let q = p.duplicate();
    assert_eq!(q.segments, p.segments);
}
