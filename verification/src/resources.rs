//! Where the application finds what it runs: bundled resources, the runtime
//! cache that unpacked tools are copied into, the model, the worker and the
//! Python interpreter of a development checkout. Which files exist is asked
//! by the shell; the library decides from the answers.

use vstd::prelude::*;
use crate::paths::{joined, path_of, seg_views, HostPlatform, LibPath, is_windows_spec};
use crate::runtime::{bundled_binary_name, platform_slug, runtime_platform_slug};
use crate::tasks::string_views;
use crate::text::{chars_of, owned, push_str, string_of, trim, trim_chars};

verus! {

/// The views of string slices.
pub open spec fn strs_view(parts: Seq<&str>) -> Seq<Seq<char>> {
    parts.map_values(|a: &str| a@)
}

/// `p` joined with each of `parts` in turn.
pub open spec fn joined_all(p: (Seq<char>, Seq<Seq<char>>), parts: Seq<Seq<char>>) -> (Seq<char>, Seq<Seq<char>>) {
    (p.0, p.1 + parts)
}

/// `base` joined with each of `parts` in turn, as a fold of `Path::join`.
pub fn join_all(base: &LibPath, parts: &[&str]) -> (r: LibPath)
    ensures
        r@ == joined_all(base@, strs_view(parts@)),
{
    let mut r = base.duplicate();
    let mut i: usize = 0;
    while i < parts.len()
        invariant
            i <= parts.len(),
            r@ == joined_all(base@, strs_view(parts@.take(i as int))),
        decreases parts.len() - i,
    {
        let ghost before = r@;
        r = r.join(parts[i]);
        i += 1;
        assert(strs_view(parts@.take(i as int)) =~= strs_view(parts@.take(i - 1)).push(parts@[i - 1]@));
        assert(r@.1 =~= base@.1 + strs_view(parts@.take(i as int)));
    }
    assert(parts@.take(parts.len() as int) == parts@);
    r
}

/// Where the bundled resources are: the `resources` directory inside the
/// resource directory where it exists, else the resource directory itself.
pub fn bundled_resources_root(resource_dir: &LibPath, nested_exists: bool) -> (r: LibPath)
    ensures
        nested_exists ==> r@ == joined(resource_dir@, "resources"@),
        !nested_exists ==> r@ == resource_dir@,
{
    if nested_exists {
        resource_dir.join("resources")
    } else {
        resource_dir.duplicate()
    }
}

/// The places a resource file is looked for, in order: under the bundled
/// resources, then (in a development checkout) under the repository root.
pub fn resource_file_candidates(
    bundled_root: &LibPath,
    repo_root: &LibPath,
    relative: &[&str],
    dev_fallback: &[&str],
) -> (r: Vec<LibPath>)
    ensures
        r@.len() == 2,
        r@[0]@ == joined_all(bundled_root@, strs_view(relative@)),
        r@[1]@ == joined_all(repo_root@, strs_view(dev_fallback@)),
{
    let mut r: Vec<LibPath> = Vec::new();
    r.push(join_all(bundled_root, relative));
    r.push(join_all(repo_root, dev_fallback));
    r
}

/// The first of two candidates that exists.
fn first_of_two(candidates: Vec<LibPath>, first_exists: bool, second_exists: bool) -> (r: Option<LibPath>)
    requires
        candidates@.len() == 2,
    ensures
        first_exists ==> (r matches Some(p) && p@ == candidates@[0]@),
        !first_exists && second_exists ==> (r matches Some(p) && p@ == candidates@[1]@),
        !first_exists && !second_exists ==> r is None,
{
    let mut candidates = candidates;
    let second = candidates.pop().unwrap();
    let first = candidates.pop().unwrap();
    if first_exists {
        Some(first)
    } else if second_exists {
        Some(second)
    } else {
        None
    }
}

/// A resource file: the bundled one where it exists, else the one of the
/// development checkout where that exists (see `resource_file_candidates`;
/// `bundled_exists` and `dev_exists` say which of the two exist).
pub fn resolve_resource_file(
    bundled_root: &LibPath,
    repo_root: &LibPath,
    relative: &[&str],
    dev_fallback: &[&str],
    bundled_exists: bool,
    dev_exists: bool,
) -> (r: Option<LibPath>)
    ensures
        bundled_exists ==> (r matches Some(p) && p@ == joined_all(bundled_root@, strs_view(relative@))),
        !bundled_exists && dev_exists ==> (r matches Some(p) && p@ == joined_all(repo_root@, strs_view(dev_fallback@))),
        !bundled_exists && !dev_exists ==> r is None,
{
    let c = resource_file_candidates(bundled_root, repo_root, relative, dev_fallback);
    first_of_two(c, bundled_exists, dev_exists)
}

/// The places a runtime resource is looked for, in order: under the bundled
/// resources' `runtime/<platform>`, then under the same directory of a
/// development checkout's desktop shell.
pub fn runtime_resource_candidates(
    bundled_root: &LibPath,
    repo_root: &LibPath,
    platform: &HostPlatform,
    relative: &[&str],
) -> (r: Vec<LibPath>)
    ensures
        r@.len() == 2,
        r@[0]@ == joined_all(
            joined(joined(bundled_root@, "runtime"@), platform_slug(platform.os@, platform.arch@)),
            strs_view(relative@),
        ),
        r@[1]@ == joined_all(
            joined(
                joined(joined(joined(joined(repo_root@, "frontend"@), "src-tauri"@), "resources"@), "runtime"@),
                platform_slug(platform.os@, platform.arch@),
            ),
            strs_view(relative@),
        ),
{
    let slug = runtime_platform_slug(platform.os.as_str(), platform.arch.as_str());
    let bundled = bundled_root.join("runtime").join(slug);
    let dev = repo_root.join("frontend").join("src-tauri").join("resources").join("runtime").join(slug);
    let mut r: Vec<LibPath> = Vec::new();
    r.push(join_all(&bundled, relative));
    r.push(join_all(&dev, relative));
    r
}

/// A runtime resource: the bundled one where it exists, else the one of the
/// development checkout where that exists (see `runtime_resource_candidates`).
pub fn resolve_runtime_resource_file(
    bundled_root: &LibPath,
    repo_root: &LibPath,
    platform: &HostPlatform,
    relative: &[&str],
    bundled_exists: bool,
    dev_exists: bool,
) -> (r: Option<LibPath>)
    ensures
        ({
            let c0 = joined_all(
                joined(joined(bundled_root@, "runtime"@), platform_slug(platform.os@, platform.arch@)),
                strs_view(relative@),
            );
            let c1 = joined_all(
                joined(
                    joined(joined(joined(joined(repo_root@, "frontend"@), "src-tauri"@), "resources"@), "runtime"@),
                    platform_slug(platform.os@, platform.arch@),
                ),
                strs_view(relative@),
            );
            &&& bundled_exists ==> (r matches Some(p) && p@ == c0)
            &&& !bundled_exists && dev_exists ==> (r matches Some(p) && p@ == c1)
            &&& !bundled_exists && !dev_exists ==> r is None
        }),
{
    let c = runtime_resource_candidates(bundled_root, repo_root, platform, relative);
    first_of_two(c, bundled_exists, dev_exists)
}

/// The parts of a relative resource path joined with `/`.
pub open spec fn slash_joined(parts: Seq<Seq<char>>) -> Seq<char>
    decreases parts.len(),
{
    if parts.len() == 0 {
        Seq::<char>::empty()
    } else if parts.len() == 1 {
        parts[0]
    } else {
        slash_joined(parts.drop_last()) + "/"@ + parts.last()
    }
}

fn slash_join(parts: &[&str]) -> (r: String)
    ensures
        r@ == slash_joined(strs_view(parts@)),
{
    let mut v: Vec<char> = Vec::new();
    let mut i: usize = 0;
    while i < parts.len()
        invariant
            i <= parts.len(),
            v@ == slash_joined(strs_view(parts@.take(i as int))),
        decreases parts.len() - i,
    {
        let ghost before = strs_view(parts@.take(i as int));
        if i > 0 {
            push_str(&mut v, "/");
        }
        push_str(&mut v, parts[i]);
        i += 1;
        proof {
            let now = strs_view(parts@.take(i as int));
            assert(now =~= before.push(parts@[i - 1]@));
            assert(now.drop_last() =~= before);
            if i == 1 {
                assert(v@ =~= now[0]);
            }
        }
    }
    assert(parts@.take(parts.len() as int) == parts@);
    string_of(v.as_slice())
}

/// A runtime file to be copied into the runtime cache.
#[derive(Debug)]
pub struct RuntimeFilePlan {
    pub source: LibPath,
    pub target: LibPath,
    pub mark_executable: bool,
}

/// Where a runtime file or directory goes in the cache (`platform_dir`, the
/// cache's directory for the host platform), and where it comes from; an
/// error names the missing resource by its relative path.
pub fn ensure_runtime_file(
    source: Option<LibPath>,
    relative: &[&str],
    platform_dir: &LibPath,
    cache_segments: &[&str],
    executable: bool,
) -> (r: Result<RuntimeFilePlan, String>)
    ensures
        source is None ==> (r matches Err(e) && e@ == "缺少运行资源: "@ + slash_joined(strs_view(relative@))),
        source matches Some(s) ==> (r matches Ok(plan) && plan.source@ == s@ && plan.target@ == joined_all(
            platform_dir@,
            strs_view(cache_segments@),
        ) && plan.mark_executable == executable),
{
    match source {
        None => {
            let mut v: Vec<char> = Vec::new();
            push_str(&mut v, "缺少运行资源: ");
            let rel = slash_join(relative);
            push_str(&mut v, rel.as_str());
            Err(string_of(v.as_slice()))
        },
        Some(s) => Ok(RuntimeFilePlan { source: s, target: join_all(platform_dir, cache_segments), mark_executable: executable }),
    }
}

/// Whether a runtime file is copied into the cache: when the cached copy is
/// missing (`lengths` is none) or its length differs from the source's
/// (`lengths` holds the cached copy's length, then the source's).
pub fn runtime_file_needs_copy(lengths: Option<(u64, u64)>) -> (r: bool)
    ensures
        r == match lengths {
            None => true,
            Some((t, s)) => t != s,
        },
{
    match lengths {
        None => true,
        Some((t, s)) => t != s,
    }
}

/// A runtime directory to be copied into the runtime cache, with the
/// executable inside it, if it has one.
#[derive(Debug)]
pub struct RuntimeDirPlan {
    pub source: LibPath,
    pub target: LibPath,
    pub executable: Option<LibPath>,
}

/// Where a runtime directory goes in the cache and where it comes from (see
/// `ensure_runtime_file`).
pub fn ensure_runtime_directory(
    source: Option<LibPath>,
    relative: &[&str],
    platform_dir: &LibPath,
    cache_segments: &[&str],
    executable_rel_path: Option<&str>,
) -> (r: Result<RuntimeDirPlan, String>)
    ensures
        source is None ==> (r matches Err(e) && e@ == "缺少运行目录资源: "@ + slash_joined(strs_view(relative@))),
        source matches Some(s) ==> (r matches Ok(plan) && plan.source@ == s@ && plan.target@ == joined_all(
            platform_dir@,
            strs_view(cache_segments@),
        ) && match executable_rel_path {
            Some(x) => (plan.executable matches Some(p) && p@ == joined(plan.target@, x@)),
            None => plan.executable is None,
        }),
{
    match source {
        None => {
            let mut v: Vec<char> = Vec::new();
            push_str(&mut v, "缺少运行目录资源: ");
            let rel = slash_join(relative);
            push_str(&mut v, rel.as_str());
            Err(string_of(v.as_slice()))
        },
        Some(s) => {
            let target = join_all(platform_dir, cache_segments);
            let executable = match executable_rel_path {
                Some(x) => Some(target.join(x)),
                None => None,
            };
            Ok(RuntimeDirPlan { source: s, target, executable })
        },
    }
}

/// What is done to a cached runtime directory: it is copied afresh when it
/// is missing or its executable is (`executable_exists` is none where it has
/// none), and an existing copy is removed first.
pub fn runtime_directory_action(target_exists: bool, executable_exists: Option<bool>) -> (r: (bool, bool))
    ensures
        r.0 == (!target_exists || executable_exists == Some(false)),
        r.1 == (r.0 && target_exists),
{
    let copy = !target_exists || match executable_exists {
        Some(e) => !e,
        None => false,
    };
    (copy, copy && target_exists)
}

} // verus!

verus! {

/// The first candidate whose Python interpreter has the worker's
/// dependencies installed (`ready`, in the candidates' order; a candidate
/// with no answer counts as not ready).
pub fn resolve_development_python_command(candidates: &Vec<String>, ready: &[bool]) -> (r: Option<String>)
    ensures
        match r {
            Some(p) => exists|i: int|
                0 <= i < candidates@.len() && i < ready@.len() && ready@[i] && #[trigger] candidates@[i]@ == p@
                    && forall|j: int| 0 <= j < i && j < ready@.len() ==> !ready@[j],
            None => forall|j: int| 0 <= j < candidates@.len() && j < ready@.len() ==> !ready@[j],
        },
{
    let mut i: usize = 0;
    while i < candidates.len() && i < ready.len()
        invariant
            i <= candidates.len(),
            forall|j: int| 0 <= j < i && j < ready@.len() ==> !ready@[j],
        decreases candidates.len() - i,
    {
        if ready[i] {
            let p = candidates[i].clone();
            assert(candidates@[i as int]@ == p@);
            return Some(p);
        }
        i += 1;
    }
    None
}

/// Why no model file could be found.
#[derive(Debug, Clone, Copy, PartialEq, Eq)]
pub enum ModelPathError {
    /// On Windows: the runtime package is missing or has no model.
    WindowsMissing,
    /// Elsewhere: neither bundled nor in a development checkout.
    Unresolved,
}

impl ModelPathError {
    /// The message shown to the user.
    pub fn message(&self) -> (r: String)
        ensures
            *self == ModelPathError::WindowsMissing ==> r@ == "Windows 算法包尚未导入或模型文件缺失 best.pt"@,
            *self == ModelPathError::Unresolved ==> r@ == "无法解析模型文件 best.pt"@,
    {
        match self {
            ModelPathError::WindowsMissing => owned("Windows 算法包尚未导入或模型文件缺失 best.pt"),
            ModelPathError::Unresolved => owned("无法解析模型文件 best.pt"),
        }
    }
}

/// The model of a development checkout.
pub fn development_model_path(repo_root: &LibPath) -> (r: LibPath)
    ensures
        r@ == joined(joined(joined(repo_root@, "ai-processor"@), "weights"@), "best.pt"@),
{
    repo_root.join("ai-processor").join("weights").join("best.pt")
}

/// The model of the active Windows runtime package.
pub fn windows_model_path(active_dir: &LibPath) -> (r: LibPath)
    ensures
        r@ == joined(joined(active_dir@, "models"@), "best.pt"@),
{
    active_dir.join("models").join("best.pt")
}

/// The model the worker loads: a debug build prefers the development
/// checkout's model where it exists; on Windows it is the active runtime
/// package's; elsewhere the bundled model or the checkout's (`resolved`, from
/// `resolve_resource_file`).
pub fn resolve_model_path(
    platform: &HostPlatform,
    repo_root: &LibPath,
    active_dir: &LibPath,
    dev_model_exists: bool,
    windows_model_exists: bool,
    resolved: Option<LibPath>,
) -> (r: Result<LibPath, ModelPathError>)
    ensures
        platform.debug_build && dev_model_exists ==> (r matches Ok(p) && p@ == joined(
            joined(joined(repo_root@, "ai-processor"@), "weights"@),
            "best.pt"@,
        )),
        !(platform.debug_build && dev_model_exists) && is_windows_spec(platform) ==> (if windows_model_exists {
            r matches Ok(p) && p@ == joined(joined(active_dir@, "models"@), "best.pt"@)
        } else {
            r == Err::<LibPath, ModelPathError>(ModelPathError::WindowsMissing)
        }),
        !(platform.debug_build && dev_model_exists) && !is_windows_spec(platform) ==> match resolved {
            Some(p) => (r matches Ok(q) && q@ == p@),
            None => r == Err::<LibPath, ModelPathError>(ModelPathError::Unresolved),
        },
{
    if platform.debug_build && dev_model_exists {
        return Ok(development_model_path(repo_root));
    }
    if platform.is_windows() {
        if windows_model_exists {
            return Ok(windows_model_path(active_dir));
        }
        return Err(ModelPathError::WindowsMissing);
    }
    match resolved {
        Some(p) => Ok(p),
        None => Err(ModelPathError::Unresolved),
    }
}

/// How the analysis worker is started.
#[derive(Debug)]
pub enum WorkerLaunch {
    /// The packaged worker executable.
    Packaged { executable: LibPath },
    /// The worker's Python script, run by `python` with `python_path` on the
    /// module path.
    PythonScript { python: String, script: LibPath, python_path: LibPath },
}

/// The Python source worker of a development checkout, where its script
/// exists and a Python with the worker's dependencies was found.
pub fn resolve_source_worker_launch(repo_root: &LibPath, script_exists: bool, python: Option<String>) -> (r: Option<WorkerLaunch>)
    ensures
        script_exists && python is Some ==> (r matches Some(WorkerLaunch::PythonScript { python: p, script, python_path })
            && p@ == python->0@
            && script@ == joined(joined(repo_root@, "ai-processor"@), "desktop_worker.py"@)
            && python_path@ == joined(repo_root@, "ai-processor"@)),
        !(script_exists && python is Some) ==> r is None,
{
    if !script_exists {
        return None;
    }
    match python {
        Some(p) => {
            let ai = repo_root.join("ai-processor");
            let script = ai.join("desktop_worker.py");
            Some(WorkerLaunch::PythonScript { python: p, script, python_path: ai })
        },
        None => None,
    }
}

/// Why the worker cannot be started.
#[derive(Debug, Clone)]
pub enum WorkerLaunchError {
    /// On Windows: the runtime package is missing or has no worker.
    WindowsMissing,
    /// The packaged worker could not be copied into the cache; why.
    Cache(String),
    /// No worker was found at all.
    Unresolved,
}

impl WorkerLaunchError {
    /// The message shown to the user.
    pub fn message(&self) -> (r: String)
        ensures
            self is WindowsMissing ==> r@ == "Windows 算法包尚未导入或 desktop_worker.exe 缺失"@,
            self matches WorkerLaunchError::Cache(e) ==> r@ == e@,
            self is Unresolved ==> r@ == "无法解析桌面 worker 可执行文件"@,
    {
        match self {
            WorkerLaunchError::WindowsMissing => owned("Windows 算法包尚未导入或 desktop_worker.exe 缺失"),
            WorkerLaunchError::Cache(e) => e.clone(),
            WorkerLaunchError::Unresolved => owned("无法解析桌面 worker 可执行文件"),
        }
    }
}

/// The packaged worker of the active Windows runtime package.
pub fn windows_worker_path(active_dir: &LibPath) -> (r: LibPath)
    ensures
        r@ == joined(joined(joined(active_dir@, "worker"@), "desktop_worker"@), "desktop_worker.exe"@),
{
    active_dir.join("worker").join("desktop_worker").join("desktop_worker.exe")
}

/// How the worker is started: a debug build prefers the Python source
/// worker (`source_launch`); on Windows it is the active runtime package's
/// executable; elsewhere the packaged worker copied into the cache
/// (`packaged_dir`: the cached directory, or why it could not be made; none
/// where the package has no worker), else the source worker.
pub fn resolve_worker_launch(
    platform: &HostPlatform,
    source_launch: Option<WorkerLaunch>,
    active_dir: &LibPath,
    windows_worker_exists: bool,
    packaged_dir: Option<Result<LibPath, String>>,
) -> (r: Result<WorkerLaunch, WorkerLaunchError>)
    ensures
        platform.debug_build && source_launch is Some ==> r == Ok::<WorkerLaunch, WorkerLaunchError>(source_launch->0),
        !(platform.debug_build && source_launch is Some) && is_windows_spec(platform) ==> (if windows_worker_exists {
            r matches Ok(WorkerLaunch::Packaged { executable }) && executable@ == joined(
                joined(joined(active_dir@, "worker"@), "desktop_worker"@),
                "desktop_worker.exe"@,
            )
        } else {
            r matches Err(WorkerLaunchError::WindowsMissing)
        }),
        !(platform.debug_build && source_launch is Some) && !is_windows_spec(platform) ==> match packaged_dir {
            Some(Ok(dir)) => (r matches Ok(WorkerLaunch::Packaged { executable }) && executable@ == joined(
                dir@,
                "desktop_worker"@,
            )),
            Some(Err(e)) => (r matches Err(WorkerLaunchError::Cache(m)) && m@ == e@),
            None => match source_launch {
                Some(l) => r == Ok::<WorkerLaunch, WorkerLaunchError>(l),
                None => r matches Err(WorkerLaunchError::Unresolved),
            },
        },
{
    if platform.debug_build && source_launch.is_some() {
        return Ok(source_launch.unwrap());
    }
    if platform.is_windows() {
        if windows_worker_exists {
            return Ok(WorkerLaunch::Packaged { executable: windows_worker_path(active_dir) });
        }
        return Err(WorkerLaunchError::WindowsMissing);
    }
    match packaged_dir {
        Some(Ok(dir)) => Ok(WorkerLaunch::Packaged { executable: dir.join("desktop_worker") }),
        Some(Err(e)) => Err(WorkerLaunchError::Cache(e)),
        None => match source_launch {
            Some(l) => Ok(l),
            None => Err(WorkerLaunchError::Unresolved),
        },
    }
}

/// Where a bundled tool is looked for on Windows: the active runtime
/// package's `tools` directory.
pub fn windows_tool_path(active_dir: &LibPath, name: &str) -> (r: LibPath)
    ensures
        r@ == joined(joined(active_dir@, "tools"@), name@ + ".exe"@),
{
    let binary = bundled_binary_name(true, name);
    active_dir.join("tools").join(binary.as_str())
}

/// The tool `name` (ffmpeg or ffprobe): on Windows the active runtime
/// package's copy where it exists; elsewhere the copy in the runtime cache
/// (`cached`, where it could be made); otherwise the bare program name, left
/// to the system's search path.
pub open spec fn tool_path_spec(
    windows: bool,
    active_dir: (Seq<char>, Seq<Seq<char>>),
    name: Seq<char>,
    windows_tool_exists: bool,
    cached: Option<(Seq<char>, Seq<Seq<char>>)>,
) -> (Seq<char>, Seq<Seq<char>>) {
    if windows {
        if windows_tool_exists {
            joined(joined(active_dir, "tools"@), name + ".exe"@)
        } else {
            (name + ".exe"@, Seq::<Seq<char>>::empty())
        }
    } else {
        match cached {
            Some(p) => p,
            None => (name, Seq::<Seq<char>>::empty()),
        }
    }
}

/// The bundled tool `name` to run (see `tool_path_spec`).
pub fn resolve_tool_path(
    platform: &HostPlatform,
    active_dir: &LibPath,
    name: &str,
    windows_tool_exists: bool,
    cached: Option<LibPath>,
) -> (r: LibPath)
    ensures
        r@ == tool_path_spec(
            is_windows_spec(platform),
            active_dir@,
            name@,
            windows_tool_exists,
            match cached {
                Some(p) => Some(p@),
                None => None,
            },
        ),
{
    if platform.is_windows() {
        if windows_tool_exists {
            return windows_tool_path(active_dir, name);
        }
        let binary = bundled_binary_name(true, name);
        return LibPath::new(binary.as_str());
    }
    match cached {
        Some(p) => p,
        None => LibPath::new(name),
    }
}

/// The ffmpeg to run (see `tool_path_spec`).
pub fn resolve_ffmpeg_path(platform: &HostPlatform, active_dir: &LibPath, windows_tool_exists: bool, cached: Option<LibPath>) -> (r: LibPath)
    ensures
        r@ == tool_path_spec(
            is_windows_spec(platform),
            active_dir@,
            "ffmpeg"@,
            windows_tool_exists,
            match cached {
                Some(p) => Some(p@),
                None => None,
            },
        ),
{
    resolve_tool_path(platform, active_dir, "ffmpeg", windows_tool_exists, cached)
}

/// The ffprobe to run (see `tool_path_spec`).
pub fn resolve_ffprobe_path(platform: &HostPlatform, active_dir: &LibPath, windows_tool_exists: bool, cached: Option<LibPath>) -> (r: LibPath)
    ensures
        r@ == tool_path_spec(
            is_windows_spec(platform),
            active_dir@,
            "ffprobe"@,
            windows_tool_exists,
            match cached {
                Some(p) => Some(p@),
                None => None,
            },
        ),
{
    resolve_tool_path(platform, active_dir, "ffprobe", windows_tool_exists, cached)
}

} // verus!

verus! {

/// The view of each path of a list.
pub open spec fn paths_view(v: Seq<LibPath>) -> Seq<(Seq<char>, Seq<Seq<char>>)> {
    v.map_values(|p: LibPath| p@)
}

fn push_path(v: &mut Vec<LibPath>, p: LibPath)
    ensures
        paths_view(final(v)@) == paths_view(old(v)@).push(p@),
{
    let ghost before = v@;
    v.push(p);
    assert(paths_view(v@) =~= paths_view(before).push(p@));
}

/// The directory `dir` as a path with no segments.
pub open spec fn dir_path(dir: Seq<char>) -> (Seq<char>, Seq<Seq<char>>) {
    path_of(dir, Seq::<Seq<char>>::empty())
}

/// A conda installation's interpreter for the worker's environment
/// (`root/envs/<env>/python.exe`), then its base interpreter
/// (`root/python.exe`).
pub open spec fn conda_pair(root: (Seq<char>, Seq<Seq<char>>), env: Seq<char>) -> Seq<(Seq<char>, Seq<Seq<char>>)> {
    seq![joined(joined(joined(root, "envs"@), env), "python.exe"@), joined(root, "python.exe"@)]
}

/// The Windows interpreters worth trying for a development checkout, in
/// order: the active conda environment (`CONDA_PREFIX`); the worker's
/// environment and the base interpreter of the conda installation that
/// `CONDA_EXE` belongs to (`conda_root`); the same under the user's
/// `.conda`, `anaconda3` and `miniconda3`; and the per-user CPython
/// installs 3.12, 3.11, 3.10 and 3.13. The worker's environment is named by
/// `TAURI_WORKER_CONDA_ENV`, `var-env` where that is unset.
pub open spec fn windows_python_candidates_spec(
    conda_env: Option<Seq<char>>,
    conda_prefix: Option<Seq<char>>,
    conda_root: Option<(Seq<char>, Seq<Seq<char>>)>,
    user_profile: Option<Seq<char>>,
    local_app_data: Option<Seq<char>>,
) -> Seq<(Seq<char>, Seq<Seq<char>>)> {
    let env = match conda_env {
        Some(e) => e,
        None => "var-env"@,
    };
    let from_prefix = match conda_prefix {
        Some(p) => seq![joined(dir_path(p), "python.exe"@)],
        None => Seq::empty(),
    };
    let from_conda_exe = match conda_root {
        Some(root) => conda_pair(root, env),
        None => Seq::empty(),
    };
    let from_profile = match user_profile {
        Some(u) => conda_pair(joined(dir_path(u), ".conda"@), env)
            + conda_pair(joined(dir_path(u), "anaconda3"@), env)
            + conda_pair(joined(dir_path(u), "miniconda3"@), env),
        None => Seq::empty(),
    };
    let from_local = match local_app_data {
        Some(l) => {
            let py = joined(joined(dir_path(l), "Programs"@), "Python"@);
            seq![
                joined(joined(py, "Python312"@), "python.exe"@),
                joined(joined(py, "Python311"@), "python.exe"@),
                joined(joined(py, "Python310"@), "python.exe"@),
                joined(joined(py, "Python313"@), "python.exe"@),
            ]
        },
        None => Seq::empty(),
    };
    from_prefix + from_conda_exe + from_profile + from_local
}

/// The view of an optional string.
pub open spec fn opt_str_view(o: Option<String>) -> Option<Seq<char>> {
    match o {
        Some(s) => Some(s@),
        None => None,
    }
}

/// The view of an optional path.
pub open spec fn opt_path_view(o: Option<LibPath>) -> Option<(Seq<char>, Seq<Seq<char>>)> {
    match o {
        Some(p) => Some(p@),
        None => None,
    }
}

fn push_conda_pair(v: &mut Vec<LibPath>, root: &LibPath, env: &str)
    ensures
        paths_view(final(v)@) == paths_view(old(v)@) + conda_pair(root@, env@),
{
    let ghost before = paths_view(v@);
    push_path(v, root.join("envs").join(env).join("python.exe"));
    push_path(v, root.join("python.exe"));
    assert(paths_view(v@) =~= before + conda_pair(root@, env@));
}

/// The candidates of `windows_python_candidates_spec`, from the values of
/// the environment variables (`conda_root` is the directory two levels above
/// `CONDA_EXE`).
pub fn windows_python_candidates(
    conda_env: Option<String>,
    conda_prefix: Option<String>,
    conda_root: Option<LibPath>,
    user_profile: Option<String>,
    local_app_data: Option<String>,
) -> (r: Vec<LibPath>)
    ensures
        paths_view(r@) == windows_python_candidates_spec(
            opt_str_view(conda_env),
            opt_str_view(conda_prefix),
            opt_path_view(conda_root),
            opt_str_view(user_profile),
            opt_str_view(local_app_data),
        ),
{
    let ghost env_v = opt_str_view(conda_env);
    let ghost prefix_v = opt_str_view(conda_prefix);
    let ghost root_v = opt_path_view(conda_root);
    let ghost profile_v = opt_str_view(user_profile);
    let ghost local_v = opt_str_view(local_app_data);
    let env = match conda_env {
        Some(e) => e,
        None => owned("var-env"),
    };
    let mut v: Vec<LibPath> = Vec::new();
    assert(paths_view(v@) =~= Seq::<(Seq<char>, Seq<Seq<char>>)>::empty());
    let ghost v0 = paths_view(v@);
    if let Some(p) = conda_prefix {
        push_path(&mut v, LibPath::new(p.as_str()).join("python.exe"));
    }
    let ghost v1 = paths_view(v@);
    if let Some(root) = conda_root {
        push_conda_pair(&mut v, &root, env.as_str());
    }
    let ghost v2 = paths_view(v@);
    if let Some(u) = user_profile {
        let user_root = LibPath::new(u.as_str());
        push_conda_pair(&mut v, &user_root.join(".conda"), env.as_str());
        push_conda_pair(&mut v, &user_root.join("anaconda3"), env.as_str());
        push_conda_pair(&mut v, &user_root.join("miniconda3"), env.as_str());
    }
    let ghost v3 = paths_view(v@);
    if let Some(l) = local_app_data {
        let python_root = LibPath::new(l.as_str()).join("Programs").join("Python");
        push_path(&mut v, python_root.join("Python312").join("python.exe"));
        push_path(&mut v, python_root.join("Python311").join("python.exe"));
        push_path(&mut v, python_root.join("Python310").join("python.exe"));
        push_path(&mut v, python_root.join("Python313").join("python.exe"));
    }
    proof {
        let spec = windows_python_candidates_spec(env_v, prefix_v, root_v, profile_v, local_v);
        assert(paths_view(v@) =~= spec);
    }
    v
}


/// The interpreter of the worker's virtual environment in a checkout's
/// `frontend` directory.
pub fn local_venv_python(frontend_dir: &LibPath, windows: bool) -> (r: LibPath)
    ensures
        windows ==> r@ == joined(joined(joined(frontend_dir@, ".desktop-worker-venv"@), "Scripts"@), "python.exe"@),
        !windows ==> r@ == joined(joined(joined(frontend_dir@, ".desktop-worker-venv"@), "bin"@), "python"@),
{
    if windows {
        frontend_dir.join(".desktop-worker-venv").join("Scripts").join("python.exe")
    } else {
        frontend_dir.join(".desktop-worker-venv").join("bin").join("python")
    }
}

/// The interpreters a development checkout tries for the worker, in order:
/// the one `TAURI_WORKER_PYTHON` names, unless it is blank; the checkout's
/// virtual environment where it exists (`local_venv`); then on Windows the
/// candidates of `windows_python_candidates_spec` that exist
/// (`windows_found`) and `python`, elsewhere `python3` and `python`.
pub open spec fn development_python_candidates_spec(
    windows: bool,
    env_python: Option<Seq<char>>,
    local_venv: Option<Seq<char>>,
    windows_found: Seq<Seq<char>>,
) -> Seq<Seq<char>> {
    let from_env = match env_python {
        Some(p) => if trim(p).len() > 0 { seq![p] } else { Seq::empty() },
        None => Seq::empty(),
    };
    let from_venv = match local_venv {
        Some(v) => seq![v],
        None => Seq::empty(),
    };
    let rest = if windows {
        windows_found.push("python"@)
    } else {
        seq!["python3"@, "python"@]
    };
    from_env + from_venv + rest
}

fn push_string(v: &mut Vec<String>, s: String)
    ensures
        string_views(final(v)@) == string_views(old(v)@).push(s@),
{
    let ghost before = v@;
    v.push(s);
    assert(string_views(v@) =~= string_views(before).push(s@));
}

/// The candidates of `development_python_candidates_spec`.
pub fn development_python_candidates(
    windows: bool,
    env_python: Option<String>,
    local_venv: Option<String>,
    windows_found: Vec<String>,
) -> (r: Vec<String>)
    ensures
        string_views(r@) == development_python_candidates_spec(
            windows,
            opt_str_view(env_python),
            opt_str_view(local_venv),
            string_views(windows_found@),
        ),
{
    let ghost env_v = opt_str_view(env_python);
    let ghost venv_v = opt_str_view(local_venv);
    let ghost found_v = string_views(windows_found@);
    let mut v: Vec<String> = Vec::new();
    assert(string_views(v@) =~= Seq::<Seq<char>>::empty());
    if let Some(p) = env_python {
        let chars = chars_of(p.as_str());
        let t = trim_chars(chars.as_slice());
        if t.len() > 0 {
            push_string(&mut v, p);
        }
    }
    if let Some(venv) = local_venv {
        push_string(&mut v, venv);
    }
    let ghost head = string_views(v@);
    if windows {
        let mut i: usize = 0;
        while i < windows_found.len()
            invariant
                i <= windows_found.len(),
                found_v == string_views(windows_found@),
                string_views(v@) == head + found_v.take(i as int),
            decreases windows_found.len() - i,
        {
            push_string(&mut v, windows_found[i].clone());
            i += 1;
            assert(found_v.take(i as int) =~= found_v.take(i - 1).push(found_v[i - 1]));
        }
        assert(found_v.take(windows_found.len() as int) =~= found_v);
        push_string(&mut v, owned("python"));
    } else {
        push_string(&mut v, owned("python3"));
        push_string(&mut v, owned("python"));
    }
    proof {
        assert(string_views(v@) =~= development_python_candidates_spec(windows, env_v, venv_v, found_v));
    }
    v
}

} // verus!
