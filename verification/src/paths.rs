//! Paths as the library builds them: a base directory that the desktop shell
//! supplies, followed by the segments that the library joins onto it, and the
//! directory layout of the application's own data.

use vstd::prelude::*;
use crate::text::{owned, str_eq};

verus! {

/// A path: `base` joined with each of `segments` in turn, as `Path::join`
/// does. The shell turns it into a `PathBuf`.
#[derive(Debug)]
pub struct LibPath {
    pub base: String,
    pub segments: Vec<String>,
}

pub open spec fn seg_views(v: Seq<String>) -> Seq<Seq<char>> {
    v.map_values(|s: String| s@)
}

impl View for LibPath {
    type V = (Seq<char>, Seq<Seq<char>>);

    open spec fn view(&self) -> (Seq<char>, Seq<Seq<char>>) {
        (self.base@, seg_views(self.segments@))
    }
}

/// `base` joined with the segments `segs`.
pub open spec fn path_of(base: Seq<char>, segs: Seq<Seq<char>>) -> (Seq<char>, Seq<Seq<char>>) {
    (base, segs)
}

/// `p` joined with `seg`.
pub open spec fn joined(p: (Seq<char>, Seq<Seq<char>>), seg: Seq<char>) -> (Seq<char>, Seq<Seq<char>>) {
    (p.0, p.1.push(seg))
}

impl LibPath {
    /// The directory `base` itself.
    pub fn new(base: &str) -> (r: LibPath)
        ensures
            r@ == path_of(base@, Seq::<Seq<char>>::empty()),
    {
        let r = LibPath { base: owned(base), segments: Vec::new() };
        assert(seg_views(r.segments@) =~= Seq::<Seq<char>>::empty());
        r
    }

    /// A copy of this path.
    pub fn duplicate(&self) -> (r: LibPath)
        ensures
            r@ == self@,
    {
        let mut segments: Vec<String> = Vec::new();
        let mut i: usize = 0;
        while i < self.segments.len()
            invariant
                i <= self.segments.len(),
                segments.len() == i,
                forall|j: int| 0 <= j < i ==> #[trigger] segments@[j]@ == self.segments@[j]@,
            decreases self.segments.len() - i,
        {
            let s = self.segments[i].clone();
            segments.push(s);
            i += 1;
        }
        assert(seg_views(segments@) =~= seg_views(self.segments@));
        LibPath { base: self.base.clone(), segments }
    }

    /// `Path::join(seg)`.
    pub fn join(&self, seg: &str) -> (r: LibPath)
        ensures
            r@ == joined(self@, seg@),
    {
        let mut r = self.duplicate();
        r.segments.push(owned(seg));
        assert(seg_views(r.segments@) =~= seg_views(self.segments@).push(seg@));
        r
    }
}

/// The platform the application runs on, as `std::env::consts` names it, and
/// whether this is a debug build.
#[derive(Debug, Clone)]
pub struct HostPlatform {
    pub os: String,
    pub arch: String,
    pub debug_build: bool,
}

pub open spec fn is_windows_spec(p: &HostPlatform) -> bool {
    p.os@ == "windows"@
}

impl HostPlatform {
    pub fn is_windows(&self) -> (r: bool)
        ensures
            r == is_windows_spec(self),
    {
        str_eq(self.os.as_str(), "windows")
    }
}

/// The directories and files of the application's own data.
#[derive(Debug)]
pub struct ControlPaths {
    pub app_config_dir: LibPath,
    pub app_local_data_dir: LibPath,
    pub settings_path: LibPath,
    pub db_path: LibPath,
    pub db_backup_dir: LibPath,
    pub log_dir: LibPath,
    pub runtime_cache_dir: LibPath,
    pub resource_dir: LibPath,
}

/// Where the application keeps its data, under the directories that the
/// desktop shell reports: settings in the configuration directory; the
/// database, its backups, the logs and the runtime cache in the local data
/// directory. Outside Windows the runtime cache is keyed by the application
/// version and the build.
pub fn build_control_paths(
    app_config_dir: &str,
    app_local_data_dir: &str,
    resource_dir: &str,
    platform: &HostPlatform,
    app_version: &str,
    runtime_build_id: &str,
) -> (r: ControlPaths)
    ensures
        r.app_config_dir@ == path_of(app_config_dir@, seq![]),
        r.app_local_data_dir@ == path_of(app_local_data_dir@, seq![]),
        r.resource_dir@ == path_of(resource_dir@, seq![]),
        r.settings_path@ == path_of(app_config_dir@, seq!["settings.json"@]),
        r.db_path@ == path_of(app_local_data_dir@, seq!["db"@, "app.sqlite3"@]),
        r.db_backup_dir@ == path_of(app_local_data_dir@, seq!["backups"@, "db"@]),
        r.log_dir@ == path_of(app_local_data_dir@, seq!["logs"@]),
        is_windows_spec(platform) ==> r.runtime_cache_dir@ == path_of(app_local_data_dir@, seq!["runtime"@]),
        !is_windows_spec(platform) ==> r.runtime_cache_dir@ == path_of(
            app_local_data_dir@,
            seq!["runtime"@, app_version@, runtime_build_id@],
        ),
{
    let config = LibPath::new(app_config_dir);
    let local = LibPath::new(app_local_data_dir);
    let settings_path = config.join("settings.json");
    let db_path = local.join("db").join("app.sqlite3");
    let db_backup_dir = local.join("backups").join("db");
    let log_dir = local.join("logs");
    let runtime_cache_dir = if platform.is_windows() {
        local.join("runtime")
    } else {
        local.join("runtime").join(app_version).join(runtime_build_id)
    };
    proof {
        assert(seq![].push("settings.json"@) =~= seq!["settings.json"@]);
        assert(seq![].push("db"@).push("app.sqlite3"@) =~= seq!["db"@, "app.sqlite3"@]);
        assert(seq![].push("backups"@).push("db"@) =~= seq!["backups"@, "db"@]);
        assert(seq![].push("logs"@) =~= seq!["logs"@]);
        assert(seq![].push("runtime"@) =~= seq!["runtime"@]);
        assert(seq![].push("runtime"@).push(app_version@).push(runtime_build_id@) =~= seq![
            "runtime"@,
            app_version@,
            runtime_build_id@,
        ]);
    }
    ControlPaths {
        app_config_dir: config,
        app_local_data_dir: local,
        settings_path,
        db_path,
        db_backup_dir,
        log_dir,
        runtime_cache_dir,
        resource_dir: LibPath::new(resource_dir),
    }
}

/// The directories that must exist before the application starts, in the
/// order in which they are created: the configuration and data directories,
/// the database directory and its backups, the logs with their backend and
/// worker parts, and the runtime cache.
pub fn ensure_control_dirs(paths: &ControlPaths) -> (r: Vec<LibPath>)
    requires
        paths.db_path.segments@.len() > 0,
    ensures
        r@.len() == 8,
        r@[0]@ == paths.app_config_dir@,
        r@[1]@ == paths.app_local_data_dir@,
        r@[2]@ == (paths.db_path@.0, paths.db_path@.1.drop_last()),
        r@[3]@ == paths.db_backup_dir@,
        r@[4]@ == paths.log_dir@,
        r@[5]@ == joined(paths.log_dir@, "backend"@),
        r@[6]@ == joined(paths.log_dir@, "worker"@),
        r@[7]@ == paths.runtime_cache_dir@,
{
    let mut db_dir = paths.db_path.duplicate();
    db_dir.segments.pop();
    assert(seg_views(db_dir.segments@) =~= paths.db_path@.1.drop_last());
    let mut r: Vec<LibPath> = Vec::new();
    r.push(paths.app_config_dir.duplicate());
    r.push(paths.app_local_data_dir.duplicate());
    r.push(db_dir);
    r.push(paths.db_backup_dir.duplicate());
    r.push(paths.log_dir.duplicate());
    r.push(paths.log_dir.join("backend"));
    r.push(paths.log_dir.join("worker"));
    r.push(paths.runtime_cache_dir.duplicate());
    r
}

} // verus!
