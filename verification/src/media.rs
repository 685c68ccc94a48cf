//! The media library: where it lives, how it is recognised, and where each
//! task keeps its files.

use vstd::prelude::*;
use crate::paths::{joined, path_of, LibPath};
use crate::text::{decimal_int, i64_to_string, owned, push_decimal, push_str, str_eq, string_of, concat2};
use crate::trusted::{path_eq, same_path};

verus! {

/// The marker file that identifies a media library.
pub const LIBRARY_MARKER_FILENAME: &'static str = "library.json";

/// The identifier that a library's marker must hold.
pub const LIBRARY_IDENTIFIER: &'static str = "cn.edu.ustb.hyy.var-desktop";

/// The marker file of the library at `root`.
pub fn library_marker_path(root: &LibPath) -> (r: LibPath)
    ensures
        r@ == joined(root@, "library.json"@),
{
    root.join("library.json")
}

/// The directory of task `task_id`: `tasks/<id>` under the library.
pub fn task_root(media_root: &LibPath, task_id: i64) -> (r: LibPath)
    ensures
        r@ == joined(joined(media_root@, "tasks"@), decimal_int(task_id as int)),
{
    let id = i64_to_string(task_id);
    media_root.join("tasks").join(id.as_str())
}

/// The directories that every task needs: its input, its scratch space and
/// its output.
pub fn ensure_task_dirs(task_dir: &LibPath) -> (r: Vec<LibPath>)
    ensures
        r@.len() == 3,
        r@[0]@ == joined(task_dir@, "input"@),
        r@[1]@ == joined(joined(task_dir@, "work"@), "tmp"@),
        r@[2]@ == joined(task_dir@, "output"@),
{
    let mut r: Vec<LibPath> = Vec::new();
    r.push(task_dir.join("input"));
    r.push(task_dir.join("work").join("tmp"));
    r.push(task_dir.join("output"));
    r
}

/// The per-task log directory of earlier versions, which is removed when it
/// is empty.
pub fn remove_empty_legacy_task_log_dir(task_dir: &LibPath) -> (r: LibPath)
    ensures
        r@ == joined(task_dir@, "logs"@),
{
    task_dir.join("logs")
}

/// Where a new media library is proposed: in the user's Movies folder on
/// macOS; on Windows on the first of the drives D to G that exists, else on C;
/// elsewhere in the home directory (`.` when there is none).
/// `drive_exists[i]` tells whether drive `D + i` exists.
pub fn recommended_media_library_path(os: &str, home: Option<&str>, drive_exists: &[bool]) -> (r: LibPath)
    requires
        drive_exists@.len() == 4,
    ensures
        os@ == "macos"@ ==> r@ == path_of(
            match home { Some(h) => h@, None => "."@ },
            seq!["Movies"@, "VAR Desktop Library"@],
        ),
        os@ == "windows"@ ==> (
            if exists|i: int| 0 <= i < 4 && drive_exists@[i] {
                let i = choose|i: int| 0 <= i < 4 && drive_exists@[i] && forall|j: int| 0 <= j < i ==> !drive_exists@[j];
                r@ == path_of(seq![(('D' as int) + i) as char, ':', '\\'], seq!["VARDesktopData"@])
            } else {
                r@ == path_of("C:\\VARDesktopData"@, seq![])
            }),
        os@ != "macos"@ && os@ != "windows"@ ==> r@ == path_of(
            match home { Some(h) => h@, None => "."@ },
            seq!["VARDesktopData"@],
        ),
{
    proof {
        reveal_strlit("macos");
        reveal_strlit("windows");
        assert("macos"@.len() != "windows"@.len());
    }
    if str_eq(os, "macos") {
        let base = match home {
            Some(h) => LibPath::new(h),
            None => LibPath::new("."),
        };
        let r = base.join("Movies").join("VAR Desktop Library");
        assert(r@.1 =~= seq!["Movies"@, "VAR Desktop Library"@]);
        r
    } else if str_eq(os, "windows") {
        let mut i: usize = 0;
        while i < 4
            invariant
                drive_exists@.len() == 4,
                os@ == "windows"@,
                os@ != "macos"@,
                i <= 4,
                forall|j: int| 0 <= j < i ==> !drive_exists@[j],
            decreases 4 - i,
        {
            if drive_exists[i] {
                let mut root: Vec<char> = Vec::new();
                root.push((68u8 + i as u8) as char);
                root.push(':');
                root.push('\\');
                let r = LibPath::new(string_of(root.as_slice()).as_str()).join("VARDesktopData");
                proof {
                    let k = choose|k: int| 0 <= k < 4 && drive_exists@[k] && forall|j: int| 0 <= j < k ==> !drive_exists@[j];
                    assert(k == i as int) by {
                        if k < i {
                        } else if k > i {
                            assert(!drive_exists@[i as int]);
                        }
                    }
                    assert(root@ =~= seq![(('D' as int) + i) as char, ':', '\\']);
                    assert(r@.1 =~= seq!["VARDesktopData"@]);
                }
                return r;
            }
            i += 1;
        }
        LibPath::new("C:\\VARDesktopData")
    } else {
        let base = match home {
            Some(h) => LibPath::new(h),
            None => LibPath::new("."),
        };
        let r = base.join("VARDesktopData");
        assert(r@.1 =~= seq!["VARDesktopData"@]);
        r
    }
}

/// What was found of a library's marker file.
#[derive(Debug, Clone)]
pub enum LibraryMarker {
    /// There is no marker file.
    Missing,
    /// The marker could not be read or is not JSON; the reason.
    Unreadable(String),
    /// The marker's `identifier` field, when it is a string.
    Parsed(Option<String>),
}

/// Why a directory is not a media library.
#[derive(Debug, Clone)]
pub enum LibraryError {
    NotInitialized,
    MissingMarker,
    Unreadable(String),
    MissingIdentifier,
    IdentifierMismatch,
}

impl LibraryError {
    /// The message shown to the user.
    pub fn message(&self) -> (r: String)
        ensures
            self matches LibraryError::NotInitialized ==> r@ == "媒体库尚未初始化"@,
            self matches LibraryError::MissingMarker ==> r@ == "媒体库缺少 library.json"@,
            self matches LibraryError::Unreadable(e) ==> r@ == e@,
            self matches LibraryError::MissingIdentifier ==> r@ == "媒体库标记缺少 identifier"@,
            self matches LibraryError::IdentifierMismatch ==> r@ == "媒体库 identifier 不匹配"@,
    {
        match self {
            LibraryError::NotInitialized => owned("媒体库尚未初始化"),
            LibraryError::MissingMarker => owned("媒体库缺少 library.json"),
            LibraryError::Unreadable(e) => e.clone(),
            LibraryError::MissingIdentifier => owned("媒体库标记缺少 identifier"),
            LibraryError::IdentifierMismatch => owned("媒体库 identifier 不匹配"),
        }
    }
}

/// Whether the marker identifies a library of this application: it must
/// exist, be JSON, and hold the application's identifier.
pub fn validate_library_root(marker: &LibraryMarker) -> (r: Result<(), LibraryError>)
    ensures
        marker matches LibraryMarker::Missing ==> r matches Err(LibraryError::MissingMarker),
        marker matches LibraryMarker::Unreadable(e) ==> (r matches Err(LibraryError::Unreadable(x)) && x@ == e@),
        marker matches LibraryMarker::Parsed(None) ==> r matches Err(LibraryError::MissingIdentifier),
        marker matches LibraryMarker::Parsed(Some(id)) ==> (
            if id@ == "cn.edu.ustb.hyy.var-desktop"@ { r is Ok } else { r matches Err(LibraryError::IdentifierMismatch) }),
{
    match marker {
        LibraryMarker::Missing => Err(LibraryError::MissingMarker),
        LibraryMarker::Unreadable(e) => Err(LibraryError::Unreadable(e.clone())),
        LibraryMarker::Parsed(None) => Err(LibraryError::MissingIdentifier),
        LibraryMarker::Parsed(Some(id)) => {
            if str_eq(id.as_str(), LIBRARY_IDENTIFIER) {
                Ok(())
            } else {
                Err(LibraryError::IdentifierMismatch)
            }
        },
    }
}

/// The media library's root from the settings.
pub fn current_media_root(media_library_path: &Option<String>) -> (r: Result<LibPath, LibraryError>)
    ensures
        media_library_path is None ==> r matches Err(LibraryError::NotInitialized),
        media_library_path matches Some(p) ==> (r matches Ok(root) && root@ == path_of(p@, seq![])),
{
    match media_library_path {
        Some(p) => Ok(LibPath::new(p.as_str())),
        None => Err(LibraryError::NotInitialized),
    }
}

/// Why a library cannot be moved to a directory.
#[derive(Debug, Clone)]
pub enum MigrationError {
    SameDirectory,
    TargetNotEmpty,
}

impl MigrationError {
    pub fn message(&self) -> (r: String)
        ensures
            self matches MigrationError::SameDirectory ==> r@ == "媒体库目标目录不能与当前目录相同"@,
            self matches MigrationError::TargetNotEmpty ==> r@ == "迁移目标目录必须为空目录或不存在"@,
    {
        match self {
            MigrationError::SameDirectory => owned("媒体库目标目录不能与当前目录相同"),
            MigrationError::TargetNotEmpty => owned("迁移目标目录必须为空目录或不存在"),
        }
    }
}

/// Whether the library may move from `current` to `target`: the two must
/// be different paths, and the target must not exist or be empty.
/// `target_has_entries` tells whether an existing target holds anything.
pub fn check_migration_target(current: &str, target: &str, target_exists: bool, target_has_entries: bool) -> (r: Result<(), MigrationError>)
    ensures
        same_path(current@, target@) ==> r matches Err(MigrationError::SameDirectory),
        !same_path(current@, target@) && target_exists && target_has_entries ==> r matches Err(MigrationError::TargetNotEmpty),
        !same_path(current@, target@) && !(target_exists && target_has_entries) ==> r is Ok,
{
    if path_eq(current, target) {
        return Err(MigrationError::SameDirectory);
    }
    if target_exists && target_has_entries {
        return Err(MigrationError::TargetNotEmpty);
    }
    Ok(())
}

/// Why a task's video cannot be streamed.
#[derive(Debug, Clone)]
pub enum StreamError {
    PreprocessedMissing,
    ResultMissing,
    UnknownVideoType,
}

impl StreamError {
    pub fn message(&self) -> (r: String)
        ensures
            self matches StreamError::PreprocessedMissing ==> r@ == "预处理视频尚未生成"@,
            self matches StreamError::ResultMissing ==> r@ == "结果视频尚未生成"@,
            self matches StreamError::UnknownVideoType ==> r@ == "不支持的视频类型"@,
    {
        match self {
            StreamError::PreprocessedMissing => owned("预处理视频尚未生成"),
            StreamError::ResultMissing => owned("结果视频尚未生成"),
            StreamError::UnknownVideoType => owned("不支持的视频类型"),
        }
    }
}

/// Which file of a task plays for a video type, relative to the task's
/// directory: the `original` is the normalised analysis input when there is
/// one, else the imported file; `preprocessed` and `result` are the worker's
/// outputs once it produced them.
pub fn stream_relative_path(
    video_type: &str,
    original_rel: &str,
    analysis_input_rel: &Option<String>,
    preprocessed_rel: &Option<String>,
    result_rel: &Option<String>,
) -> (r: Result<String, StreamError>)
    ensures
        video_type@ == "original"@ ==> (r matches Ok(p) && p@ == match analysis_input_rel {
            Some(a) => a@,
            None => original_rel@,
        }),
        video_type@ == "preprocessed"@ ==> match preprocessed_rel {
            Some(p) => r matches Ok(x) && x@ == p@,
            None => r matches Err(StreamError::PreprocessedMissing),
        },
        video_type@ == "result"@ ==> match result_rel {
            Some(p) => r matches Ok(x) && x@ == p@,
            None => r matches Err(StreamError::ResultMissing),
        },
        video_type@ != "original"@ && video_type@ != "preprocessed"@ && video_type@ != "result"@
            ==> r matches Err(StreamError::UnknownVideoType),
{
    proof {
        reveal_strlit("original");
        reveal_strlit("preprocessed");
        reveal_strlit("result");
        assert("original"@.len() != "preprocessed"@.len());
        assert("original"@.len() != "result"@.len());
        assert("result"@.len() != "preprocessed"@.len());
    }
    if str_eq(video_type, "original") {
        match analysis_input_rel {
            Some(a) => Ok(a.clone()),
            None => Ok(owned(original_rel)),
        }
    } else if str_eq(video_type, "preprocessed") {
        match preprocessed_rel {
            Some(p) => Ok(p.clone()),
            None => Err(StreamError::PreprocessedMissing),
        }
    } else if str_eq(video_type, "result") {
        match result_rel {
            Some(p) => Ok(p.clone()),
            None => Err(StreamError::ResultMissing),
        }
    } else {
        Err(StreamError::UnknownVideoType)
    }
}

/// The address at which the local media server streams a registered file.
pub fn media_url(port: u16, token: &str) -> (r: String)
    ensures
        r@ == "http://127.0.0.1:"@ + crate::text::decimal(port as nat) + "/media/"@ + token@,
{
    let mut v: Vec<char> = Vec::new();
    push_str(&mut v, "http://127.0.0.1:");
    push_decimal(&mut v, port as u64);
    push_str(&mut v, "/media/");
    push_str(&mut v, token);
    string_of(v.as_slice())
}

} // verus!
