//! The analysis runtime: the platform it is built for, how an imported
//! runtime package and its manifest are checked, the state reported to the
//! interface, and the self-check of a new package.

use vstd::prelude::*;
use crate::paths::{joined, path_of, HostPlatform, LibPath, is_windows_spec};
use crate::text::{
    ascii_lower, ascii_lower_chars, chars_eq, chars_of, concat2, contains_chars, contains_seq, owned, push_chars,
    push_str, starts_with, starts_with_chars, str_eq, string_of, trim, trim_str,
};
use crate::trusted::{path_eq, same_path, to_lowercase, unicode_lowercase};

verus! {

/// The runtime build that this application needs: its own version.
pub fn required_runtime_build_id(app_version: &str) -> (r: String)
    ensures
        r@ == app_version@,
{
    owned(app_version)
}

/// The name of the runtime platform for an operating system and processor
/// architecture (as `std::env::consts` names them).
pub open spec fn platform_slug(os: Seq<char>, arch: Seq<char>) -> Seq<char> {
    if os == "macos"@ && arch == "aarch64"@ { "darwin-arm64"@ }
    else if os == "macos"@ && arch == "x86_64"@ { "darwin-x64"@ }
    else if os == "windows"@ && arch == "x86_64"@ { "windows-x64"@ }
    else if os == "windows"@ && arch == "aarch64"@ { "windows-arm64"@ }
    else if os == "linux"@ && arch == "x86_64"@ { "linux-x64"@ }
    else if os == "linux"@ && arch == "aarch64"@ { "linux-arm64"@ }
    else if os == "macos"@ { "darwin-unknown"@ }
    else if os == "windows"@ { "windows-unknown"@ }
    else if arch == "x86_64"@ { "linux-x64"@ }
    else { "linux-arm64"@ }
}

/// The runtime platform name of the host.
pub fn runtime_platform_slug(os: &str, arch: &str) -> (r: &'static str)
    ensures
        r@ == platform_slug(os@, arch@),
{
    let mac = str_eq(os, "macos");
    let win = str_eq(os, "windows");
    let linux = str_eq(os, "linux");
    let arm = str_eq(arch, "aarch64");
    let x64 = str_eq(arch, "x86_64");
    if mac && arm { "darwin-arm64" }
    else if mac && x64 { "darwin-x64" }
    else if win && x64 { "windows-x64" }
    else if win && arm { "windows-arm64" }
    else if linux && x64 { "linux-x64" }
    else if linux && arm { "linux-arm64" }
    else if mac { "darwin-unknown" }
    else if win { "windows-unknown" }
    else if x64 { "linux-x64" }
    else { "linux-arm64" }
}

/// A bundled executable's file name: with `.exe` on Windows.
pub fn bundled_binary_name(windows: bool, name: &str) -> (r: String)
    ensures
        windows ==> r@ == name@ + ".exe"@,
        !windows ==> r@ == name@,
{
    if windows {
        concat2(name, ".exe")
    } else {
        owned(name)
    }
}

/// The runtime cache of the host's platform.
pub fn runtime_cache_platform_dir(runtime_cache_dir: &LibPath, platform: &HostPlatform) -> (r: LibPath)
    ensures
        r@ == joined(runtime_cache_dir@, platform_slug(platform.os@, platform.arch@)),
{
    runtime_cache_dir.join(runtime_platform_slug(platform.os.as_str(), platform.arch.as_str()))
}

/// Where the Windows runtime packages of the host's platform are kept.
pub fn windows_runtime_platform_root(runtime_cache_dir: &LibPath, platform: &HostPlatform) -> (r: LibPath)
    ensures
        r@ == joined(runtime_cache_dir@, platform_slug(platform.os@, platform.arch@)),
{
    runtime_cache_platform_dir(runtime_cache_dir, platform)
}

/// The active Windows runtime: the package of the required build.
pub fn windows_active_runtime_dir(runtime_cache_dir: &LibPath, platform: &HostPlatform, app_version: &str) -> (r: LibPath)
    ensures
        r@ == joined(joined(runtime_cache_dir@, platform_slug(platform.os@, platform.arch@)), app_version@),
{
    let build = required_runtime_build_id(app_version);
    windows_runtime_platform_root(runtime_cache_dir, platform).join(build.as_str())
}

/// One file that a runtime manifest lists.
#[derive(Debug, Clone)]
pub struct RuntimeManifestFile {
    pub path: String,
    pub size: u64,
    pub sha256: String,
}

/// The manifest inside a runtime package.
#[derive(Debug, Clone)]
pub struct RuntimeManifest {
    pub platform: String,
    pub runtime_build_id: String,
    pub app_version: String,
    pub created_at: String,
    pub files: Vec<RuntimeManifestFile>,
}

/// The application's record of the one runtime package that suits it.
#[derive(Debug, Clone)]
pub struct RuntimePackageLock {
    pub platform: String,
    pub runtime_build_id: String,
    pub app_version: String,
    pub package_name: String,
    pub size: u64,
    pub sha256: String,
    pub created_at: String,
}

/// Why a runtime package or manifest was refused.
#[derive(Debug, Clone)]
pub enum RuntimeCheckError {
    /// The manifest's platform; what was needed.
    ManifestPlatform { expected: String, actual: String },
    ManifestBuild { expected: String, actual: String },
    ManifestAppVersion { expected: String, actual: String },
    LockPlatform { expected: String, actual: String },
    LockBuild { expected: String, actual: String },
    LockAppVersion { expected: String, actual: String },
    /// The package's size differs; the name of the package that suits.
    PackageSize(String),
    /// The package's SHA-256 differs; the name of the package that suits.
    PackageDigest(String),
    /// A manifest entry leaves the package; its path.
    IllegalPath(String),
    FileSize(String),
    FileDigest(String),
}

pub open spec fn mismatch_text(head: Seq<char>, expected: Seq<char>, actual: Seq<char>) -> Seq<char> {
    head + "：需要 "@ + expected + "，实际 "@ + actual
}

fn mismatch_message(head: &str, expected: &str, actual: &str) -> (r: String)
    ensures
        r@ == mismatch_text(head@, expected@, actual@),
{
    let mut v: Vec<char> = Vec::new();
    push_str(&mut v, head);
    push_str(&mut v, "：需要 ");
    push_str(&mut v, expected);
    push_str(&mut v, "，实际 ");
    push_str(&mut v, actual);
    assert(v@ =~= mismatch_text(head@, expected@, actual@));
    string_of(v.as_slice())
}

impl RuntimeCheckError {
    /// The message shown to the user.
    pub fn message(&self) -> (r: String)
        ensures
            self matches RuntimeCheckError::ManifestPlatform { expected, actual } ==> r@ == mismatch_text("算法包平台不匹配"@, expected@, actual@),
            self matches RuntimeCheckError::ManifestBuild { expected, actual } ==> r@ == mismatch_text("算法包版本不匹配"@, expected@, actual@),
            self matches RuntimeCheckError::ManifestAppVersion { expected, actual } ==> r@ == mismatch_text("算法包 App 版本不匹配"@, expected@, actual@),
            self matches RuntimeCheckError::LockPlatform { expected, actual } ==> r@ == mismatch_text("主程序算法包锁定文件平台不匹配"@, expected@, actual@),
            self matches RuntimeCheckError::LockBuild { expected, actual } ==> r@ == mismatch_text("主程序算法包锁定文件版本不匹配"@, expected@, actual@),
            self matches RuntimeCheckError::LockAppVersion { expected, actual } ==> r@ == mismatch_text("主程序算法包锁定文件 App 版本不匹配"@, expected@, actual@),
            self matches RuntimeCheckError::PackageSize(n) ==> r@ == "算法包大小不匹配：请选择主程序配套的算法包 "@ + n@,
            self matches RuntimeCheckError::PackageDigest(n) ==> r@ == "算法包 SHA256 不匹配：请选择主程序配套的算法包 "@ + n@,
            self matches RuntimeCheckError::IllegalPath(p) ==> r@ == "算法包 manifest 包含非法路径: "@ + p@,
            self matches RuntimeCheckError::FileSize(p) ==> r@ == "算法包文件大小不匹配: "@ + p@,
            self matches RuntimeCheckError::FileDigest(p) ==> r@ == "算法包文件校验失败: "@ + p@,
    {
        match self {
            RuntimeCheckError::ManifestPlatform { expected, actual } => mismatch_message("算法包平台不匹配", expected.as_str(), actual.as_str()),
            RuntimeCheckError::ManifestBuild { expected, actual } => mismatch_message("算法包版本不匹配", expected.as_str(), actual.as_str()),
            RuntimeCheckError::ManifestAppVersion { expected, actual } => mismatch_message("算法包 App 版本不匹配", expected.as_str(), actual.as_str()),
            RuntimeCheckError::LockPlatform { expected, actual } => mismatch_message("主程序算法包锁定文件平台不匹配", expected.as_str(), actual.as_str()),
            RuntimeCheckError::LockBuild { expected, actual } => mismatch_message("主程序算法包锁定文件版本不匹配", expected.as_str(), actual.as_str()),
            RuntimeCheckError::LockAppVersion { expected, actual } => mismatch_message("主程序算法包锁定文件 App 版本不匹配", expected.as_str(), actual.as_str()),
            RuntimeCheckError::PackageSize(n) => concat2("算法包大小不匹配：请选择主程序配套的算法包 ", n.as_str()),
            RuntimeCheckError::PackageDigest(n) => concat2("算法包 SHA256 不匹配：请选择主程序配套的算法包 ", n.as_str()),
            RuntimeCheckError::IllegalPath(p) => concat2("算法包 manifest 包含非法路径: ", p.as_str()),
            RuntimeCheckError::FileSize(p) => concat2("算法包文件大小不匹配: ", p.as_str()),
            RuntimeCheckError::FileDigest(p) => concat2("算法包文件校验失败: ", p.as_str()),
        }
    }
}

/// Whether a runtime manifest is the one this application needs: built for
/// the host's platform, of the required build, for this application version
/// (checked in that order).
pub fn validate_runtime_manifest(manifest: &RuntimeManifest, platform: &HostPlatform, app_version: &str) -> (r: Result<(), RuntimeCheckError>)
    ensures
        manifest.platform@ != platform_slug(platform.os@, platform.arch@) ==> (r matches Err(RuntimeCheckError::ManifestPlatform { expected, actual })
            && expected@ == platform_slug(platform.os@, platform.arch@) && actual@ == manifest.platform@),
        manifest.platform@ == platform_slug(platform.os@, platform.arch@) && manifest.runtime_build_id@ != app_version@ ==> (
            r matches Err(RuntimeCheckError::ManifestBuild { expected, actual }) && expected@ == app_version@ && actual@ == manifest.runtime_build_id@),
        manifest.platform@ == platform_slug(platform.os@, platform.arch@) && manifest.runtime_build_id@ == app_version@
            && manifest.app_version@ != app_version@ ==> (r matches Err(RuntimeCheckError::ManifestAppVersion { expected, actual })
            && expected@ == app_version@ && actual@ == manifest.app_version@),
        manifest.platform@ == platform_slug(platform.os@, platform.arch@) && manifest.runtime_build_id@ == app_version@
            && manifest.app_version@ == app_version@ ==> r is Ok,
{
    let expected_platform = runtime_platform_slug(platform.os.as_str(), platform.arch.as_str());
    let expected_build = required_runtime_build_id(app_version);
    if !str_eq(manifest.platform.as_str(), expected_platform) {
        return Err(RuntimeCheckError::ManifestPlatform { expected: owned(expected_platform), actual: manifest.platform.clone() });
    }
    if !str_eq(manifest.runtime_build_id.as_str(), expected_build.as_str()) {
        return Err(RuntimeCheckError::ManifestBuild { expected: expected_build, actual: manifest.runtime_build_id.clone() });
    }
    if !str_eq(manifest.app_version.as_str(), app_version) {
        return Err(RuntimeCheckError::ManifestAppVersion { expected: owned(app_version), actual: manifest.app_version.clone() });
    }
    Ok(())
}

/// `str::eq_ignore_ascii_case`.
pub open spec fn eq_ignore_ascii_case(a: Seq<char>, b: Seq<char>) -> bool {
    ascii_lower(a) == ascii_lower(b)
}

pub fn eq_ignore_ascii_case_exec(a: &str, b: &str) -> (r: bool)
    ensures
        r == eq_ignore_ascii_case(a@, b@),
{
    let la = ascii_lower_chars(chars_of(a).as_slice());
    let lb = ascii_lower_chars(chars_of(b).as_slice());
    chars_eq(la.as_slice(), lb.as_slice())
}

/// Whether the package at hand is the one that the application's lock file
/// names: the lock must be for this platform, build and version, and the
/// package must have the locked size and SHA-256 (hex digits in any case).
pub fn validate_runtime_package_zip(
    lock: &RuntimePackageLock,
    platform: &HostPlatform,
    app_version: &str,
    package_size: u64,
    package_sha256: &str,
) -> (r: Result<(), RuntimeCheckError>)
    ensures
        lock.platform@ != platform_slug(platform.os@, platform.arch@) ==> (r matches Err(RuntimeCheckError::LockPlatform { expected, actual })
            && expected@ == platform_slug(platform.os@, platform.arch@) && actual@ == lock.platform@),
        lock.platform@ == platform_slug(platform.os@, platform.arch@) && lock.runtime_build_id@ != app_version@ ==> (
            r matches Err(RuntimeCheckError::LockBuild { expected, actual }) && expected@ == app_version@ && actual@ == lock.runtime_build_id@),
        lock.platform@ == platform_slug(platform.os@, platform.arch@) && lock.runtime_build_id@ == app_version@
            && lock.app_version@ != app_version@ ==> (r matches Err(RuntimeCheckError::LockAppVersion { expected, actual })
            && expected@ == app_version@ && actual@ == lock.app_version@),
        lock.platform@ == platform_slug(platform.os@, platform.arch@) && lock.runtime_build_id@ == app_version@
            && lock.app_version@ == app_version@ ==> (
            if package_size != lock.size {
                r matches Err(RuntimeCheckError::PackageSize(n)) && n@ == lock.package_name@
            } else if !eq_ignore_ascii_case(package_sha256@, lock.sha256@) {
                r matches Err(RuntimeCheckError::PackageDigest(n)) && n@ == lock.package_name@
            } else {
                r is Ok
            }),
{
    let expected_platform = runtime_platform_slug(platform.os.as_str(), platform.arch.as_str());
    let expected_build = required_runtime_build_id(app_version);
    if !str_eq(lock.platform.as_str(), expected_platform) {
        return Err(RuntimeCheckError::LockPlatform { expected: owned(expected_platform), actual: lock.platform.clone() });
    }
    if !str_eq(lock.runtime_build_id.as_str(), expected_build.as_str()) {
        return Err(RuntimeCheckError::LockBuild { expected: expected_build, actual: lock.runtime_build_id.clone() });
    }
    if !str_eq(lock.app_version.as_str(), app_version) {
        return Err(RuntimeCheckError::LockAppVersion { expected: owned(app_version), actual: lock.app_version.clone() });
    }
    if package_size != lock.size {
        return Err(RuntimeCheckError::PackageSize(lock.package_name.clone()));
    }
    if !eq_ignore_ascii_case_exec(package_sha256, lock.sha256.as_str()) {
        return Err(RuntimeCheckError::PackageDigest(lock.package_name.clone()));
    }
    Ok(())
}

/// Whether a manifest entry stays inside the package: it is not absolute
/// (as the platform judges it) and holds no `..`.
pub fn check_manifest_entry_path(file: &RuntimeManifestFile, is_absolute: bool) -> (r: Result<(), RuntimeCheckError>)
    ensures
        (is_absolute || contains_seq(file.path@, ".."@)) ==> (r matches Err(RuntimeCheckError::IllegalPath(p)) && p@ == file.path@),
        !(is_absolute || contains_seq(file.path@, ".."@)) ==> r is Ok,
{
    let dots = chars_of("..");
    if is_absolute || contains_chars(chars_of(file.path.as_str()).as_slice(), dots.as_slice()) {
        Err(RuntimeCheckError::IllegalPath(file.path.clone()))
    } else {
        Ok(())
    }
}

/// Whether a file of the package matches its manifest entry: in size, then in
/// SHA-256 (hex digits in any case).
pub fn check_manifest_entry(file: &RuntimeManifestFile, actual_size: u64, actual_sha256: &str) -> (r: Result<(), RuntimeCheckError>)
    ensures
        actual_size != file.size ==> (r matches Err(RuntimeCheckError::FileSize(p)) && p@ == file.path@),
        actual_size == file.size && !eq_ignore_ascii_case(actual_sha256@, file.sha256@) ==> (r matches Err(RuntimeCheckError::FileDigest(p)) && p@ == file.path@),
        actual_size == file.size && eq_ignore_ascii_case(actual_sha256@, file.sha256@) ==> r is Ok,
{
    if actual_size != file.size {
        return Err(RuntimeCheckError::FileSize(file.path.clone()));
    }
    if !eq_ignore_ascii_case_exec(actual_sha256, file.sha256.as_str()) {
        return Err(RuntimeCheckError::FileDigest(file.path.clone()));
    }
    Ok(())
}

/// The lower-case hexadecimal digit of `d < 16`.
pub open spec fn hex_digit(d: nat) -> char {
    if d < 10 { (d + 48) as char } else { (d + 87) as char }
}

/// The bytes in lower-case hexadecimal, two digits each, as `{:x}` writes a
/// SHA-256 digest.
pub open spec fn hex_lower(bytes: Seq<u8>) -> Seq<char>
    decreases bytes.len(),
{
    if bytes.len() == 0 {
        Seq::empty()
    } else {
        hex_lower(bytes.drop_last()) + seq![hex_digit((bytes.last() / 16) as nat), hex_digit((bytes.last() % 16) as nat)]
    }
}

fn hex_digit_exec(d: u8) -> (c: char)
    requires
        d < 16,
    ensures
        c == hex_digit(d as nat),
{
    if d < 10 { (d + 48) as char } else { (d + 87) as char }
}

/// A digest in lower-case hexadecimal.
pub fn digest_hex(bytes: &[u8]) -> (r: String)
    ensures
        r@ == hex_lower(bytes@),
{
    let mut v: Vec<char> = Vec::new();
    let mut i: usize = 0;
    while i < bytes.len()
        invariant
            i <= bytes.len(),
            v@ == hex_lower(bytes@.take(i as int)),
        decreases bytes.len() - i,
    {
        let b = bytes[i];
        v.push(hex_digit_exec(b / 16));
        v.push(hex_digit_exec(b % 16));
        assert(bytes@.take(i + 1).drop_last() == bytes@.take(i as int));
        assert(bytes@.take(i + 1).last() == b);
        i += 1;
        assert(v@ =~= hex_lower(bytes@.take(i as int)));
    }
    assert(bytes@.take(i as int) == bytes@);
    string_of(v.as_slice())
}

/// The files that a runtime package must hold, in the order they are checked:
/// the worker, ffmpeg, ffprobe, the GPU preprocessor, the video analyzer and
/// the ONNX model.
pub fn validate_runtime_layout(root: &LibPath, windows: bool) -> (r: Vec<LibPath>)
    ensures
        r@.len() == 6,
        r@[0]@ == joined(joined(joined(root@, "worker"@), "desktop_worker"@), (if windows { "desktop_worker.exe"@ } else { "desktop_worker"@ })),
        r@[1]@ == joined(joined(root@, "tools"@), (if windows { "ffmpeg.exe"@ } else { "ffmpeg"@ })),
        r@[2]@ == joined(joined(root@, "tools"@), (if windows { "ffprobe.exe"@ } else { "ffprobe"@ })),
        r@[3]@ == joined(joined(root@, "tools"@), (if windows { "var-gpu-preprocessor.exe"@ } else { "var-gpu-preprocessor"@ })),
        r@[4]@ == joined(joined(root@, "tools"@), (if windows { "var-video-analyzer.exe"@ } else { "var-video-analyzer"@ })),
        r@[5]@ == joined(joined(root@, "models"@), "best.onnx"@),
{
    proof {
        reveal_strlit("desktop_worker");
        reveal_strlit("desktop_worker.exe");
        reveal_strlit("ffmpeg");
        reveal_strlit("ffmpeg.exe");
        reveal_strlit("ffprobe");
        reveal_strlit("ffprobe.exe");
        reveal_strlit("var-gpu-preprocessor");
        reveal_strlit("var-gpu-preprocessor.exe");
        reveal_strlit("var-video-analyzer");
        reveal_strlit("var-video-analyzer.exe");
        reveal_strlit(".exe");
    }
    let worker = bundled_binary_name(windows, "desktop_worker");
    let ffmpeg = bundled_binary_name(windows, "ffmpeg");
    let ffprobe = bundled_binary_name(windows, "ffprobe");
    let pre = bundled_binary_name(windows, "var-gpu-preprocessor");
    let analyzer = bundled_binary_name(windows, "var-video-analyzer");
    assert(worker@ == (if windows { "desktop_worker.exe"@ } else { "desktop_worker"@ }));
    assert(ffmpeg@ == (if windows { "ffmpeg.exe"@ } else { "ffmpeg"@ }));
    assert(ffprobe@ == (if windows { "ffprobe.exe"@ } else { "ffprobe"@ }));
    assert(pre@ == (if windows { "var-gpu-preprocessor.exe"@ } else { "var-gpu-preprocessor"@ }));
    assert(analyzer@ == (if windows { "var-video-analyzer.exe"@ } else { "var-video-analyzer"@ }));
    let mut r: Vec<LibPath> = Vec::new();
    r.push(root.join("worker").join("desktop_worker").join(worker.as_str()));
    r.push(root.join("tools").join(ffmpeg.as_str()));
    r.push(root.join("tools").join(ffprobe.as_str()));
    r.push(root.join("tools").join(pre.as_str()));
    r.push(root.join("tools").join(analyzer.as_str()));
    r.push(root.join("models").join("best.onnx"));
    r
}

/// The first of the required files that is missing, given which exist.
pub fn first_missing(exists: &[bool]) -> (r: Option<usize>)
    ensures
        r matches Some(i) ==> i < exists@.len() && !exists@[i as int] && forall|j: int| 0 <= j < i ==> exists@[j],
        r is None ==> forall|j: int| 0 <= j < exists@.len() ==> exists@[j],
{
    let mut i: usize = 0;
    while i < exists.len()
        invariant
            i <= exists.len(),
            forall|j: int| 0 <= j < i ==> exists@[j],
        decreases exists.len() - i,
    {
        if !exists[i] {
            return Some(i);
        }
        i += 1;
    }
    None
}

} // verus!

verus! {

/// `/` written as `\`.
pub open spec fn slash_to_backslash(s: Seq<char>) -> Seq<char> {
    s.map_values(|c: char| if c == '/' { '\\' } else { c })
}

/// The key under which two runtime paths are compared: separators written
/// as `\` and the whole in lower case.
pub fn normalized_path_key(path: &str) -> (r: String)
    ensures
        r@ == unicode_lowercase(slash_to_backslash(path@)),
{
    let v = chars_of(path);
    let mut out: Vec<char> = Vec::new();
    let mut i: usize = 0;
    while i < v.len()
        invariant
            i <= v.len(),
            v@ == path@,
            out@ == slash_to_backslash(v@.take(i as int)),
        decreases v.len() - i,
    {
        let c = v[i];
        out.push(if c == '/' { '\\' } else { c });
        i += 1;
        assert(out@ =~= slash_to_backslash(v@.take(i as int)));
    }
    assert(v@.take(v.len() as int) == v@);
    let s = string_of(out.as_slice());
    to_lowercase(s.as_str())
}

/// The most characters of a command's output that go into one log line.
pub const LOG_EXCERPT_MAX_CHARS: usize = 4000;

/// Line breaks written as `\r` and `\n`, so that the text fits on one line.
pub open spec fn escape_line_breaks(s: Seq<char>) -> Seq<char>
    decreases s.len(),
{
    if s.len() == 0 {
        Seq::<char>::empty()
    } else {
        escape_line_breaks(s.drop_last()) + (if s.last() == '\r' {
            seq!['\\', 'r']
        } else if s.last() == '\n' {
            seq!['\\', 'n']
        } else {
            seq![s.last()]
        })
    }
}

/// The text logged for a command's output: line breaks escaped, and cut
/// after `LOG_EXCERPT_MAX_CHARS` characters with a marker.
pub open spec fn log_excerpt_spec(s: Seq<char>) -> Seq<char> {
    let n = escape_line_breaks(s);
    if n.len() <= LOG_EXCERPT_MAX_CHARS {
        n
    } else {
        n.take(LOG_EXCERPT_MAX_CHARS as int) + "...<truncated>"@
    }
}

/// The log excerpt of `value` (see `log_excerpt_spec`).
pub fn log_excerpt(value: &str) -> (r: String)
    ensures
        r@ == log_excerpt_spec(value@),
{
    let v = chars_of(value);
    let mut n: Vec<char> = Vec::new();
    let mut i: usize = 0;
    while i < v.len()
        invariant
            i <= v.len(),
            v@ == value@,
            n@ == escape_line_breaks(v@.take(i as int)),
        decreases v.len() - i,
    {
        let c = v[i];
        proof {
            assert(v@.take(i + 1).drop_last() == v@.take(i as int));
            assert(v@.take(i + 1).last() == c);
        }
        if c == '\r' {
            n.push('\\');
            n.push('r');
        } else if c == '\n' {
            n.push('\\');
            n.push('n');
        } else {
            n.push(c);
        }
        i += 1;
        assert(n@ =~= escape_line_breaks(v@.take(i as int)));
    }
    assert(v@.take(v.len() as int) == v@);
    if n.len() <= LOG_EXCERPT_MAX_CHARS {
        return string_of(n.as_slice());
    }
    let mut out: Vec<char> = Vec::new();
    let mut k: usize = 0;
    while k < LOG_EXCERPT_MAX_CHARS
        invariant
            k <= LOG_EXCERPT_MAX_CHARS,
            LOG_EXCERPT_MAX_CHARS < n.len(),
            out@ == n@.take(k as int),
        decreases LOG_EXCERPT_MAX_CHARS - k,
    {
        out.push(n[k]);
        k += 1;
        assert(out@ =~= n@.take(k as int));
    }
    push_str(&mut out, "...<truncated>");
    string_of(out.as_slice())
}

/// The exit code (as `ExitStatus::code` gives it) with which Windows reports
/// a missing DLL (NTSTATUS 0xC0000135).
pub const EXIT_DLL_NOT_FOUND: i32 = -1073741515;

/// The exit code with which Windows reports a missing DLL entry point
/// (NTSTATUS 0xC0000139).
pub const EXIT_ENTRY_POINT_NOT_FOUND: i32 = -1073741511;

pub open spec fn exit_hint_spec(code: Option<i32>) -> Option<Seq<char>> {
    if code == Some(EXIT_DLL_NOT_FOUND) {
        Some("提示：Windows 报告缺少 DLL。请重新导入新版算法包，或检查算法包文件是否完整。"@)
    } else if code == Some(EXIT_ENTRY_POINT_NOT_FOUND) {
        Some(
            "提示：Windows 报告 DLL 入口点不匹配。常见原因是 NVIDIA 显卡驱动版本过旧；当前算法包要求 Windows NVIDIA 驱动 570 或更高版本。"@,
        )
    } else {
        None
    }
}

/// The hint added to a failed self-check for the exit codes that point at
/// a broken package or an old NVIDIA driver.
pub fn runtime_check_exit_hint(code: Option<i32>) -> (r: Option<String>)
    ensures
        match exit_hint_spec(code) {
            Some(h) => r matches Some(s) && s@ == h,
            None => r is None,
        },
{
    match code {
        Some(c) => {
            if c == EXIT_DLL_NOT_FOUND {
                Some(owned("提示：Windows 报告缺少 DLL。请重新导入新版算法包，或检查算法包文件是否完整。"))
            } else if c == EXIT_ENTRY_POINT_NOT_FOUND {
                Some(
                    owned(
                        "提示：Windows 报告 DLL 入口点不匹配。常见原因是 NVIDIA 显卡驱动版本过旧；当前算法包要求 Windows NVIDIA 驱动 570 或更高版本。",
                    ),
                )
            } else {
                None
            }
        },
        None => None,
    }
}

/// What a self-check command's output says, both streams trimmed: stderr
/// above stdout where both have text, the one that has text, or `empty`.
pub open spec fn check_details_spec(stdout: Seq<char>, stderr: Seq<char>, empty: Seq<char>) -> Seq<char> {
    let o = trim(stdout);
    let e = trim(stderr);
    if o.len() == 0 && e.len() == 0 {
        empty
    } else if e.len() == 0 {
        o
    } else if o.len() == 0 {
        e
    } else {
        e + "\n"@ + o
    }
}

fn check_details(stdout: &str, stderr: &str, empty: &str) -> (r: String)
    ensures
        r@ == check_details_spec(stdout@, stderr@, empty@),
{
    let o = trim_str(stdout);
    let e = trim_str(stderr);
    let o_empty = chars_of(o.as_str()).len() == 0;
    let e_empty = chars_of(e.as_str()).len() == 0;
    if o_empty && e_empty {
        owned(empty)
    } else if e_empty {
        o
    } else if o_empty {
        e
    } else {
        let mut v: Vec<char> = Vec::new();
        push_str(&mut v, e.as_str());
        push_str(&mut v, "\n");
        push_str(&mut v, o.as_str());
        string_of(v.as_slice())
    }
}

/// The error of a self-check command that exited unsuccessfully: its label,
/// what it printed (or its exit status, `status`, where it printed nothing),
/// and the hint for its exit code, each on a line of its own.
pub open spec fn check_failure_spec(
    label: Seq<char>,
    stdout: Seq<char>,
    stderr: Seq<char>,
    status: Seq<char>,
    code: Option<i32>,
) -> Seq<char> {
    let head = "算法包自检失败: "@ + label + "\n"@ + check_details_spec(stdout, stderr, "退出码: "@ + status);
    match exit_hint_spec(code) {
        Some(h) => head + "\n"@ + h,
        None => head,
    }
}

/// The error message of a failed self-check command (see
/// `check_failure_spec`).
pub fn runtime_check_failure(label: &str, stdout: &str, stderr: &str, status: &str, code: Option<i32>) -> (r: String)
    ensures
        r@ == check_failure_spec(label@, stdout@, stderr@, status@, code),
{
    let empty = concat2("退出码: ", status);
    let details = check_details(stdout, stderr, empty.as_str());
    let mut v: Vec<char> = Vec::new();
    push_str(&mut v, "算法包自检失败: ");
    push_str(&mut v, label);
    push_str(&mut v, "\n");
    push_str(&mut v, details.as_str());
    match runtime_check_exit_hint(code) {
        Some(h) => {
            push_str(&mut v, "\n");
            push_str(&mut v, h.as_str());
        },
        None => {},
    }
    string_of(v.as_slice())
}

/// How long a self-check command may run, in seconds.
pub const RUNTIME_SELF_CHECK_TIMEOUT_SECS: u64 = 60;

/// How often a running self-check command is looked at, in milliseconds.
pub const RUNTIME_SELF_CHECK_POLL_MS: u64 = 50;

/// What to do with a self-check command that is still being waited for.
#[derive(Debug, Clone, Copy, PartialEq, Eq)]
pub enum SelfCheckPoll {
    /// It has exited: collect its output.
    Collect,
    /// It has run out of time: kill it and report the timeout.
    KillForTimeout,
    /// Look again after this many milliseconds.
    WaitMs(u64),
}

/// The next step of waiting for a self-check command that has run for
/// `elapsed_ms` milliseconds: an exited command is collected; one that has
/// run for the whole timeout or more is killed; otherwise it is looked at
/// again after the poll interval.
pub fn runtime_check_poll(exited: bool, elapsed_ms: u64) -> (r: SelfCheckPoll)
    ensures
        exited ==> r == SelfCheckPoll::Collect,
        !exited && elapsed_ms >= RUNTIME_SELF_CHECK_TIMEOUT_SECS * 1000 ==> r == SelfCheckPoll::KillForTimeout,
        !exited && elapsed_ms < RUNTIME_SELF_CHECK_TIMEOUT_SECS * 1000 ==> r == SelfCheckPoll::WaitMs(
            RUNTIME_SELF_CHECK_POLL_MS,
        ),
{
    if exited {
        SelfCheckPoll::Collect
    } else if elapsed_ms >= RUNTIME_SELF_CHECK_TIMEOUT_SECS * 1000 {
        SelfCheckPoll::KillForTimeout
    } else {
        SelfCheckPoll::WaitMs(RUNTIME_SELF_CHECK_POLL_MS)
    }
}

/// How many times a file operation of a runtime import is tried.
pub const IO_RETRY_MAX_ATTEMPTS: u64 = 25;

/// How long to wait before trying a failed file operation again, in
/// milliseconds.
pub const IO_RETRY_DELAY_MS: u64 = 200;

/// What follows one try of a file operation of a runtime import.
#[derive(Debug, Clone, Copy, PartialEq, Eq)]
pub enum RetryStep {
    /// It succeeded.
    Done,
    /// It failed; try again after this many milliseconds.
    RetryAfterMs(u64),
    /// It failed on the last try: report the failure.
    GiveUp,
}

/// The step after try number `attempt` (counting from 1): success ends the
/// retries; a failure before the last try waits and tries again; a failure
/// on the last try gives up.
pub fn io_retry_step(attempt: u64, succeeded: bool) -> (r: RetryStep)
    ensures
        succeeded ==> r == RetryStep::Done,
        !succeeded && attempt < IO_RETRY_MAX_ATTEMPTS ==> r == RetryStep::RetryAfterMs(IO_RETRY_DELAY_MS),
        !succeeded && attempt >= IO_RETRY_MAX_ATTEMPTS ==> r == RetryStep::GiveUp,
{
    if succeeded {
        RetryStep::Done
    } else if attempt < IO_RETRY_MAX_ATTEMPTS {
        RetryStep::RetryAfterMs(IO_RETRY_DELAY_MS)
    } else {
        RetryStep::GiveUp
    }
}

/// The message of a file operation `label` of a runtime import that failed
/// on every try: a move names its source and target, anything else its
/// source.
pub fn io_retry_failure_message(label: &str, source: &str, target: Option<&str>) -> (r: String)
    ensures
        r@ == match target {
            Some(t) => label@ + "失败，无法将 "@ + source@ + " 移动到 "@ + t@,
            None => label@ + "失败: "@ + source@,
        },
{
    let mut v: Vec<char> = Vec::new();
    push_str(&mut v, label);
    match target {
        Some(t) => {
            push_str(&mut v, "失败，无法将 ");
            push_str(&mut v, source);
            push_str(&mut v, " 移动到 ");
            push_str(&mut v, t);
            proof {
                assert(v@ =~= label@ + "失败，无法将 "@ + source@ + " 移动到 "@ + t@);
            }
        },
        None => {
            push_str(&mut v, "失败: ");
            push_str(&mut v, source);
            proof {
                assert(v@ =~= label@ + "失败: "@ + source@);
            }
        },
    }
    string_of(v.as_slice())
}

/// The error of a self-check command that ran out of time.
pub open spec fn check_timeout_spec(label: Seq<char>, stdout: Seq<char>, stderr: Seq<char>) -> Seq<char> {
    "算法包自检超时: "@ + label + "，已等待 60 秒\n"@ + check_details_spec(stdout, stderr, "无输出"@)
}

/// The error message of a self-check command that timed out.
pub fn runtime_check_timeout(label: &str, stdout: &str, stderr: &str) -> (r: String)
    ensures
        r@ == check_timeout_spec(label@, stdout@, stderr@),
{
    let details = check_details(stdout, stderr, "无输出");
    let mut v: Vec<char> = Vec::new();
    push_str(&mut v, "算法包自检超时: ");
    push_str(&mut v, label);
    push_str(&mut v, "，已等待 60 秒\n");
    push_str(&mut v, details.as_str());
    string_of(v.as_slice())
}

} // verus!

verus! {

/// One step of a runtime package's self-check.
#[derive(Debug)]
pub enum SelfCheckStep {
    /// Run `program` with `args`, followed by `path_arg` where there is one;
    /// `label` names the command in messages.
    Run { program: LibPath, args: Vec<String>, path_arg: Option<LibPath>, label: String },
    /// Check the NVIDIA driver's version and its exports.
    NvidiaDriver,
}

pub open spec fn is_run_step(
    s: SelfCheckStep,
    program: (Seq<char>, Seq<Seq<char>>),
    args: Seq<Seq<char>>,
    path_arg: Option<(Seq<char>, Seq<Seq<char>>)>,
    label: Seq<char>,
) -> bool {
    &&& s matches SelfCheckStep::Run { program: p, args: a, path_arg: q, label: l }
    &&& s->program@ == program
    &&& crate::paths::seg_views(s->args@) == args
    &&& match s->path_arg {
        Some(x) => path_arg == Some(x@),
        None => path_arg is None,
    }
    &&& s->label@ == label
}

fn run_step(program: LibPath, args: Vec<String>, path_arg: Option<LibPath>, label: &str) -> (r: SelfCheckStep)
    ensures
        is_run_step(
            r,
            program@,
            crate::paths::seg_views(args@),
            match path_arg {
                Some(x) => Some(x@),
                None => None,
            },
            label@,
        ),
{
    SelfCheckStep::Run { program, args, path_arg, label: owned(label) }
}

fn one_arg(a: &str) -> (r: Vec<String>)
    ensures
        crate::paths::seg_views(r@) == seq![a@],
{
    let mut v: Vec<String> = Vec::new();
    v.push(owned(a));
    assert(crate::paths::seg_views(v@) =~= seq![a@]);
    v
}

/// The self-check of the runtime package at `root`, in order: the worker,
/// ffmpeg, ffprobe, the NVIDIA driver, the GPU preprocessor, and the video
/// analyzer on the package's ONNX model. The first step that fails stops it.
pub fn run_runtime_self_check(root: &LibPath, windows: bool) -> (r: Vec<SelfCheckStep>)
    ensures
        r@.len() == 6,
        is_run_step(r@[0], joined(joined(joined(root@, "worker"@), "desktop_worker"@), (if windows { "desktop_worker.exe"@ } else { "desktop_worker"@ })), seq!["--self-check"@], None, "desktop_worker --self-check"@),
        is_run_step(r@[1], joined(joined(root@, "tools"@), (if windows { "ffmpeg.exe"@ } else { "ffmpeg"@ })), seq!["-version"@], None, "ffmpeg -version"@),
        is_run_step(r@[2], joined(joined(root@, "tools"@), (if windows { "ffprobe.exe"@ } else { "ffprobe"@ })), seq!["-version"@], None, "ffprobe -version"@),
        r@[3] is NvidiaDriver,
        is_run_step(r@[4], joined(joined(root@, "tools"@), (if windows { "var-gpu-preprocessor.exe"@ } else { "var-gpu-preprocessor"@ })), seq!["--self-check"@], None, "var-gpu-preprocessor --self-check"@),
        is_run_step(r@[5], joined(joined(root@, "tools"@), (if windows { "var-video-analyzer.exe"@ } else { "var-video-analyzer"@ })), seq!["--self-check-onnx"@, "--model"@], Some(joined(joined(root@, "models"@), "best.onnx"@)), "var-video-analyzer --self-check-onnx"@),
{
    let mut files = validate_runtime_layout(root, windows);
    let model = files.pop().unwrap();
    let analyzer = files.pop().unwrap();
    let pre = files.pop().unwrap();
    let ffprobe = files.pop().unwrap();
    let ffmpeg = files.pop().unwrap();
    let worker = files.pop().unwrap();
    let mut r: Vec<SelfCheckStep> = Vec::new();
    r.push(run_step(worker, one_arg("--self-check"), None, "desktop_worker --self-check"));
    r.push(run_step(ffmpeg, one_arg("-version"), None, "ffmpeg -version"));
    r.push(run_step(ffprobe, one_arg("-version"), None, "ffprobe -version"));
    r.push(SelfCheckStep::NvidiaDriver);
    r.push(run_step(pre, one_arg("--self-check"), None, "var-gpu-preprocessor --self-check"));
    let mut onnx = one_arg("--self-check-onnx");
    let ghost before = onnx@;
    onnx.push(owned("--model"));
    assert(crate::paths::seg_views(onnx@) =~= crate::paths::seg_views(before).push("--model"@));
    assert(crate::paths::seg_views(onnx@) =~= seq!["--self-check-onnx"@, "--model"@]);
    r.push(run_step(analyzer, onnx, Some(model), "var-video-analyzer --self-check-onnx"));
    r
}

} // verus!

verus! {

/// The runtime state reported to the interface.
#[derive(Debug, Clone)]
pub struct RuntimeStateResponse {
    pub runtime_required: bool,
    pub runtime_ready: bool,
    pub runtime_build_id: Option<String>,
    pub required_runtime_build_id: String,
    pub runtime_platform: String,
    pub runtime_error: Option<String>,
}

/// The development source check was made and passed.
pub open spec fn dev_source_ok(d: Option<Result<(), String>>) -> bool {
    d matches Some(Ok(_))
}

pub open spec fn opt_view(o: Option<String>) -> Option<Seq<char>> {
    match o {
        Some(s) => Some(s@),
        None => None,
    }
}

/// The runtime state: a debug build whose Python source worker is usable
/// runs it; outside Windows the bundled runtime is always ready; on Windows
/// the active runtime package decides, and where it is unusable the state
/// names the build its manifest records, if any, and the reason.
///
/// `dev_source` is the outcome of `validate_development_source_runtime` (made
/// in debug builds), `active_runtime` the build of the active Windows runtime
/// once it validated, or why it did not (made on Windows wherever the source
/// worker is not used), and
/// `recorded_build_id` the build that the active runtime's manifest names
/// where it can be read.
pub fn runtime_state_from_paths_with_progress(
    platform: &HostPlatform,
    app_version: &str,
    dev_source: Option<Result<(), String>>,
    active_runtime: Option<Result<String, String>>,
    recorded_build_id: Option<String>,
) -> (r: RuntimeStateResponse)
    requires
        is_windows_spec(platform) && !(platform.debug_build && dev_source_ok(dev_source)) ==> active_runtime is Some,
    ensures
        r.required_runtime_build_id@ == app_version@,
        r.runtime_platform@ == platform_slug(platform.os@, platform.arch@),
        platform.debug_build && dev_source_ok(dev_source) ==> {
            &&& !r.runtime_required && r.runtime_ready
            &&& opt_view(r.runtime_build_id) == Some("dev-source"@)
            &&& r.runtime_error is None
        },
        !(platform.debug_build && dev_source_ok(dev_source)) && !is_windows_spec(platform) ==> {
            &&& !r.runtime_required && r.runtime_ready
            &&& opt_view(r.runtime_build_id) == Some(app_version@)
            &&& r.runtime_error is None
        },
        !(platform.debug_build && dev_source_ok(dev_source)) && is_windows_spec(platform) ==> {
            &&& r.runtime_required
            &&& match active_runtime {
                Some(Ok(id)) => r.runtime_ready && opt_view(r.runtime_build_id) == Some(id@) && r.runtime_error is None,
                Some(Err(e)) => !r.runtime_ready && opt_view(r.runtime_build_id) == opt_view(recorded_build_id)
                    && opt_view(r.runtime_error) == Some(e@),
                None => false,
            }
        },
{
    let required = required_runtime_build_id(app_version);
    let slug = owned(runtime_platform_slug(platform.os.as_str(), platform.arch.as_str()));
    let dev_ok = match &dev_source {
        Some(Ok(())) => true,
        _ => false,
    };
    if platform.debug_build && dev_ok {
        return RuntimeStateResponse {
            runtime_required: false,
            runtime_ready: true,
            runtime_build_id: Some(owned("dev-source")),
            required_runtime_build_id: required,
            runtime_platform: slug,
            runtime_error: None,
        };
    }
    if !platform.is_windows() {
        return RuntimeStateResponse {
            runtime_required: false,
            runtime_ready: true,
            runtime_build_id: Some(owned(app_version)),
            required_runtime_build_id: required,
            runtime_platform: slug,
            runtime_error: None,
        };
    }
    match active_runtime {
        Some(Ok(id)) => RuntimeStateResponse {
            runtime_required: true,
            runtime_ready: true,
            runtime_build_id: Some(id),
            required_runtime_build_id: required,
            runtime_platform: slug,
            runtime_error: None,
        },
        Some(Err(e)) => RuntimeStateResponse {
            runtime_required: true,
            runtime_ready: false,
            runtime_build_id: recorded_build_id,
            required_runtime_build_id: required,
            runtime_platform: slug,
            runtime_error: Some(e),
        },
        None => RuntimeStateResponse {
            runtime_required: true,
            runtime_ready: false,
            runtime_build_id: recorded_build_id,
            required_runtime_build_id: required,
            runtime_platform: slug,
            runtime_error: None,
        },
    }
}

/// The progress message shown for the outcome of the development source
/// check.
pub fn dev_source_progress_message(outcome: &Result<(), String>) -> (r: String)
    ensures
        outcome is Ok ==> r@ == "开发模式使用 Python 源码 worker"@,
        outcome matches Err(e) ==> r@ == "Python 源码 worker 不可用: "@ + e@,
{
    match outcome {
        Ok(()) => owned("开发模式使用 Python 源码 worker"),
        Err(e) => concat2("Python 源码 worker 不可用: ", e.as_str()),
    }
}

/// The files that the Python source worker of a development checkout needs:
/// its script and its model (ONNX on Windows, PyTorch elsewhere), under the
/// checkout's `ai-processor` directory.
pub fn development_source_files(repo_root: &LibPath, windows: bool) -> (r: (LibPath, LibPath))
    ensures
        r.0@ == joined(joined(repo_root@, "ai-processor"@), "desktop_worker.py"@),
        r.1@ == joined(joined(joined(repo_root@, "ai-processor"@), "weights"@), (if windows { "best.onnx"@ } else { "best.pt"@ })),
{
    let ai = repo_root.join("ai-processor");
    let script = ai.join("desktop_worker.py");
    let model = if windows {
        ai.join("weights").join("best.onnx")
    } else {
        ai.join("weights").join("best.pt")
    };
    (script, model)
}

/// Whether the Python source worker can run: its script exists, then its
/// model, then a Python with the worker's dependencies was found. A missing
/// file is reported with its path as shown (`script_shown`, `model_shown`).
pub fn validate_development_source_runtime(
    script_exists: bool,
    model_exists: bool,
    python_found: bool,
    script_shown: &str,
    model_shown: &str,
) -> (r: Result<(), String>)
    ensures
        !script_exists ==> (r matches Err(e) && e@ == "缺少 "@ + script_shown@),
        script_exists && !model_exists ==> (r matches Err(e) && e@ == "缺少 "@ + model_shown@),
        script_exists && model_exists && !python_found ==> (r matches Err(e) && e@
            == "未找到已安装 worker 依赖的 Python 环境"@),
        script_exists && model_exists && python_found ==> r is Ok,
{
    if !script_exists {
        return Err(concat2("缺少 ", script_shown));
    }
    if !model_exists {
        return Err(concat2("缺少 ", model_shown));
    }
    if !python_found {
        return Err(owned("未找到已安装 worker 依赖的 Python 环境"));
    }
    Ok(())
}

} // verus!

verus! {

/// An entry of the directory that holds the Windows runtime packages.
#[derive(Debug, Clone)]
pub struct RuntimeDirEntry {
    pub path: String,
    pub is_dir: bool,
}

/// The entries other than the active runtime's, in their order.
pub open spec fn inactive_entries(entries: Seq<RuntimeDirEntry>, active: Seq<char>) -> Seq<RuntimeDirEntry>
    decreases entries.len(),
{
    if entries.len() == 0 {
        entries
    } else {
        let init = inactive_entries(entries.drop_last(), active);
        if same_path(entries.last().path@, active) {
            init
        } else {
            init.push(entries.last())
        }
    }
}

/// Law: after a runtime package is activated, every entry of the platform
/// directory that is not the active runtime is removed, wherever it is
/// listed, and nothing else: what is removed comes from the listing and is
/// never the active runtime.
pub proof fn law_inactive_entries_all_removed(entries: Seq<RuntimeDirEntry>, active: Seq<char>)
    ensures
        forall|i: int|
            0 <= i < entries.len() && !same_path(entries[i].path@, active) ==> inactive_entries(entries, active).contains(
                #[trigger] entries[i],
            ),
        forall|j: int|
            0 <= j < inactive_entries(entries, active).len() ==> entries.contains(
                #[trigger] inactive_entries(entries, active)[j],
            ) && !same_path(inactive_entries(entries, active)[j].path@, active),
    decreases entries.len(),
{
    if entries.len() > 0 {
        let init = entries.drop_last();
        law_inactive_entries_all_removed(init, active);
        let r = inactive_entries(entries, active);
        let ri = inactive_entries(init, active);
        assert forall|i: int|
            0 <= i < entries.len() && !same_path(entries[i].path@, active) implies r.contains(#[trigger] entries[i]) by {
            if i < entries.len() - 1 {
                assert(init[i] == entries[i]);
                let k = choose|k: int| 0 <= k < ri.len() && ri[k] == init[i];
                if !same_path(entries.last().path@, active) {
                    assert(r[k] == ri[k]);
                } else {
                    assert(r == ri);
                }
            } else {
                assert(r[r.len() - 1] == entries[i]);
            }
        }
        assert forall|j: int| 0 <= j < r.len() implies entries.contains(#[trigger] r[j]) && !same_path(
            r[j].path@,
            active,
        ) by {
            if j < ri.len() {
                assert(r[j] == ri[j]);
                let k = choose|k: int| 0 <= k < init.len() && init[k] == ri[j];
                assert(entries[k] == init[k]);
            } else {
                assert(r[j] == entries.last());
                assert(entries[entries.len() - 1] == entries.last());
            }
        }
    }
}

/// What is removed after a runtime package is activated: every entry of the
/// platform directory (`entries`, where the directory exists) other than the
/// active runtime, each as a directory or a file.
pub fn cleanup_inactive_windows_runtimes(root_exists: bool, entries: &Vec<RuntimeDirEntry>, active: &str) -> (r: Vec<RuntimeDirEntry>)
    ensures
        !root_exists ==> r@.len() == 0,
        root_exists ==> r@ == inactive_entries(entries@, active@),
{
    let mut r: Vec<RuntimeDirEntry> = Vec::new();
    if !root_exists {
        return r;
    }
    let mut i: usize = 0;
    while i < entries.len()
        invariant
            i <= entries.len(),
            r@ == inactive_entries(entries@.take(i as int), active@),
        decreases entries.len() - i,
    {
        let e = &entries[i];
        proof {
            assert(entries@.take(i + 1).drop_last() =~= entries@.take(i as int));
            assert(entries@.take(i + 1).last() == entries@[i as int]);
        }
        if !path_eq(e.path.as_str(), active) {
            r.push(RuntimeDirEntry { path: e.path.clone(), is_dir: e.is_dir });
        }
        i += 1;
    }
    assert(entries@.take(entries.len() as int) =~= entries@);
    r
}

/// Why a runtime package cannot be imported.
#[derive(Debug, Clone)]
pub enum RuntimeImportError {
    /// This platform needs no Windows runtime package.
    NotWindows,
    /// There is no package at this path (as shown).
    PackageMissing(String),
}

impl RuntimeImportError {
    /// The message shown to the user.
    pub fn message(&self) -> (r: String)
        ensures
            self is NotWindows ==> r@ == "当前平台不需要导入 Windows 算法包"@,
            self matches RuntimeImportError::PackageMissing(p) ==> r@ == "算法包不存在: "@ + p@,
    {
        match self {
            RuntimeImportError::NotWindows => owned("当前平台不需要导入 Windows 算法包"),
            RuntimeImportError::PackageMissing(p) => concat2("算法包不存在: ", p.as_str()),
        }
    }
}

/// Whether a runtime package may be imported: only on Windows, and only
/// where the package exists (`zip_shown` is its path as shown).
pub fn check_runtime_import(windows: bool, zip_exists: bool, zip_shown: &str) -> (r: Result<(), RuntimeImportError>)
    ensures
        !windows ==> (r matches Err(RuntimeImportError::NotWindows)),
        windows && !zip_exists ==> (r matches Err(RuntimeImportError::PackageMissing(p)) && p@ == zip_shown@),
        windows && zip_exists ==> r is Ok,
{
    if !windows {
        return Err(RuntimeImportError::NotWindows);
    }
    if !zip_exists {
        return Err(RuntimeImportError::PackageMissing(owned(zip_shown)));
    }
    Ok(())
}

/// The directory a package is unpacked into before it is checked: a
/// `.import-<id>` directory of the platform directory, `id` being fresh.
pub fn import_temp_dir(platform_root: &LibPath, id: &str) -> (r: LibPath)
    ensures
        r@ == joined(platform_root@, ".import-"@ + id@),
{
    let name = concat2(".import-", id);
    platform_root.join(name.as_str())
}

} // verus!

verus! {

/// The SHA-256 digest of `data` in lower-case hexadecimal, as runtime
/// packages and their files are checked.
pub fn sha256_hex(data: &[u8]) -> (r: String)
    ensures
        r@ == hex_lower(crate::trusted::sha256_digest(data@)),
        r@.len() == 64,
{
    let d = crate::trusted::sha256(data);
    let r = digest_hex(d.as_slice());
    proof {
        lemma_hex_lower_len(d@);
    }
    r
}

proof fn lemma_hex_lower_len(b: Seq<u8>)
    ensures
        hex_lower(b).len() == 2 * b.len(),
    decreases b.len(),
{
    if b.len() > 0 {
        lemma_hex_lower_len(b.drop_last());
    }
}

/// A fresh directory to unpack a runtime package into (see
/// `import_temp_dir`), named by a random UUID.
pub fn new_import_temp_dir(platform_root: &LibPath) -> (r: LibPath)
    ensures
        exists|id: Seq<char>| id.len() == 36 && r@ == joined(platform_root@, ".import-"@ + id),
{
    let id = crate::trusted::new_uuid_v4();
    import_temp_dir(platform_root, id.as_str())
}

} // verus!

verus! {

/// The error for a required runtime file that is missing (`shown` is its
/// path as shown).
pub fn missing_runtime_file_message(shown: &str) -> (r: String)
    ensures
        r@ == "算法包缺少文件: "@ + shown@,
{
    concat2("算法包缺少文件: ", shown)
}

/// The error for a file that the manifest lists but the package lacks.
pub fn missing_manifest_file_message(path: &str) -> (r: String)
    ensures
        r@ == "算法包缺少 manifest 文件: "@ + path@,
{
    concat2("算法包缺少 manifest 文件: ", path)
}

} // verus!
