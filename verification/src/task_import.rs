//! Importing a video as a new task: the default settings, the task's name,
//! which files can be imported, the timeout threshold, and whether the video
//! must be transcoded before it is analysed.

use vstd::prelude::*;
use crate::paths::seg_views;
use crate::text::{
    ascii_lower, ascii_lower_chars, chars_of, concat2, contains_chars, contains_seq, i64_parse_outcome,
    int_error_text, occurs_at, owned, parse_i64_detailed, split_chars, split_on, str_eq, string_of, IntErrorKind,
};
use crate::trusted::{extension, file_stem, path_extension, path_file_stem};

verus! {

/// The analysis settings that may come with an import; what is missing
/// takes its default.
#[derive(Debug, Clone)]
pub struct TaskConfigInput {
    pub timeout_ratio: Option<String>,
    pub enable_preprocessing: Option<bool>,
    pub preprocessing_strength: Option<String>,
    pub preprocessing_enhance_pool: Option<bool>,
    pub enable_dynamic_metrics: Option<bool>,
}

/// `o` holds a string whose characters are `s`.
pub open spec fn holds_str(o: Option<String>, s: Seq<char>) -> bool {
    o matches Some(v) && v@ == s
}

/// The settings used when an import brings none: a timeout of four times the
/// video's length, no preprocessing, moderate strength, no pool enhancement,
/// and the dynamic metrics on.
pub fn default_task_config_input() -> (r: TaskConfigInput)
    ensures
        holds_str(r.timeout_ratio, "1:4"@),
        r.enable_preprocessing == Some(false),
        holds_str(r.preprocessing_strength, "moderate"@),
        r.preprocessing_enhance_pool == Some(false),
        r.enable_dynamic_metrics == Some(true),
{
    TaskConfigInput {
        timeout_ratio: Some(owned("1:4")),
        enable_preprocessing: Some(false),
        preprocessing_strength: Some(owned("moderate")),
        preprocessing_enhance_pool: Some(false),
        enable_dynamic_metrics: Some(true),
    }
}

/// The settings a task is created with.
#[derive(Debug, Clone)]
pub struct TaskSettings {
    pub timeout_ratio: String,
    pub enable_preprocessing: bool,
    pub preprocessing_strength: String,
    pub preprocessing_enhance_pool: bool,
    pub enable_dynamic_metrics: bool,
}

pub open spec fn str_or(o: Option<String>, d: Seq<char>) -> Seq<char> {
    match o {
        Some(v) => v@,
        None => d,
    }
}

pub open spec fn bool_or(o: Option<bool>, d: bool) -> bool {
    match o {
        Some(v) => v,
        None => d,
    }
}

fn take_str_or(o: Option<String>, d: &str) -> (r: String)
    ensures
        r@ == str_or(o, d@),
{
    match o {
        Some(v) => v,
        None => owned(d),
    }
}

/// The settings of a new task: those given, each missing one by its default
/// (when no settings are given at all, all are defaults); pool enhancement
/// only with preprocessing.
pub fn resolve_task_config(config: Option<TaskConfigInput>) -> (r: TaskSettings)
    ensures
        config is None ==> {
            &&& r.timeout_ratio@ == "1:4"@
            &&& !r.enable_preprocessing
            &&& r.preprocessing_strength@ == "moderate"@
            &&& !r.preprocessing_enhance_pool
            &&& r.enable_dynamic_metrics
        },
        config matches Some(c) ==> {
            &&& r.timeout_ratio@ == str_or(c.timeout_ratio, "1:4"@)
            &&& r.enable_preprocessing == bool_or(c.enable_preprocessing, false)
            &&& r.preprocessing_strength@ == str_or(c.preprocessing_strength, "moderate"@)
            &&& r.preprocessing_enhance_pool == (r.enable_preprocessing && bool_or(c.preprocessing_enhance_pool, false))
            &&& r.enable_dynamic_metrics == bool_or(c.enable_dynamic_metrics, true)
        },
{
    let c = match config {
        Some(c) => c,
        None => default_task_config_input(),
    };
    let enable_preprocessing = match c.enable_preprocessing {
        Some(b) => b,
        None => false,
    };
    let preprocessing_enhance_pool = if enable_preprocessing {
        match c.preprocessing_enhance_pool {
            Some(b) => b,
            None => false,
        }
    } else {
        false
    };
    let enable_dynamic_metrics = match c.enable_dynamic_metrics {
        Some(b) => b,
        None => true,
    };
    TaskSettings {
        timeout_ratio: take_str_or(c.timeout_ratio, "1:4"),
        enable_preprocessing,
        preprocessing_strength: take_str_or(c.preprocessing_strength, "moderate"),
        preprocessing_enhance_pool,
        enable_dynamic_metrics,
    }
}

/// The name a task gets from the stem of its video's file name; an absent or
/// empty stem gives "未命名任务".
pub open spec fn task_name_spec(stem: Option<Seq<char>>) -> Seq<char> {
    match stem {
        Some(s) => if s.len() > 0 { s } else { "未命名任务"@ },
        None => "未命名任务"@,
    }
}

/// The task name for a file stem (see `task_name_spec`).
pub fn task_name_from_stem(stem: Option<&str>) -> (r: String)
    ensures
        match stem {
            Some(s) => r@ == task_name_spec(Some(s@)),
            None => r@ == task_name_spec(None),
        },
{
    match stem {
        Some(s) => {
            if chars_of(s).len() == 0 {
                owned("未命名任务")
            } else {
                owned(s)
            }
        },
        None => owned("未命名任务"),
    }
}

/// The name of a task imported from `source_path` when none is given: the
/// file stem of the path.
pub fn default_task_name(source_path: &str) -> (r: String)
    ensures
        r@ == task_name_spec(path_file_stem(source_path@)),
{
    let stem = file_stem(source_path);
    match stem {
        Some(s) => task_name_from_stem(Some(s.as_str())),
        None => task_name_from_stem(None),
    }
}

/// The extension of `path` in ASCII lower case; empty when there is none.
pub open spec fn import_extension_spec(path: Seq<char>) -> Seq<char> {
    match path_extension(path) {
        Some(e) => ascii_lower(e),
        None => Seq::<char>::empty(),
    }
}

/// The lower-cased extension of the video at `source_path`.
pub fn import_extension(source_path: &str) -> (r: String)
    ensures
        r@ == import_extension_spec(source_path@),
{
    match extension(source_path) {
        Some(e) => {
            let v = chars_of(e.as_str());
            let l = ascii_lower_chars(v.as_slice());
            string_of(l.as_slice())
        },
        None => String::new(),
    }
}

/// The video formats that can be imported.
pub open spec fn importable_extension(e: Seq<char>) -> bool {
    e == "mp4"@ || e == "mov"@ || e == "avi"@ || e == "mkv"@
}

/// Why a video cannot be imported.
#[derive(Debug, Clone, Copy, PartialEq, Eq)]
pub enum ImportError {
    SourceMissing,
    UnsupportedFormat,
}

impl ImportError {
    /// The message shown to the user.
    pub fn message(&self) -> (r: String)
        ensures
            *self == ImportError::SourceMissing ==> r@ == "源视频文件不存在"@,
            *self == ImportError::UnsupportedFormat ==> r@ == "不支持的视频格式，仅支持 mp4/mov/avi/mkv"@,
    {
        match self {
            ImportError::SourceMissing => owned("源视频文件不存在"),
            ImportError::UnsupportedFormat => owned("不支持的视频格式，仅支持 mp4/mov/avi/mkv"),
        }
    }
}

/// Whether a video can be imported: it must exist (checked first), and its
/// lower-cased extension must be one of mp4, mov, avi and mkv.
pub fn check_import_source(source_exists: bool, extension: &str) -> (r: Result<(), ImportError>)
    ensures
        !source_exists ==> r == Err::<(), ImportError>(ImportError::SourceMissing),
        source_exists && !importable_extension(extension@) ==> r == Err::<(), ImportError>(ImportError::UnsupportedFormat),
        source_exists && importable_extension(extension@) ==> r is Ok,
{
    if !source_exists {
        return Err(ImportError::SourceMissing);
    }
    if str_eq(extension, "mp4") || str_eq(extension, "mov") || str_eq(extension, "avi") || str_eq(extension, "mkv") {
        Ok(())
    } else {
        Err(ImportError::UnsupportedFormat)
    }
}

/// Where the copy of the imported video is kept, relative to the task's
/// directory: `input/original.<extension>`.
pub fn original_rel_path(extension: &str) -> (r: String)
    ensures
        r@ == "input/original."@ + extension@,
{
    concat2("input/original.", extension)
}

/// Where the transcoded analysis input is kept, relative to the task's
/// directory; none when the original can be analysed as it is.
pub fn analysis_input_rel_path(web_friendly: bool) -> (r: Option<String>)
    ensures
        web_friendly ==> r is None,
        !web_friendly ==> holds_str(r, "work/analysis_input.mp4"@),
{
    if web_friendly {
        None
    } else {
        Some(owned("work/analysis_input.mp4"))
    }
}

/// Whether the video can be analysed as it is: an mp4 or mov file whose codec
/// name (in ASCII lower case) names H.264 or HEVC.
pub open spec fn web_friendly_spec(path: Seq<char>, codec: Seq<char>) -> bool {
    let ext = import_extension_spec(path);
    let c = ascii_lower(codec);
    (ext == "mp4"@ || ext == "mov"@) && (contains_seq(c, "h264"@) || contains_seq(c, "264"@) || contains_seq(
        c,
        "avc"@,
    ) || contains_seq(c, "hevc"@) || contains_seq(c, "h265"@))
}

/// Whether the video at `path`, with the codec that ffprobe reported, can be
/// analysed without transcoding (an unknown codec counts as empty).
pub fn is_web_friendly_codec(path: &str, codec_name: Option<&str>) -> (r: bool)
    ensures
        match codec_name {
            Some(c) => r == web_friendly_spec(path@, c@),
            None => r == web_friendly_spec(path@, Seq::<char>::empty()),
        },
{
    let ext = import_extension(path);
    let raw = match codec_name {
        Some(c) => chars_of(c),
        None => Vec::new(),
    };
    let codec = ascii_lower_chars(raw.as_slice());
    let container = str_eq(ext.as_str(), "mp4") || str_eq(ext.as_str(), "mov");
    let h264 = chars_of("h264");
    let n264 = chars_of("264");
    let avc = chars_of("avc");
    let hevc = chars_of("hevc");
    let h265 = chars_of("h265");
    let c = codec.as_slice();
    container && (contains_chars(c, h264.as_slice()) || contains_chars(c, n264.as_slice()) || contains_chars(
        c,
        avc.as_slice(),
    ) || contains_chars(c, hevc.as_slice()) || contains_chars(c, h265.as_slice()))
}

/// Law: only a video in an mp4 or mov container can go to the analysis
/// without transcoding. Whatever its codec, a video whose lower-cased
/// extension is neither `mp4` nor `mov` is transcoded; and an mp4 or mov
/// video whose codec is H.264 (`h264`) or HEVC (`hevc`), in any letter case,
/// is not.
pub proof fn law_web_friendly_needs_mp4_or_mov(path: Seq<char>, codec: Seq<char>)
    ensures
        import_extension_spec(path) != "mp4"@ && import_extension_spec(path) != "mov"@ ==> !web_friendly_spec(
            path,
            codec,
        ),
        web_friendly_spec(path, codec) ==> import_extension_spec(path) == "mp4"@ || import_extension_spec(path)
            == "mov"@,
        (import_extension_spec(path) == "mp4"@ || import_extension_spec(path) == "mov"@) && (ascii_lower(codec)
            == "h264"@ || ascii_lower(codec) == "hevc"@) ==> web_friendly_spec(path, codec),
{
    reveal_strlit("h264");
    reveal_strlit("hevc");
    let c = ascii_lower(codec);
    if c == "h264"@ {
        assert(c.subrange(0, 4) =~= c);
        assert(occurs_at(c, "h264"@, 0));
    }
    if c == "hevc"@ {
        assert(c.subrange(0, 4) =~= c);
        assert(occurs_at(c, "hevc"@, 0));
    }
}

fn push_arg(args: &mut Vec<String>, s: &str)
    ensures
        seg_views(final(args)@) == seg_views(old(args)@).push(s@),
{
    args.push(owned(s));
    assert(seg_views(args@) =~= seg_views(old(args)@).push(s@));
}

/// The ffmpeg arguments that transcode `source` into an H.264/AAC mp4 at
/// `target`, ready for streaming, overwriting it.
pub fn normalize_analysis_input(source: &str, target: &str) -> (r: Vec<String>)
    ensures
        seg_views(r@) == seq![
            "-i"@, source@, "-c:v"@, "libx264"@, "-preset"@, "medium"@, "-crf"@, "23"@, "-c:a"@, "aac"@,
            "-movflags"@, "+faststart"@, "-y"@, target@,
        ],
{
    let mut a: Vec<String> = Vec::new();
    assert(seg_views(a@) =~= Seq::<Seq<char>>::empty());
    push_arg(&mut a, "-i");
    push_arg(&mut a, source);
    push_arg(&mut a, "-c:v");
    push_arg(&mut a, "libx264");
    push_arg(&mut a, "-preset");
    push_arg(&mut a, "medium");
    push_arg(&mut a, "-crf");
    push_arg(&mut a, "23");
    push_arg(&mut a, "-c:a");
    push_arg(&mut a, "aac");
    push_arg(&mut a, "-movflags");
    push_arg(&mut a, "+faststart");
    push_arg(&mut a, "-y");
    push_arg(&mut a, target);
    assert(seg_views(a@) =~= seq![
        "-i"@, source@, "-c:v"@, "libx264"@, "-preset"@, "medium"@, "-crf"@, "23"@, "-c:a"@, "aac"@,
        "-movflags"@, "+faststart"@, "-y"@, target@,
    ]);
    a
}

} // verus!

verus! {

/// Why a timeout ratio ("numerator:denominator") was refused.
#[derive(Debug, Clone, Copy, PartialEq, Eq)]
pub enum TimeoutRatioError {
    /// There is no second part.
    Invalid,
    /// A part is not an integer.
    Parse(IntErrorKind),
    /// A part is zero or negative.
    NotPositive,
}

impl TimeoutRatioError {
    /// The message shown to the user.
    pub fn message(&self) -> (r: String)
        ensures
            *self == TimeoutRatioError::Invalid ==> r@ == "无效超时比例"@,
            self matches TimeoutRatioError::Parse(k) ==> r@ == int_error_text(*k),
            *self == TimeoutRatioError::NotPositive ==> r@ == "超时比例必须为正整数"@,
    {
        match self {
            TimeoutRatioError::Invalid => owned("无效超时比例"),
            TimeoutRatioError::Parse(k) => k.message(),
            TimeoutRatioError::NotPositive => owned("超时比例必须为正整数"),
        }
    }
}

/// Integer division rounding toward zero, as Rust's `/` on integers.
pub open spec fn trunc_div(a: int, b: int) -> int {
    if a >= 0 {
        a / b
    } else {
        -((-a) / b)
    }
}

/// The timeout threshold for a video of `duration` seconds and a ratio
/// "n:m" (further parts are ignored): `duration * m / n`, once the first part
/// parses, there is a second part, it parses, and both are positive; the
/// first failing check decides the error.
pub open spec fn timeout_ratio_outcome(s: Seq<char>, duration: int) -> Result<int, TimeoutRatioError> {
    let p = split_on(s, ':');
    match i64_parse_outcome(p[0]) {
        Err(e) => Err(TimeoutRatioError::Parse(e)),
        Ok(n) => if p.len() < 2 {
            Err(TimeoutRatioError::Invalid)
        } else {
            match i64_parse_outcome(p[1]) {
                Err(e) => Err(TimeoutRatioError::Parse(e)),
                Ok(m) => if n <= 0 || m <= 0 {
                    Err(TimeoutRatioError::NotPositive)
                } else {
                    Ok(trunc_div(duration * m, n))
                },
            }
        },
    }
}

/// Where a ratio "n:m" is accepted, `duration * m` fits in an `i64`.
pub open spec fn timeout_product_fits(s: Seq<char>, duration: int) -> bool {
    let p = split_on(s, ':');
    p.len() >= 2 ==> match (i64_parse_outcome(p[0]), i64_parse_outcome(p[1])) {
        (Ok(n), Ok(m)) => n > 0 && m > 0 ==> i64::MIN <= duration * m <= i64::MAX,
        _ => true,
    }
}

fn trunc_div_exec(a: i64, b: i64) -> (r: i64)
    requires
        b > 0,
    ensures
        r == trunc_div(a as int, b as int),
{
    if a >= 0 {
        ((a as u64) / (b as u64)) as i64
    } else {
        let na: u128 = (-(a as i128)) as u128;
        let q: u128 = na / (b as u128);
        assert(q <= na) by (nonlinear_arith)
            requires
                q == na / (b as u128),
                b >= 1,
        ;
        (-(q as i128)) as i64
    }
}

/// The timeout threshold, in seconds, for a video of `video_duration`
/// seconds analysed with the ratio `timeout_ratio` (see
/// `timeout_ratio_outcome`).
pub fn parse_timeout_ratio(timeout_ratio: &str, video_duration: i64) -> (r: Result<i64, TimeoutRatioError>)
    requires
        timeout_product_fits(timeout_ratio@, video_duration as int),
    ensures
        match r {
            Ok(v) => timeout_ratio_outcome(timeout_ratio@, video_duration as int) == Ok::<int, TimeoutRatioError>(
                v as int,
            ),
            Err(e) => timeout_ratio_outcome(timeout_ratio@, video_duration as int) == Err::<int, TimeoutRatioError>(
                e,
            ),
        },
{
    let chars = chars_of(timeout_ratio);
    let parts = split_chars(chars.as_slice(), ':');
    let ghost p = split_on(timeout_ratio@, ':');
    assert(parts@[0]@ == p[0]);
    let n = match parse_i64_detailed(parts[0].as_slice()) {
        Ok(v) => v,
        Err(e) => {
            return Err(TimeoutRatioError::Parse(e));
        },
    };
    if parts.len() < 2 {
        return Err(TimeoutRatioError::Invalid);
    }
    assert(parts@[1]@ == p[1]);
    let m = match parse_i64_detailed(parts[1].as_slice()) {
        Ok(v) => v,
        Err(e) => {
            return Err(TimeoutRatioError::Parse(e));
        },
    };
    if n <= 0 || m <= 0 {
        return Err(TimeoutRatioError::NotPositive);
    }
    let product: i64 = video_duration * m;
    Ok(trunc_div_exec(product, n))
}

} // verus!

verus! {

/// Whether a batch import may begin: a batch that starts its tasks at once
/// waits while a queue recovery is pending.
pub fn check_import_batch(auto_start: Option<bool>, recovery_pending: bool) -> (r: Result<(), String>)
    ensures
        (auto_start == Some(true) && recovery_pending) ==> (r matches Err(e) && e@ == "存在待恢复的排队任务，请先处理恢复弹窗"@),
        !(auto_start == Some(true) && recovery_pending) ==> r is Ok,
{
    let auto = match auto_start {
        Some(b) => b,
        None => false,
    };
    if auto && recovery_pending {
        Err(owned("存在待恢复的排队任务，请先处理恢复弹窗"))
    } else {
        Ok(())
    }
}

/// The name under which a file that failed to import is reported: its file
/// name, or the whole path where it has none.
pub fn import_failure_file_name(file_path: &str) -> (r: String)
    ensures
        r@ == match crate::trusted::path_file_name(file_path@) {
            Some(n) => n,
            None => file_path@,
        },
{
    match crate::trusted::file_name(file_path) {
        Some(n) => n,
        None => owned(file_path),
    }
}

/// The ids of the created tasks that are queued at once: those that parse as
/// integers, in order, where the batch starts its tasks and created any.
pub open spec fn ids_to_enqueue(ids: Seq<Seq<char>>) -> Seq<i64>
    decreases ids.len(),
{
    if ids.len() == 0 {
        Seq::<i64>::empty()
    } else {
        let init = ids_to_enqueue(ids.drop_last());
        match i64_parse_outcome(ids.last()) {
            Ok(v) => init.push(v as i64),
            Err(_) => init,
        }
    }
}

/// The task ids to queue after a batch import (see `ids_to_enqueue`); none
/// unless the batch starts its tasks.
pub fn tasks_to_enqueue(auto_start: Option<bool>, created_ids: &Vec<String>) -> (r: Vec<i64>)
    ensures
        auto_start == Some(true) ==> r@ == ids_to_enqueue(seg_views(created_ids@)),
        auto_start != Some(true) ==> r@.len() == 0,
{
    let mut r: Vec<i64> = Vec::new();
    let auto = match auto_start {
        Some(b) => b,
        None => false,
    };
    if !auto {
        return r;
    }
    let mut i: usize = 0;
    while i < created_ids.len()
        invariant
            i <= created_ids.len(),
            r@ == ids_to_enqueue(seg_views(created_ids@.take(i as int))),
        decreases created_ids.len() - i,
    {
        let ghost before = seg_views(created_ids@.take(i as int));
        let chars = chars_of(created_ids[i].as_str());
        match parse_i64_detailed(chars.as_slice()) {
            Ok(v) => r.push(v),
            Err(_) => {},
        }
        i += 1;
        proof {
            let now = seg_views(created_ids@.take(i as int));
            assert(now.drop_last() =~= before);
            assert(now.last() == created_ids@[i - 1]@);
        }
    }
    assert(created_ids@.take(created_ids.len() as int) =~= created_ids@);
    r
}

} // verus!
