//! Reading what `nvidia-smi` prints: the GPU load and memory line of the
//! resource probe, and the driver version that the runtime self-check asks for.

use vstd::prelude::*;
use crate::text::{
    all_digits, ascii_lower, concat2, ascii_lower_chars, chars_eq, chars_of, is_digit, is_digit_char,
    before_first, before_first_chars, owned, parse_u64_chars, push_str, parse_unsigned, split_chars, split_on, string_of, trim, trim_chars, views,
};

verus! {

/// One mebibyte, the unit in which `nvidia-smi` reports memory.
pub const MIB_BYTES: u64 = 1048576;

/// The smallest NVIDIA driver major version that the Windows runtime accepts.
pub const MIN_NVIDIA_VIDEO_CODEC_DRIVER_MAJOR: u32 = 570;

/// The first line of `lines` that holds more than white space.
pub open spec fn first_nonblank_line(lines: Seq<Seq<char>>) -> Option<Seq<char>>
    decreases lines.len(),
{
    if lines.len() == 0 {
        None
    } else if trim(lines[0]).len() > 0 {
        Some(lines[0])
    } else {
        first_nonblank_line(lines.drop_first())
    }
}

/// A leading `+` or `-` removed.
pub open spec fn strip_sign(s: Seq<char>) -> Seq<char> {
    if s.len() > 0 && (s[0] == '+' || s[0] == '-') {
        s.drop_first()
    } else {
        s
    }
}

pub open spec fn is_exp_mark(c: char) -> bool {
    c == 'e' || c == 'E'
}

/// Digits with at most one `.` among them, and at least one digit: the
/// `Digit+ | Digit+ '.' Digit* | Digit* '.' Digit+` part of the float grammar.
pub open spec fn mantissa_syntax(m: Seq<char>) -> bool {
    &&& forall|i: int| 0 <= i < m.len() ==> is_digit(#[trigger] m[i]) || m[i] == '.'
    &&& forall|i: int, j: int| 0 <= i < j < m.len() && m[i] == '.' ==> m[j] != '.'
    &&& exists|i: int| 0 <= i < m.len() && is_digit(#[trigger] m[i])
}

/// `Sign? Digit+`.
pub open spec fn exponent_syntax(x: Seq<char>) -> bool {
    strip_sign(x).len() > 0 && all_digits(strip_sign(x))
}

/// A mantissa, then optionally `e` or `E` and an exponent.
pub open spec fn number_syntax(b: Seq<char>) -> bool {
    ||| (forall|i: int| 0 <= i < b.len() ==> !is_exp_mark(#[trigger] b[i])) && mantissa_syntax(b)
    ||| exists|k: int|
        0 <= k < b.len() && is_exp_mark(#[trigger] b[k]) && (forall|j: int|
            0 <= j < k ==> !is_exp_mark(#[trigger] b[j])) && mantissa_syntax(b.take(k))
            && exponent_syntax(b.skip(k + 1))
}

/// The strings that `str::parse::<f64>()` accepts: an optional sign, then
/// `inf`, `infinity`, `nan` (in any case) or a decimal number.
pub open spec fn float_syntax(s: Seq<char>) -> bool {
    let b = strip_sign(s);
    ||| ascii_lower(b) == "inf"@
    ||| ascii_lower(b) == "infinity"@
    ||| ascii_lower(b) == "nan"@
    ||| number_syntax(b)
}

/// A count of mebibytes in bytes, saturating at `u64::MAX`.
pub open spec fn mib_to_bytes(mib: nat) -> nat {
    if mib * 1048576 > 0xffff_ffff_ffff_ffff {
        0xffff_ffff_ffff_ffff
    } else {
        mib * 1048576
    }
}

/// The comma separated fields of a line, each trimmed.
pub open spec fn csv_fields(line: Seq<char>) -> Seq<Seq<char>> {
    split_on(line, ',').map_values(|p: Seq<char>| trim(p))
}

pub open spec fn u64_value(s: Seq<char>) -> Option<nat> {
    parse_unsigned(s, 0x1_0000_0000_0000_0000)
}

/// One reading of the GPU: its load as `nvidia-smi` printed it, and its memory.
#[derive(Debug, Clone)]
pub struct GpuProbeSnapshot {
    /// The utilisation field, a decimal number (`f64` syntax) in percent.
    pub percent_text: String,
    pub memory_used_bytes: u64,
    pub memory_total_bytes: u64,
}

/// Why a line of `nvidia-smi` output was refused.
#[derive(Debug, Clone)]
pub enum GpuProbeError {
    /// The output holds no line with text.
    EmptyOutput,
    /// The line does not have exactly three columns.
    BadColumnCount(String),
    /// The utilisation is not a number.
    BadPercent(String),
    /// The used memory is not an unsigned integer.
    BadMemoryUsed(String),
    /// The total memory is not an unsigned integer.
    BadMemoryTotal(String),
    /// The total memory is zero.
    ZeroTotalMemory,
}

/// What `parse_nvidia_smi_csv` gives for the output `raw`.
pub open spec fn nvidia_smi_csv_result(raw: Seq<char>, r: Result<GpuProbeSnapshot, GpuProbeError>) -> bool {
    match first_nonblank_line(split_on(raw, '\n')) {
        None => r matches Err(GpuProbeError::EmptyOutput),
        Some(l) => {
            let line = trim(l);
            let f = csv_fields(line);
            if f.len() != 3 {
                r matches Err(GpuProbeError::BadColumnCount(x)) && x@ == line
            } else if !float_syntax(f[0]) {
                r matches Err(GpuProbeError::BadPercent(x)) && x@ == f[0]
            } else if u64_value(f[1]) is None {
                r matches Err(GpuProbeError::BadMemoryUsed(x)) && x@ == f[1]
            } else if u64_value(f[2]) is None {
                r matches Err(GpuProbeError::BadMemoryTotal(x)) && x@ == f[2]
            } else if u64_value(f[2]) == Some(0nat) {
                r matches Err(GpuProbeError::ZeroTotalMemory)
            } else {
                r matches Ok(s) && s.percent_text@ == f[0] && s.memory_used_bytes == mib_to_bytes(
                    u64_value(f[1]).unwrap(),
                ) && s.memory_total_bytes == mib_to_bytes(u64_value(f[2]).unwrap())
            }
        },
    }
}

/// The index of the first line with text, or `lines.len()`.
fn first_nonblank_index(lines: &Vec<Vec<char>>) -> (k: usize)
    ensures
        k <= lines.len(),
        k < lines.len() ==> first_nonblank_line(views(lines@)) == Some(lines@[k as int]@),
        k == lines.len() ==> first_nonblank_line(views(lines@)) is None,
{
    let mut k: usize = 0;
    assert(views(lines@).skip(0) == views(lines@));
    while k < lines.len()
        invariant
            k <= lines.len(),
            first_nonblank_line(views(lines@)) == first_nonblank_line(views(lines@).skip(k as int)),
        decreases lines.len() - k,
    {
        let t = trim_chars(lines[k].as_slice());
        assert(views(lines@).skip(k as int)[0] == lines@[k as int]@);
        if t.len() > 0 {
            return k;
        }
        assert(views(lines@).skip(k as int).drop_first() == views(lines@).skip(k + 1));
        k += 1;
    }
    assert(views(lines@).skip(k as int).len() == 0);
    k
}

fn strip_sign_chars(s: &[char]) -> (r: Vec<char>)
    ensures
        r@ == strip_sign(s@),
{
    let start: usize = if s.len() > 0 && (s[0] == '+' || s[0] == '-') { 1 } else { 0 };
    let mut r: Vec<char> = Vec::new();
    let mut i: usize = start;
    while i < s.len()
        invariant
            start <= i <= s.len(),
            r@ == s@.subrange(start as int, i as int),
        decreases s.len() - i,
    {
        r.push(s[i]);
        i += 1;
        assert(r@ =~= s@.subrange(start as int, i as int));
    }
    assert(r@ =~= strip_sign(s@));
    r
}

fn mantissa_ok(m: &[char]) -> (r: bool)
    ensures
        r == mantissa_syntax(m@),
{
    let mut seen_dot = false;
    let mut seen_digit = false;
    let mut i: usize = 0;
    while i < m.len()
        invariant
            i <= m.len(),
            forall|j: int| 0 <= j < i ==> is_digit(#[trigger] m@[j]) || m@[j] == '.',
            forall|a: int, b: int| 0 <= a < b < i && m@[a] == '.' ==> m@[b] != '.',
            seen_dot == (exists|j: int| 0 <= j < i && m@[j] == '.'),
            seen_digit == (exists|j: int| 0 <= j < i && is_digit(#[trigger] m@[j])),
        decreases m.len() - i,
    {
        let c = m[i];
        if c == '.' {
            if seen_dot {
                let ghost a = choose|j: int| 0 <= j < i && m@[j] == '.';
                assert(!(forall|x: int, y: int| 0 <= x < y < m.len() && m@[x] == '.' ==> m@[y] != '.'));
                return false;
            }
            seen_dot = true;
        } else if is_digit_char(c) {
            seen_digit = true;
        } else {
            assert(!(is_digit(m@[i as int]) || m@[i as int] == '.'));
            return false;
        }
        i += 1;
    }
    seen_digit
}

fn exponent_ok(x: &[char]) -> (r: bool)
    ensures
        r == exponent_syntax(x@),
{
    let y = strip_sign_chars(x);
    if y.len() == 0 {
        return false;
    }
    let mut i: usize = 0;
    while i < y.len()
        invariant
            i <= y.len(),
            y@ == strip_sign(x@),
            forall|j: int| 0 <= j < i ==> is_digit(#[trigger] y@[j]),
        decreases y.len() - i,
    {
        if !is_digit_char(y[i]) {
            assert(!is_digit(y@[i as int]));
            return false;
        }
        i += 1;
    }
    true
}

fn slice_range(s: &[char], from: usize, to: usize) -> (r: Vec<char>)
    requires
        from <= to <= s.len(),
    ensures
        r@ == s@.subrange(from as int, to as int),
{
    let mut r: Vec<char> = Vec::new();
    let mut i: usize = from;
    while i < to
        invariant
            from <= i <= to <= s.len(),
            r@ == s@.subrange(from as int, i as int),
        decreases to - i,
    {
        r.push(s[i]);
        i += 1;
        assert(r@ =~= s@.subrange(from as int, i as int));
    }
    r
}

/// Whether `s` is a number in the syntax that `str::parse::<f64>()` accepts.
pub fn is_float_syntax(s: &[char]) -> (r: bool)
    ensures
        r == float_syntax(s@),
{
    let b = strip_sign_chars(s);
    let lower = ascii_lower_chars(b.as_slice());
    let inf = chars_of("inf");
    let infinity = chars_of("infinity");
    let nan = chars_of("nan");
    if chars_eq(lower.as_slice(), inf.as_slice()) || chars_eq(lower.as_slice(), infinity.as_slice())
        || chars_eq(lower.as_slice(), nan.as_slice()) {
        return true;
    }
    let mut k: usize = 0;
    while k < b.len() && !(b[k] == 'e' || b[k] == 'E')
        invariant
            k <= b.len(),
            forall|j: int| 0 <= j < k ==> !is_exp_mark(#[trigger] b@[j]),
        decreases b.len() - k,
    {
        k += 1;
    }
    if k == b.len() {
        let ok = mantissa_ok(b.as_slice());
        proof {
            if !ok {
                assert forall|k2: int| 0 <= k2 < b@.len() implies !is_exp_mark(#[trigger] b@[k2]) by {}
            }
        }
        ok
    } else {
        let m = slice_range(b.as_slice(), 0, k);
        let x = slice_range(b.as_slice(), k + 1, b.len());
        assert(m@ == b@.take(k as int));
        assert(x@ == b@.skip(k + 1));
        let ok = mantissa_ok(m.as_slice()) && exponent_ok(x.as_slice());
        proof {
            if !ok {
                assert forall|k2: int|
                    0 <= k2 < b@.len() && is_exp_mark(#[trigger] b@[k2]) && (forall|j: int|
                        0 <= j < k2 ==> !is_exp_mark(#[trigger] b@[j])) implies !(mantissa_syntax(
                    b@.take(k2)) && exponent_syntax(b@.skip(k2 + 1))) by {
                    if k2 < k {
                    } else if k2 > k {
                        assert(!is_exp_mark(b@[k as int]));
                    }
                }
            }
        }
        ok
    }
}

/// `n` mebibytes in bytes, saturating at `u64::MAX`.
pub fn mib_to_bytes_exec(n: u64) -> (r: u64)
    ensures
        r as nat == mib_to_bytes(n as nat),
{
    if n > 17592186044415 {
        u64::MAX
    } else {
        n * MIB_BYTES
    }
}

/// Reads the first line with text of `nvidia-smi --query-gpu=utilization.gpu,
/// memory.used,memory.total --format=csv,noheader,nounits`: three comma
/// separated columns, the load in percent and the used and total memory in
/// mebibytes, of which the total must not be zero.
pub fn parse_nvidia_smi_csv(raw: &str) -> (r: Result<GpuProbeSnapshot, GpuProbeError>)
    ensures
        nvidia_smi_csv_result(raw@, r),
{
    let chars = chars_of(raw);
    let lines = split_chars(chars.as_slice(), '\n');
    let k = first_nonblank_index(&lines);
    if k == lines.len() {
        return Err(GpuProbeError::EmptyOutput);
    }
    let line = trim_chars(lines[k].as_slice());
    let pieces = split_chars(line.as_slice(), ',');
    let mut fields: Vec<Vec<char>> = Vec::new();
    let mut i: usize = 0;
    while i < pieces.len()
        invariant
            i <= pieces.len(),
            fields.len() == i,
            forall|j: int| 0 <= j < i ==> #[trigger] fields@[j]@ == trim(pieces@[j]@),
        decreases pieces.len() - i,
    {
        let t = trim_chars(pieces[i].as_slice());
        fields.push(t);
        i += 1;
    }
    assert(views(fields@) =~= csv_fields(line@)) by {
        assert forall|j: int| 0 <= j < fields.len() implies views(fields@)[j] == csv_fields(line@)[j] by {
            assert(views(pieces@)[j] == pieces@[j]@);
        }
    }
    if fields.len() != 3 {
        return Err(GpuProbeError::BadColumnCount(string_of(line.as_slice())));
    }
    assert(views(fields@)[0] == fields@[0]@);
    assert(views(fields@)[1] == fields@[1]@);
    assert(views(fields@)[2] == fields@[2]@);
    if !is_float_syntax(fields[0].as_slice()) {
        return Err(GpuProbeError::BadPercent(string_of(fields[0].as_slice())));
    }
    let used = match parse_u64_chars(fields[1].as_slice()) {
        Some(v) => v,
        None => {
            return Err(GpuProbeError::BadMemoryUsed(string_of(fields[1].as_slice())));
        },
    };
    let total = match parse_u64_chars(fields[2].as_slice()) {
        Some(v) => v,
        None => {
            return Err(GpuProbeError::BadMemoryTotal(string_of(fields[2].as_slice())));
        },
    };
    if total == 0 {
        return Err(GpuProbeError::ZeroTotalMemory);
    }
    Ok(
        GpuProbeSnapshot {
            percent_text: string_of(fields[0].as_slice()),
            memory_used_bytes: mib_to_bytes_exec(used),
            memory_total_bytes: mib_to_bytes_exec(total),
        },
    )
}

/// The driver version that `nvidia-smi --query-gpu=driver_version,name
/// --format=csv,noheader` printed: the first column of its first line with
/// text, trimmed.
pub open spec fn driver_version_text(output: Seq<char>) -> Option<Seq<char>> {
    match first_nonblank_line(split_on(output, '\n')) {
        None => None,
        Some(l) => Some(trim(before_first(l, ','))),
    }
}

/// The major number of a driver version: what precedes its first `.`.
pub open spec fn driver_major(version: Seq<char>) -> Option<nat> {
    parse_unsigned(before_first(version, '.'), 0x1_0000_0000)
}

/// Why the NVIDIA driver does not suit the Windows runtime.
#[derive(Debug, Clone)]
pub enum DriverCheckError {
    /// `nvidia-smi` printed no version.
    NoVersion,
    /// The version's major number is not a number.
    Unparsable(String),
    /// The driver is older than the runtime needs.
    TooOld(String),
}

/// What `validate_nvidia_video_codec_driver` gives for the output `output`.
pub open spec fn driver_check_result(output: Seq<char>, r: Result<String, DriverCheckError>) -> bool {
    match driver_version_text(output) {
        None => r matches Err(DriverCheckError::NoVersion),
        Some(v) => match driver_major(v) {
            None => r matches Err(DriverCheckError::Unparsable(x)) && x@ == v,
            Some(m) => if m < 570 {
                r matches Err(DriverCheckError::TooOld(x)) && x@ == v
            } else {
                r matches Ok(x) && x@ == v
            },
        },
    }
}

/// Checks the driver version that `nvidia-smi` reported: the runtime's video
/// codecs need a major version of at least 570. Gives the version on success.
pub fn validate_nvidia_video_codec_driver(output: &str) -> (r: Result<String, DriverCheckError>)
    ensures
        driver_check_result(output@, r),
{
    let chars = chars_of(output);
    let lines = split_chars(chars.as_slice(), '\n');
    let k = first_nonblank_index(&lines);
    if k == lines.len() {
        return Err(DriverCheckError::NoVersion);
    }
    let first = before_first_chars(lines[k].as_slice(), ',');
    let version = trim_chars(first.as_slice());
    let major_text = before_first_chars(version.as_slice(), '.');
    match parse_u64_chars(major_text.as_slice()) {
        None => Err(DriverCheckError::Unparsable(string_of(version.as_slice()))),
        Some(m) => {
            if m > 0xffff_ffff {
                Err(DriverCheckError::Unparsable(string_of(version.as_slice())))
            } else if m < MIN_NVIDIA_VIDEO_CODEC_DRIVER_MAJOR as u64 {
                Err(DriverCheckError::TooOld(string_of(version.as_slice())))
            } else {
                Ok(string_of(version.as_slice()))
            }
        },
    }
}

/// The `nvidia-smi` binaries that the GPU probe tries, in order.
pub fn nvidia_smi_candidates() -> (r: Vec<String>)
    ensures
        r@.len() == 2,
        r@[0]@ == "nvidia-smi.exe"@,
        r@[1]@ == "C:\\Windows\\System32\\nvidia-smi.exe"@,
{
    let mut r: Vec<String> = Vec::new();
    r.push(owned("nvidia-smi.exe"));
    r.push(owned("C:\\Windows\\System32\\nvidia-smi.exe"));
    r
}

} // verus!

verus! {

/// How long, in milliseconds, a failed GPU probe stays quiet in the backend
/// log before the next failure is written again.
pub const GPU_PROBE_WARNING_INTERVAL_MS: u64 = 60000;

/// The resource probe's memory of when it last wrote that the GPU probe
/// failed, in milliseconds of a monotonic clock.
#[derive(Debug, Clone, Copy, PartialEq, Eq)]
pub struct ResourceProbe {
    pub last_gpu_probe_warning_at: Option<u64>,
}

/// A failure at `now` is written unless one was written less than the
/// interval before (a clock reading earlier than the last counts as no time
/// passed).
pub open spec fn gpu_warning_due(last: Option<u64>, now: u64) -> bool {
    match last {
        None => true,
        Some(t) => now >= t && now - t >= GPU_PROBE_WARNING_INTERVAL_MS,
    }
}

impl ResourceProbe {
    /// A probe that has written nothing yet.
    pub fn new() -> (r: ResourceProbe)
        ensures
            r.last_gpu_probe_warning_at is None,
    {
        ResourceProbe { last_gpu_probe_warning_at: None }
    }

    /// A GPU probe failed at `now` with `error`: the line to write to the
    /// backend log, if it is due, in which case `now` is remembered.
    pub fn log_gpu_probe_failure(&mut self, now: u64, error: &str) -> (r: Option<String>)
        ensures
            gpu_warning_due(old(self).last_gpu_probe_warning_at, now) ==> {
                &&& r matches Some(line) && line@ == "Windows GPU probe unavailable: "@ + error@
                &&& final(self).last_gpu_probe_warning_at == Some(now)
            },
            !gpu_warning_due(old(self).last_gpu_probe_warning_at, now) ==> {
                &&& r is None
                &&& *final(self) == *old(self)
            },
    {
        let due = match self.last_gpu_probe_warning_at {
            None => true,
            Some(t) => now >= t && now - t >= GPU_PROBE_WARNING_INTERVAL_MS,
        };
        if due {
            self.last_gpu_probe_warning_at = Some(now);
            Some(concat2("Windows GPU probe unavailable: ", error))
        } else {
            None
        }
    }

    /// A GPU probe succeeded: the next failure is written at once.
    pub fn record_gpu_probe_success(&mut self)
        ensures
            final(self).last_gpu_probe_warning_at is None,
    {
        self.last_gpu_probe_warning_at = None;
    }
}

} // verus!

verus! {

/// A driver library and the entry points it must export.
#[derive(Debug, Clone)]
pub struct DriverLibrary {
    pub dll: String,
    pub exports: Vec<String>,
}

pub open spec fn library_view(l: DriverLibrary) -> (Seq<char>, Seq<Seq<char>>) {
    (l.dll@, crate::paths::seg_views(l.exports@))
}

pub open spec fn libraries_view(v: Seq<DriverLibrary>) -> Seq<(Seq<char>, Seq<Seq<char>>)> {
    v.map_values(|l: DriverLibrary| library_view(l))
}

/// The NVIDIA driver libraries that the runtime's video decoding and
/// encoding load on Windows, each with the entry points it must export, in
/// the order they are checked: CUDA, the video decoder, the video encoder.
pub open spec fn nvidia_export_table() -> Seq<(Seq<char>, Seq<Seq<char>>)> {
    seq![
        ("nvcuda.dll"@, seq![
            "cuMemcpy2DUnaligned_v2"@, "cuMemFree_v2"@, "cuCtxGetCurrent"@, "cuMemcpyDtoDAsync_v2"@,
            "cuMemAllocPitch_v2"@, "cuMemcpy2DAsync_v2"@, "cuMemcpy2D_v2"@, "cuCtxPushCurrent_v2"@,
            "cuCtxPopCurrent_v2"@,
        ]),
        ("nvcuvid.dll"@, seq![
            "cuvidGetSourceVideoFormat"@, "cuvidGetDecoderCaps"@, "cuvidSetVideoSourceState"@,
            "cuvidDestroyDecoder"@, "cuvidReconfigureDecoder"@, "cuvidDestroyVideoSource"@,
            "cuvidCreateVideoParser"@, "cuvidParseVideoData"@, "cuvidMapVideoFrame64"@,
            "cuvidUnmapVideoFrame64"@, "cuvidCtxLockCreate"@, "cuvidCtxLock"@, "cuvidCtxUnlock"@,
            "cuvidDestroyVideoParser"@, "cuvidCreateVideoSource"@, "cuvidGetVideoSourceState"@,
            "cuvidCreateDecoder"@, "cuvidDecodePicture"@,
        ]),
        ("nvEncodeAPI64.dll"@, seq!["NvEncodeAPIGetMaxSupportedVersion"@, "NvEncodeAPICreateInstance"@]),
    ]
}

fn strings_of(items: &[&str]) -> (r: Vec<String>)
    ensures
        crate::paths::seg_views(r@) == items@.map_values(|a: &str| a@),
{
    let mut r: Vec<String> = Vec::new();
    let mut i: usize = 0;
    while i < items.len()
        invariant
            i <= items.len(),
            crate::paths::seg_views(r@) == items@.take(i as int).map_values(|a: &str| a@),
        decreases items.len() - i,
    {
        let ghost before = r@;
        r.push(owned(items[i]));
        i += 1;
        assert(items@.take(i as int).map_values(|a: &str| a@) =~= items@.take(i - 1).map_values(|a: &str| a@).push(
            items@[i - 1]@,
        ));
        assert(crate::paths::seg_views(r@) =~= crate::paths::seg_views(before).push(items@[i - 1]@));
    }
    assert(items@.take(items.len() as int) == items@);
    r
}

/// The driver libraries to check (see `nvidia_export_table`).
pub fn nvidia_driver_exports() -> (r: Vec<DriverLibrary>)
    ensures
        libraries_view(r@) == nvidia_export_table(),
{
    let cuda = strings_of(
        &[
            "cuMemcpy2DUnaligned_v2",
            "cuMemFree_v2",
            "cuCtxGetCurrent",
            "cuMemcpyDtoDAsync_v2",
            "cuMemAllocPitch_v2",
            "cuMemcpy2DAsync_v2",
            "cuMemcpy2D_v2",
            "cuCtxPushCurrent_v2",
            "cuCtxPopCurrent_v2",
        ],
    );
    let cuvid = strings_of(
        &[
            "cuvidGetSourceVideoFormat",
            "cuvidGetDecoderCaps",
            "cuvidSetVideoSourceState",
            "cuvidDestroyDecoder",
            "cuvidReconfigureDecoder",
            "cuvidDestroyVideoSource",
            "cuvidCreateVideoParser",
            "cuvidParseVideoData",
            "cuvidMapVideoFrame64",
            "cuvidUnmapVideoFrame64",
            "cuvidCtxLockCreate",
            "cuvidCtxLock",
            "cuvidCtxUnlock",
            "cuvidDestroyVideoParser",
            "cuvidCreateVideoSource",
            "cuvidGetVideoSourceState",
            "cuvidCreateDecoder",
            "cuvidDecodePicture",
        ],
    );
    let enc = strings_of(&["NvEncodeAPIGetMaxSupportedVersion", "NvEncodeAPICreateInstance"]);
    let ghost t = nvidia_export_table();
    assert(crate::paths::seg_views(cuda@) =~= t[0].1);
    assert(crate::paths::seg_views(cuvid@) =~= t[1].1);
    assert(crate::paths::seg_views(enc@) =~= t[2].1);
    let mut r: Vec<DriverLibrary> = Vec::new();
    r.push(DriverLibrary { dll: owned("nvcuda.dll"), exports: cuda });
    r.push(DriverLibrary { dll: owned("nvcuvid.dll"), exports: cuvid });
    r.push(DriverLibrary { dll: owned("nvEncodeAPI64.dll"), exports: enc });
    assert(libraries_view(r@) =~= nvidia_export_table());
    r
}

} // verus!

verus! {

/// What was found when one driver library was loaded: whether it loaded,
/// and, in the table's order, whether each entry point is exported.
#[derive(Debug, Clone)]
pub struct LibraryProbe {
    pub loaded: bool,
    pub found: Vec<bool>,
}

/// The first of the entry points `j..n` that was not found (an entry point
/// without an answer counts as not found), or `n`.
pub open spec fn first_unfound(found: Seq<bool>, n: int, j: int) -> int
    decreases n - j,
{
    if j >= n {
        n
    } else if 0 <= j < found.len() && found[j] {
        first_unfound(found, n, j + 1)
    } else {
        j
    }
}

/// The first failure of the driver check from library `i` on: a library
/// that did not load (`(i, -1)`; a library without an answer counts as not
/// loaded), or the first missing entry point `j` of library `i` (`(i, j)`).
pub open spec fn driver_check_failure(
    table: Seq<(Seq<char>, Seq<Seq<char>>)>,
    probes: Seq<LibraryProbe>,
    i: int,
) -> Option<(int, int)>
    decreases table.len() - i,
{
    if i < 0 || i >= table.len() {
        None
    } else if !(i < probes.len() && probes[i].loaded) {
        Some((i, -1))
    } else {
        let j = first_unfound(probes[i].found@, table[i].1.len() as int, 0);
        if j < table[i].1.len() {
            Some((i, j))
        } else {
            driver_check_failure(table, probes, i + 1)
        }
    }
}

proof fn lemma_first_unfound_range(found: Seq<bool>, n: int, j: int)
    requires
        0 <= j <= n,
    ensures
        j <= first_unfound(found, n, j) <= n,
    decreases n - j,
{
    if j < n && 0 <= j < found.len() && found[j] {
        lemma_first_unfound_range(found, n, j + 1);
    }
}

/// Why the NVIDIA driver check failed.
#[derive(Debug, Clone)]
pub enum DriverExportError {
    /// This library could not be loaded.
    LoadFailed(String),
    /// This library lacks this entry point.
    MissingExport { dll: String, export: String },
}

impl DriverExportError {
    /// The message shown to the user.
    pub fn message(&self) -> (r: String)
        ensures
            self matches DriverExportError::LoadFailed(d) ==> r@ == "无法加载 NVIDIA 驱动 DLL: "@ + d@,
            self matches DriverExportError::MissingExport { dll, export } ==> r@ == "NVIDIA 驱动 DLL 入口点不匹配："@
                + dll@ + " 缺少 "@ + export@
                + "。请确认 Windows/System32 下的 NVIDIA 驱动文件已随显卡驱动更新，必要时使用 NVIDIA 官方安装包执行“干净安装”。"@,
    {
        match self {
            DriverExportError::LoadFailed(d) => concat2("无法加载 NVIDIA 驱动 DLL: ", d.as_str()),
            DriverExportError::MissingExport { dll, export } => {
                let mut v: Vec<char> = Vec::new();
                push_str(&mut v, "NVIDIA 驱动 DLL 入口点不匹配：");
                push_str(&mut v, dll.as_str());
                push_str(&mut v, " 缺少 ");
                push_str(&mut v, export.as_str());
                push_str(
                    &mut v,
                    "。请确认 Windows/System32 下的 NVIDIA 驱动文件已随显卡驱动更新，必要时使用 NVIDIA 官方安装包执行“干净安装”。",
                );
                string_of(v.as_slice())
            },
        }
    }
}

/// The verdict of the NVIDIA driver check: outside Windows there is nothing
/// to check; on Windows the libraries of `nvidia_export_table` are loaded
/// and their entry points looked up in order (`probes` holds what was
/// found), and the first failure is reported.
pub fn validate_nvidia_driver_exports_impl(windows: bool, probes: &Vec<LibraryProbe>) -> (r: Result<(), DriverExportError>)
    ensures
        !windows ==> r is Ok,
        windows ==> match driver_check_failure(nvidia_export_table(), probes@, 0) {
            None => r is Ok,
            Some((i, j)) => if j < 0 {
                r matches Err(DriverExportError::LoadFailed(d)) && d@ == nvidia_export_table()[i].0
            } else {
                r matches Err(DriverExportError::MissingExport { dll, export }) && dll@ == nvidia_export_table()[i].0
                    && export@ == nvidia_export_table()[i].1[j]
            },
        },
{
    if !windows {
        return Ok(());
    }
    let table = nvidia_driver_exports();
    let ghost t = nvidia_export_table();
    let mut i: usize = 0;
    while i < table.len()
        invariant
            i <= table.len(),
            windows,
            libraries_view(table@) == t,
            t == nvidia_export_table(),
            driver_check_failure(t, probes@, 0) == driver_check_failure(t, probes@, i as int),
        decreases table.len() - i,
    {
        let lib = &table[i];
        assert(library_view(table@[i as int]) == t[i as int]);
        if !(i < probes.len() && probes[i].loaded) {
            return Err(DriverExportError::LoadFailed(lib.dll.clone()));
        }
        let found = &probes[i].found;
        let n = lib.exports.len();
        let mut j: usize = 0;
        while j < n
            invariant
                j <= n,
                windows,
                t == nvidia_export_table(),
                libraries_view(table@) == t,
                probes@[i as int].loaded,
                driver_check_failure(t, probes@, 0) == driver_check_failure(t, probes@, i as int),
                i < table@.len(),
                i < probes@.len(),
                n == lib.exports@.len(),
                library_view(*lib) == t[i as int],
                n == t[i as int].1.len(),
                found@ == probes@[i as int].found@,
                first_unfound(found@, n as int, 0) == first_unfound(found@, n as int, j as int),
            decreases n - j,
        {
            if !(j < found.len() && found[j]) {
                let export = lib.exports[j].clone();
                assert(crate::paths::seg_views(lib.exports@)[j as int] == lib.exports@[j as int]@);
                assert(export@ == t[i as int].1[j as int]);
                assert(first_unfound(found@, n as int, j as int) == j);
                assert(driver_check_failure(t, probes@, i as int) == Some((i as int, j as int)));
                return Err(DriverExportError::MissingExport { dll: lib.dll.clone(), export });
            }
            j += 1;
        }
        i += 1;
    }
    Ok(())
}

} // verus!

verus! {

impl GpuProbeError {
    /// The message written when the GPU probe fails.
    pub fn message(&self) -> (r: String)
        ensures
            self is EmptyOutput ==> r@ == "nvidia-smi 输出为空"@,
            self matches GpuProbeError::BadColumnCount(l) ==> r@ == "nvidia-smi 输出列数无效: "@ + l@,
            self matches GpuProbeError::BadPercent(t) ==> r@ == "GPU 利用率无效: "@ + t@,
            self matches GpuProbeError::BadMemoryUsed(t) ==> r@ == "已用显存无效: "@ + t@,
            self matches GpuProbeError::BadMemoryTotal(t) ==> r@ == "总显存无效: "@ + t@,
            self is ZeroTotalMemory ==> r@ == "总显存不能为 0"@,
    {
        match self {
            GpuProbeError::EmptyOutput => owned("nvidia-smi 输出为空"),
            GpuProbeError::BadColumnCount(l) => concat2("nvidia-smi 输出列数无效: ", l.as_str()),
            GpuProbeError::BadPercent(t) => concat2("GPU 利用率无效: ", t.as_str()),
            GpuProbeError::BadMemoryUsed(t) => concat2("已用显存无效: ", t.as_str()),
            GpuProbeError::BadMemoryTotal(t) => concat2("总显存无效: ", t.as_str()),
            GpuProbeError::ZeroTotalMemory => owned("总显存不能为 0"),
        }
    }
}

impl DriverCheckError {
    /// The message shown when the driver check fails.
    pub fn message(&self) -> (r: String)
        ensures
            self is NoVersion ==> r@ == "nvidia-smi 未返回 NVIDIA 驱动版本"@,
            self matches DriverCheckError::Unparsable(v) ==> r@ == "无法解析 NVIDIA 驱动版本: "@ + v@,
            self matches DriverCheckError::TooOld(v) ==> r@ == "NVIDIA 驱动版本过旧：当前 "@ + v@
                + "，算法包要求 Windows NVIDIA 驱动 570 或更高版本。请更新显卡驱动后重新导入算法包。"@,
    {
        match self {
            DriverCheckError::NoVersion => owned("nvidia-smi 未返回 NVIDIA 驱动版本"),
            DriverCheckError::Unparsable(v) => concat2("无法解析 NVIDIA 驱动版本: ", v.as_str()),
            DriverCheckError::TooOld(v) => {
                let mut s: Vec<char> = Vec::new();
                push_str(&mut s, "NVIDIA 驱动版本过旧：当前 ");
                push_str(&mut s, v.as_str());
                push_str(&mut s, "，算法包要求 Windows NVIDIA 驱动 570 或更高版本。请更新显卡驱动后重新导入算法包。");
                string_of(s.as_slice())
            },
        }
    }
}

} // verus!
