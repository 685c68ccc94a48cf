use var_desktop::gpu::{
    validate_nvidia_driver_exports_impl, DriverExportError, LibraryProbe, ResourceProbe, GPU_PROBE_WARNING_INTERVAL_MS,
    nvidia_smi_candidates, parse_nvidia_smi_csv, validate_nvidia_video_codec_driver,
    DriverCheckError, GpuProbeError, MIB_BYTES,
};

#[test]
fn parses_nvidia_smi_csv() {
    let snapshot = parse_nvidia_smi_csv("42, 1024, 8192\n").unwrap();

    assert_eq!(snapshot.percent_text.parse::<f64>().unwrap(), 42.0);
    assert_eq!(snapshot.memory_used_bytes, 1024 * MIB_BYTES);
    assert_eq!(snapshot.memory_total_bytes, 8192 * MIB_BYTES);
}

#[test]
fn parses_nvidia_smi_csv_with_spaces() {
    let snapshot = parse_nvidia_smi_csv(" 7 , 512 , 4096 \r\n").unwrap();

    assert_eq!(snapshot.percent_text.parse::<f64>().unwrap(), 7.0);
    assert_eq!(snapshot.memory_used_bytes, 512 * MIB_BYTES);
    assert_eq!(snapshot.memory_total_bytes, 4096 * MIB_BYTES);
}

#[test]
fn rejects_invalid_nvidia_smi_csv() {
    assert!(parse_nvidia_smi_csv("not,a,number").is_err());
    assert!(parse_nvidia_smi_csv("42,1024").is_err());
}

#[test]
fn rejects_zero_total_gpu_memory() {
    assert!(parse_nvidia_smi_csv("42, 0, 0").is_err());
}

#[test]
fn nvidia_smi_csv_skips_blank_lines_and_reports_each_column() {
    let snapshot = parse_nvidia_smi_csv("\n   \n12.5, 3, 4\nignored").unwrap();
    assert_eq!(snapshot.percent_text, "12.5");
    assert_eq!(snapshot.memory_used_bytes, 3 * MIB_BYTES);
    assert!(matches!(parse_nvidia_smi_csv(" \n\t"), Err(GpuProbeError::EmptyOutput)));
    assert!(matches!(parse_nvidia_smi_csv("x, 1, 2"), Err(GpuProbeError::BadPercent(t)) if t == "x"));
    assert!(matches!(parse_nvidia_smi_csv("1, -1, 2"), Err(GpuProbeError::BadMemoryUsed(t)) if t == "-1"));
    assert!(matches!(parse_nvidia_smi_csv("1, 1, 2.0"), Err(GpuProbeError::BadMemoryTotal(t)) if t == "2.0"));
    assert!(matches!(parse_nvidia_smi_csv("1,2"), Err(GpuProbeError::BadColumnCount(l)) if l == "1,2"));
    assert!(matches!(parse_nvidia_smi_csv("1,2,3,4"), Err(GpuProbeError::BadColumnCount(_))));
}

#[test]
fn nvidia_smi_csv_accepts_what_f64_accepts() {
    for text in ["1e3", "+.5", "5.", "-inf", "NaN", "Infinity", "1E-2"] {
        let raw = format!("{text}, 1, 1");
        let snapshot = parse_nvidia_smi_csv(&raw).unwrap();
        assert!(snapshot.percent_text.parse::<f64>().is_ok());
    }
    for text in [".", "e5", "1e", "1.2.3", "+-1", "in f"] {
        let raw = format!("{text}, 1, 1");
        assert!(text.parse::<f64>().is_err());
        assert!(matches!(parse_nvidia_smi_csv(&raw), Err(GpuProbeError::BadPercent(_))));
    }
}

#[test]
fn nvidia_smi_csv_saturates_huge_memory() {
    let snapshot = parse_nvidia_smi_csv("1, 18446744073709551615, +2").unwrap();
    assert_eq!(snapshot.memory_used_bytes, u64::MAX);
    assert_eq!(snapshot.memory_total_bytes, 2 * MIB_BYTES);
}

#[test]
fn driver_version_check() {
    assert_eq!(validate_nvidia_video_codec_driver("\n572.16, NVIDIA GeForce RTX 4090\n").unwrap(), "572.16");
    assert!(matches!(
        validate_nvidia_video_codec_driver("551.86, NVIDIA RTX A2000"),
        Err(DriverCheckError::TooOld(v)) if v == "551.86"
    ));
    assert!(matches!(validate_nvidia_video_codec_driver("  \n"), Err(DriverCheckError::NoVersion)));
    assert!(matches!(
        validate_nvidia_video_codec_driver("unknown, x"),
        Err(DriverCheckError::Unparsable(v)) if v == "unknown"
    ));
    assert_eq!(validate_nvidia_video_codec_driver("570").unwrap(), "570");
}

#[test]
fn nvidia_smi_candidate_order() {
    let candidates = nvidia_smi_candidates();
    assert_eq!(candidates, vec!["nvidia-smi.exe".to_string(), r"C:\Windows\System32\nvidia-smi.exe".to_string()]);
}

#[test]
fn driver_exports_table() {
    let libs = var_desktop::gpu::nvidia_driver_exports();
    let names: Vec<&str> = libs.iter().map(|l| l.dll.as_str()).collect();
    assert_eq!(names, vec!["nvcuda.dll", "nvcuvid.dll", "nvEncodeAPI64.dll"]);
    assert_eq!(libs[0].exports.len(), 9);
    assert_eq!(libs[1].exports.len(), 18);
    assert_eq!(libs[2].exports, vec!["NvEncodeAPIGetMaxSupportedVersion", "NvEncodeAPICreateInstance"]);
}

#[test]
fn driver_export_verdicts() {
    let all = |n: usize| LibraryProbe { loaded: true, found: vec![true; n] };
    assert!(validate_nvidia_driver_exports_impl(false, &vec![]).is_ok());
    assert!(validate_nvidia_driver_exports_impl(true, &vec![all(9), all(18), all(2)]).is_ok());
    let e = validate_nvidia_driver_exports_impl(true, &vec![all(9), LibraryProbe { loaded: false, found: vec![] }, all(2)]).unwrap_err();
    assert!(matches!(&e, DriverExportError::LoadFailed(d) if d == "nvcuvid.dll"));
    assert_eq!(e.message(), "无法加载 NVIDIA 驱动 DLL: nvcuvid.dll");
    let mut cuda = all(9);
    cuda.found[2] = false;
    let e = validate_nvidia_driver_exports_impl(true, &vec![cuda, all(18), all(2)]).unwrap_err();
    assert_eq!(
        e.message(),
        "NVIDIA 驱动 DLL 入口点不匹配：nvcuda.dll 缺少 cuCtxGetCurrent。请确认 Windows/System32 下的 NVIDIA 驱动文件已随显卡驱动更新，必要时使用 NVIDIA 官方安装包执行“干净安装”。"
    );
    let e = validate_nvidia_driver_exports_impl(true, &vec![all(9), all(18)]).unwrap_err();
    assert!(matches!(e, DriverExportError::LoadFailed(d) if d == "nvEncodeAPI64.dll"));
    let e = validate_nvidia_driver_exports_impl(true, &vec![all(9), all(17), all(2)]).unwrap_err();
    assert!(matches!(e, DriverExportError::MissingExport { export, .. } if export == "cuvidDecodePicture"));
}

#[test]
fn gpu_probe_warnings_are_throttled() {
    let mut probe = ResourceProbe::new();
    assert_eq!(probe.log_gpu_probe_failure(1_000, "no nvidia-smi").as_deref(), Some("Windows GPU probe unavailable: no nvidia-smi"));
    assert_eq!(probe.log_gpu_probe_failure(1_000 + GPU_PROBE_WARNING_INTERVAL_MS - 1, "x"), None);
    assert!(probe.log_gpu_probe_failure(1_000 + GPU_PROBE_WARNING_INTERVAL_MS, "x").is_some());
    assert_eq!(probe.last_gpu_probe_warning_at, Some(1_000 + GPU_PROBE_WARNING_INTERVAL_MS));
    assert_eq!(probe.log_gpu_probe_failure(5, "clock went back"), None);
    probe.record_gpu_probe_success();
    assert!(probe.log_gpu_probe_failure(5, "x").is_some());
}

#[test]
fn probe_and_driver_messages() {
    assert_eq!(GpuProbeError::EmptyOutput.message(), "nvidia-smi 输出为空");
    assert_eq!(GpuProbeError::BadColumnCount("1,2".to_string()).message(), "nvidia-smi 输出列数无效: 1,2");
    assert_eq!(GpuProbeError::BadPercent("x".to_string()).message(), "GPU 利用率无效: x");
    assert_eq!(GpuProbeError::ZeroTotalMemory.message(), "总显存不能为 0");
    assert_eq!(DriverCheckError::NoVersion.message(), "nvidia-smi 未返回 NVIDIA 驱动版本");
    assert_eq!(DriverCheckError::Unparsable("abc".to_string()).message(), "无法解析 NVIDIA 驱动版本: abc");
    assert_eq!(
        DriverCheckError::TooOld("551.86".to_string()).message(),
        "NVIDIA 驱动版本过旧：当前 551.86，算法包要求 Windows NVIDIA 驱动 570 或更高版本。请更新显卡驱动后重新导入算法包。"
    );
}
