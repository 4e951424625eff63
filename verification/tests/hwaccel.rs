use ai_vid_editor::hwaccel::HwAccel;

#[test]
fn test_hwaccel_parse_name() {
    assert_eq!(HwAccel::parse_name("none"), Some(HwAccel::Software));
    assert_eq!(HwAccel::parse_name("NVENC"), Some(HwAccel::Nvenc));
    assert_eq!(HwAccel::parse_name("nvidia"), Some(HwAccel::Nvenc));
    assert_eq!(HwAccel::parse_name("amf"), Some(HwAccel::Amf));
    assert_eq!(HwAccel::parse_name("amd"), Some(HwAccel::Amf));
    assert_eq!(HwAccel::parse_name("vaapi"), Some(HwAccel::Vaapi));
    assert_eq!(
        HwAccel::parse_name("videotoolbox"),
        Some(HwAccel::VideoToolbox)
    );
    assert_eq!(HwAccel::parse_name("mac"), Some(HwAccel::VideoToolbox));
    assert_eq!(HwAccel::parse_name("unknown"), None);
}

#[test]
fn test_video_codec_mapping() {
    assert_eq!(HwAccel::Software.video_codec(), "libx264");
    assert_eq!(HwAccel::Nvenc.video_codec(), "h264_nvenc");
    assert_eq!(HwAccel::Amf.video_codec(), "h264_amf");
    assert_eq!(HwAccel::Vaapi.video_codec(), "h264_vaapi");
    assert_eq!(HwAccel::VideoToolbox.video_codec(), "h264_videotoolbox");
}

#[test]
fn test_default_is_none() {
    let accel: HwAccel = Default::default();
    assert_eq!(accel, HwAccel::Software);
}

#[test]
fn test_as_str_roundtrip() {
    for accel in [
        HwAccel::Software,
        HwAccel::Nvenc,
        HwAccel::Amf,
        HwAccel::Vaapi,
        HwAccel::VideoToolbox,
    ] {
        let s = accel.as_str();
        let parsed = HwAccel::parse_name(s);
        assert_eq!(parsed, Some(accel), "roundtrip failed for {:?}", accel);
    }
}

#[test]
fn test_display_names() {
    assert_eq!(HwAccel::Software.display_name(), "None (CPU)");
    assert_eq!(HwAccel::Nvenc.display_name(), "NVIDIA NVENC");
    assert_eq!(HwAccel::Amf.display_name(), "AMD AMF");
    assert_eq!(HwAccel::Vaapi.display_name(), "VAAPI (Linux)");
    assert_eq!(HwAccel::VideoToolbox.display_name(), "VideoToolbox (macOS)");
}

#[test]
fn test_input_args() {
    assert!(HwAccel::Software.input_args().is_empty());
    assert!(HwAccel::Nvenc.input_args().is_empty());
    assert_eq!(
        HwAccel::Vaapi.input_args(),
        vec![
            "-hwaccel",
            "vaapi",
            "-hwaccel_device",
            "/dev/dri/renderD128"
        ]
    );
    assert_eq!(
        HwAccel::VideoToolbox.input_args(),
        vec!["-hwaccel", "videotoolbox"]
    );
}

#[test]
fn test_needs_hwaccel_input() {
    assert!(!HwAccel::Software.needs_hwaccel_input());
    assert!(!HwAccel::Nvenc.needs_hwaccel_input());
    assert!(!HwAccel::Amf.needs_hwaccel_input());
    assert!(HwAccel::Vaapi.needs_hwaccel_input());
    assert!(HwAccel::VideoToolbox.needs_hwaccel_input());
}

#[test]
fn test_parse_name_whitespace() {
    // Leading/trailing whitespace is NOT trimmed by parse_name
    assert_eq!(HwAccel::parse_name("  nvenc  "), None);
    assert_eq!(HwAccel::parse_name("\tvaapi\n"), None);
}

#[test]
fn test_parse_name_empty() {
    assert_eq!(HwAccel::parse_name(""), None);
}

#[test]
fn test_parse_name_all_variants() {
    assert_eq!(HwAccel::parse_name("nvenc"), Some(HwAccel::Nvenc));
    assert_eq!(HwAccel::parse_name("vaapi"), Some(HwAccel::Vaapi));
    assert_eq!(HwAccel::parse_name("amf"), Some(HwAccel::Amf));
    assert_eq!(
        HwAccel::parse_name("videotoolbox"),
        Some(HwAccel::VideoToolbox)
    );
    assert_eq!(HwAccel::parse_name("none"), Some(HwAccel::Software));
}

#[test]
fn test_parse_name_case_insensitive() {
    assert_eq!(HwAccel::parse_name("NVENC"), Some(HwAccel::Nvenc));
    assert_eq!(HwAccel::parse_name("NvEnc"), Some(HwAccel::Nvenc));
    assert_eq!(HwAccel::parse_name("VAAPI"), Some(HwAccel::Vaapi));
    assert_eq!(HwAccel::parse_name("VaApi"), Some(HwAccel::Vaapi));
    assert_eq!(HwAccel::parse_name("AMF"), Some(HwAccel::Amf));
}

#[test]
fn test_parse_name_aliases() {
    assert_eq!(HwAccel::parse_name("nvidia"), Some(HwAccel::Nvenc));
    assert_eq!(HwAccel::parse_name("amd"), Some(HwAccel::Amf));
    assert_eq!(HwAccel::parse_name("intel"), Some(HwAccel::Vaapi));
}

#[test]
fn test_parse_name_unknown() {
    assert_eq!(HwAccel::parse_name("invalid"), None);
    assert_eq!(HwAccel::parse_name("auto"), None);
    assert_eq!(HwAccel::parse_name("cuda"), None);
    assert_eq!(HwAccel::parse_name("vulkan"), None);
}

// ── Detection from ffmpeg's listings ────────────────────────────────────

#[test]
fn detect_prefers_nvenc_when_listed_and_available() {
    let hwaccels = "Hardware acceleration methods:\nCUDA\nvaapi\n";
    let encoders = " V....D h264_nvenc  NVIDIA NVENC\n V....D h264_vaapi\n";
    assert_eq!(HwAccel::detect_from(hwaccels, encoders), HwAccel::Nvenc);
}

#[test]
fn detect_skips_backends_without_encoder() {
    let hwaccels = "Hardware acceleration methods:\ncuda\nvaapi\n";
    let encoders = " V....D h264_vaapi\n";
    assert_eq!(HwAccel::detect_from(hwaccels, encoders), HwAccel::Vaapi);
}

#[test]
fn detect_falls_back_to_software() {
    assert_eq!(HwAccel::detect_from("", ""), HwAccel::Software);
    assert_eq!(
        HwAccel::detect_from("videotoolbox\n", "libx264\n"),
        HwAccel::Software
    );
}

#[test]
fn detect_amf_and_videotoolbox() {
    assert_eq!(HwAccel::detect_from("AMF\n", "h264_amf"), HwAccel::Amf);
    assert_eq!(
        HwAccel::detect_from("VideoToolbox\n", "h264_videotoolbox"),
        HwAccel::VideoToolbox
    );
}

#[test]
fn select_uses_lowercased_listing_as_given() {
    // `select` does not lower-case; upper-case names are not found.
    assert_eq!(HwAccel::select("CUDA", "h264_nvenc"), HwAccel::Software);
    assert_eq!(HwAccel::select("cuda", "h264_nvenc"), HwAccel::Nvenc);
}

#[test]
fn parse_lowercase_name_is_case_sensitive() {
    assert_eq!(HwAccel::parse_lowercase_name("apple"), Some(HwAccel::VideoToolbox));
    assert_eq!(HwAccel::parse_lowercase_name("Apple"), None);
}

#[test]
fn input_args_present_iff_needs_hwaccel_input() {
    for accel in [
        HwAccel::Software,
        HwAccel::Nvenc,
        HwAccel::Amf,
        HwAccel::Vaapi,
        HwAccel::VideoToolbox,
    ] {
        assert_eq!(!accel.input_args().is_empty(), accel.needs_hwaccel_input());
    }
}

#[test]
fn detection_needs_the_encoder_listed() {
    let hw = "Hardware acceleration methods:\nCUDA\nvaapi\n";
    assert_eq!(HwAccel::detect_from(hw, "V..... libx264\n"), HwAccel::Software);
    assert_eq!(HwAccel::detect_from(hw, "V..... h264_vaapi\n"), HwAccel::Vaapi);
    assert_eq!(HwAccel::detect_from(hw, "V..... h264_nvenc\nV..... h264_vaapi\n"), HwAccel::Nvenc);
    assert_eq!(HwAccel::detect_from("", "h264_nvenc h264_amf"), HwAccel::Software);
    assert_eq!(HwAccel::select("videotoolbox", "h264_videotoolbox"), HwAccel::VideoToolbox);
}
