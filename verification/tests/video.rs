use streaming_gif::video::{
    decode_path_from_settings, fall_back_to_software, ffmpeg_args, format_decode_path,
    frame_len, probe_error_message, scaled_dimensions, select_intel_render_node, vf_filter,
    DecodePath, ProbeError, RenderNodeEntry, DEFAULT_FPS, DEFAULT_SCALE_WIDTH,
};

fn vaapi(device: &str) -> DecodePath {
    DecodePath::Vaapi { device: device.to_string() }
}

fn device_of(path: &DecodePath) -> Option<String> {
    match path {
        DecodePath::Software => None,
        DecodePath::Vaapi { device } => Some(device.clone()),
    }
}

#[test]
fn filters_scale_and_sample_frames() {
    assert_eq!(vf_filter(&DecodePath::Software, 10, 480), "fps=10,scale=480:-2");
    assert_eq!(
        vf_filter(&vaapi("/dev/dri/renderD128"), 1, 32),
        "fps=1,scale_vaapi=w=32:h=-2,hwdownload,format=nv12,format=rgb24"
    );
    assert_eq!(DEFAULT_SCALE_WIDTH, 480);
    assert_eq!(DEFAULT_FPS, 10);
}

#[test]
fn decode_paths_are_reported() {
    assert_eq!(format_decode_path(&DecodePath::Software), "software");
    assert_eq!(format_decode_path(&vaapi("/dev/dri/renderD129")), "vaapi device=/dev/dri/renderD129");
}

#[test]
fn ffmpeg_command_line() {
    let args = ffmpeg_args(&DecodePath::Software, "in.mp4", 10, 32, &vec![]);
    assert_eq!(
        args,
        vec![
            "-hide_banner", "-loglevel", "error", "-an", "-i", "in.mp4", "-vf",
            "fps=10,scale=32:-2", "-f", "rawvideo", "-pix_fmt", "rgb24", "pipe:1"
        ]
    );
    let extra = vec!["-frames:v".to_string(), "1".to_string()];
    let args = ffmpeg_args(&vaapi("/dev/dri/renderD128"), "v.mp4", 1, 480, &extra);
    assert_eq!(
        args,
        vec![
            "-hide_banner", "-loglevel", "error", "-hwaccel", "vaapi", "-hwaccel_device",
            "/dev/dri/renderD128", "-hwaccel_output_format", "vaapi", "-an", "-i", "v.mp4",
            "-vf", "fps=1,scale_vaapi=w=480:h=-2,hwdownload,format=nv12,format=rgb24",
            "-frames:v", "1", "-f", "rawvideo", "-pix_fmt", "rgb24", "pipe:1"
        ]
    );
}

#[test]
fn decode_path_selection() {
    let intel = Some("/dev/dri/renderD129");
    assert_eq!(device_of(&decode_path_from_settings(Some("OFF"), Some("/d"), intel)), None);
    assert_eq!(device_of(&decode_path_from_settings(Some("none"), None, intel)), None);
    assert_eq!(
        device_of(&decode_path_from_settings(Some("VAAPI"), Some("/d"), intel)).as_deref(),
        Some("/d")
    );
    assert_eq!(
        device_of(&decode_path_from_settings(Some("vaapi"), Some(""), intel)).as_deref(),
        Some("/dev/dri/renderD129")
    );
    assert_eq!(
        device_of(&decode_path_from_settings(Some("vaapi"), None, None)).as_deref(),
        Some("/dev/dri/renderD128")
    );
    assert_eq!(
        device_of(&decode_path_from_settings(None, Some("/x"), intel)).as_deref(),
        Some("/x")
    );
    assert_eq!(
        device_of(&decode_path_from_settings(Some("auto"), None, intel)).as_deref(),
        Some("/dev/dri/renderD129")
    );
    assert_eq!(device_of(&decode_path_from_settings(None, None, None)), None);
    assert_eq!(device_of(&decode_path_from_settings(Some("other"), Some(""), None)), None);
}

#[test]
fn software_fallback_only_for_vaapi_failures_other_than_missing_files() {
    assert!(fall_back_to_software(&vaapi("/d"), false));
    assert!(!fall_back_to_software(&vaapi("/d"), true));
    assert!(!fall_back_to_software(&DecodePath::Software, false));
}

fn entry(name: &str, vendor: Option<&str>) -> RenderNodeEntry {
    RenderNodeEntry {
        path: format!("/dev/dri/{name}"),
        file_name: Some(name.to_string()),
        vendor: vendor.map(|v| v.to_string()),
    }
}

#[test]
fn picks_the_first_intel_render_node_in_name_order() {
    let entries = vec![
        entry("card0", Some("0x8086\n")),
        entry("renderD130", Some("0x8086\n")),
        entry("renderD128", Some("0x1002\n")),
        entry("renderD129", Some(" 0x8086 ")),
        entry("renderD131", None),
    ];
    assert_eq!(select_intel_render_node(&entries), Some(3));
    let none = vec![entry("renderD128", Some("0x1002\n")), entry("card1", Some("0x8086"))];
    assert_eq!(select_intel_render_node(&none), None);
    assert_eq!(select_intel_render_node(&vec![]), None);
}

#[test]
fn probe_size_gives_the_scaled_dimensions() {
    assert_eq!(scaled_dimensions(32 * 32 * 3, 32).ok(), Some((32, 32)));
    assert_eq!(scaled_dimensions(480 * 202 * 3, 480).ok(), Some((480, 202)));
    assert!(matches!(scaled_dimensions(0, 32), Err(ProbeError::UnexpectedByteCount(0))));
    assert!(matches!(scaled_dimensions(100, 32), Err(ProbeError::UnexpectedByteCount(100))));
    assert!(matches!(
        scaled_dimensions(33 * 3, 32),
        Err(ProbeError::NotDivisible { bytes: 99, width: 32 })
    ));
    assert!(matches!(scaled_dimensions(70000 * 3, 70000), Err(ProbeError::WidthTooLarge(70000))));
    assert!(matches!(scaled_dimensions(70000 * 3, 1), Err(ProbeError::HeightTooLarge(70000))));
    assert_eq!(frame_len(32, 32), 3072);
}

#[test]
fn probe_errors_have_messages() {
    assert_eq!(
        probe_error_message(&ProbeError::UnexpectedByteCount(100)),
        "ffmpeg probe produced unexpected byte count 100"
    );
    assert_eq!(
        probe_error_message(&ProbeError::NotDivisible { bytes: 99, width: 32 }),
        "ffmpeg probe size 99 is not divisible by width 32 * 3"
    );
    assert_eq!(probe_error_message(&ProbeError::WidthTooLarge(70000)), "scaled width 70000 exceeds u16");
    assert_eq!(probe_error_message(&ProbeError::HeightTooLarge(70001)), "scaled height 70001 exceeds u16");
}
