use dy_screen_client::clip_export::{
    build_export_plan, format_seconds, normalize_dimension, validate_export_subtitles,
    ClipExportSource, ClipOutputDimensions,
};
use dy_screen_client::domain::{AiClipEffect, AiClipSegment, AiClipSubtitle, SourceFingerprint};

fn source(effect: AiClipEffect) -> ClipExportSource {
    ClipExportSource {
        segment: AiClipSegment {
            id: 1,
            clip_project_id: 1,
            candidate_id: 1,
            input_id: 1,
            position: 0,
            title: "片段".to_owned(),
            source_start_ms: 1_000,
            source_end_ms: 3_000,
            volume_percent: 120,
            effect,
        },
        source_path: "/safe/input.mp4".to_owned(),
        source_fingerprint: SourceFingerprint {
            normalized_path: "/safe/input.mp4".to_owned(),
            size_bytes: 1,
            modified_at_ms: 1,
            video_id: None,
        },
        subtitles: Vec::new(),
        bridge_after: None,
    }
}

#[test]
fn export_plan_only_uses_internal_effect_filters_and_h264_aac() {
    let plan = build_export_plan(
        &[source(AiClipEffect::Flash)],
        "/safe/out.part.mp4".to_owned(),
        ClipOutputDimensions {
            width: 1080,
            height: 1920,
        },
        "/safe/subtitles.ffconcat",
        "h264_videotoolbox",
    )
    .unwrap();
    assert!(plan.arguments.windows(2).any(|pair| pair == ["-c:v", "h264_videotoolbox"]));
    assert!(plan.arguments.windows(2).any(|pair| pair == ["-c:a", "aac"]));
    assert!(plan.arguments.iter().any(|argument| argument.contains("color=white")));
    assert!(plan.arguments.iter().any(|argument| {
        argument.contains("scale=1080:1920:force_original_aspect_ratio=decrease,pad=1080:1920")
    }));
    assert!(plan.arguments.iter().any(|argument| argument.contains("overlay=")));
    assert!(plan.arguments.windows(2).any(|pair| pair == ["-i", "/safe/subtitles.ffconcat"]));
    assert!(plan.arguments.windows(2).any(|pair| pair == ["-f", "mp4"]));
    assert!(!plan.arguments.iter().any(|argument| argument.contains("/unsafe/filter")));
}

#[test]
fn normalizes_odd_output_dimensions_for_yuv420() {
    assert_eq!(normalize_dimension(1919).unwrap(), 1920);
    assert_eq!(normalize_dimension(1080).unwrap(), 1080);
}

#[test]
fn largest_odd_dimension_is_refused() {
    let failure = normalize_dimension(u32::MAX).unwrap_err();
    assert_eq!(failure.code, "source_invalid");
}

#[test]
fn seconds_keep_three_decimals() {
    assert_eq!(format_seconds(1_234), "1.234");
    assert_eq!(format_seconds(5), "0.005");
    assert_eq!(format_seconds(60_000), "60.000");
}

#[test]
fn export_plan_refuses_empty_projects_unknown_encoders_and_bad_ranges() {
    let dims = ClipOutputDimensions {
        width: 1080,
        height: 1920,
    };
    let empty = build_export_plan(&[], "/o.mp4".to_owned(), dims, "/m", "libx264").unwrap_err();
    assert_eq!(empty.code, "empty_project");
    let encoder = build_export_plan(&[source(AiClipEffect::NoEffect)], "/o.mp4".to_owned(), dims, "/m", "rawvideo")
        .unwrap_err();
    assert_eq!(encoder.code, "encoder_unavailable");
    let mut bad = source(AiClipEffect::NoEffect);
    bad.segment.source_end_ms = bad.segment.source_start_ms - 1;
    let invalid = build_export_plan(&[bad], "/o.mp4".to_owned(), dims, "/m", "libx264").unwrap_err();
    assert_eq!(invalid.code, "invalid_segment");
}

#[test]
fn export_plan_totals_the_segment_durations() {
    let plan = build_export_plan(
        &[source(AiClipEffect::NoEffect), source(AiClipEffect::FadeIn)],
        "/safe/out.part.mp4".to_owned(),
        ClipOutputDimensions {
            width: 720,
            height: 1280,
        },
        "/safe/subtitles.ffconcat",
        "libx264",
    )
    .unwrap();
    assert_eq!(plan.total_duration_ms, 4_000);
    assert_eq!(plan.arguments.last().unwrap(), "/safe/out.part.mp4");
    assert_eq!(plan.temporary_output, "/safe/out.part.mp4");
}

#[test]
fn every_segment_needs_subtitles_before_export() {
    let mut with_subtitle = source(AiClipEffect::NoEffect);
    with_subtitle.subtitles.push(AiClipSubtitle {
        id: 1,
        clip_project_id: 1,
        stable_segment_id: "s".to_owned(),
        clip_segment_id: 1,
        input_id: 1,
        original_text: "好".to_owned(),
        text: "好".to_owned(),
        hidden: false,
        source_start_ms: 1_000,
        source_end_ms: 2_000,
        project_start_ms: 0,
        project_end_ms: 1_000,
    });
    assert!(validate_export_subtitles(&[with_subtitle.clone()]).is_ok());
    let failure = validate_export_subtitles(&[with_subtitle, source(AiClipEffect::NoEffect)]).unwrap_err();
    assert_eq!(failure.code, "subtitles_incomplete");
}
