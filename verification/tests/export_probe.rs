use dy_screen_client::clip_export::{ClipExportSource, ClipOutputDimensions};
use dy_screen_client::domain::{AiClipEffect, AiClipSegment, SourceFingerprint};
use dy_screen_client::export_probe::{
    check_export_source, export_failure_message, parse_probed_dimensions, parse_u32, parse_u64,
    progress_ms, select_encoder, validate_export_sources, FrozenMedia,
};

fn stored() -> SourceFingerprint {
    SourceFingerprint {
        normalized_path: "/videos/a.mp4".to_owned(),
        size_bytes: 2048,
        modified_at_ms: 1_700_000_000_000,
        video_id: Some(5),
    }
}

fn media(path: &str, size: u64, modified: u64) -> Option<FrozenMedia> {
    Some(FrozenMedia { path: path.to_owned(), size_bytes: size, modified_at_ms: modified })
}

fn source() -> ClipExportSource {
    ClipExportSource {
        segment: AiClipSegment {
            id: 1,
            clip_project_id: 1,
            candidate_id: 1,
            input_id: 1,
            position: 0,
            title: "片段".to_owned(),
            source_start_ms: 0,
            source_end_ms: 1_000,
            volume_percent: 100,
            effect: AiClipEffect::NoEffect,
        },
        source_path: "/videos/a.mp4".to_owned(),
        source_fingerprint: stored(),
        subtitles: Vec::new(),
        bridge_after: None,
    }
}

#[test]
fn export_sources_must_be_unchanged_since_they_were_frozen() {
    assert_eq!(check_export_source(&stored(), media("/videos/a.mp4", 2048, 1_700_000_000_000)), Ok(()));
    let missing = check_export_source(&stored(), None).unwrap_err();
    assert_eq!((missing.code, missing.message.as_str()), ("source_unavailable", "剪辑来源视频不存在或无法读取"));
    let far_future = check_export_source(&stored(), media("/videos/a.mp4", 2048, u64::MAX)).unwrap_err();
    assert_eq!((far_future.code, far_future.message.as_str()), ("source_unavailable", "无法读取剪辑来源视频的修改时间"));
    for changed in [
        media("/videos/b.mp4", 2048, 1_700_000_000_000),
        media("/videos/a.mp4", 2049, 1_700_000_000_000),
        media("/videos/a.mp4", 2048, 1_700_000_000_001),
    ] {
        let error = check_export_source(&stored(), changed).unwrap_err();
        assert_eq!(error.code, "source_changed");
        assert_eq!(error.message, "来源视频在加入 AI 项目后发生变化，已拒绝导出以避免错剪");
    }
    let sources = vec![source(), source()];
    assert_eq!(
        validate_export_sources(&sources, vec![media("/videos/a.mp4", 2048, 1_700_000_000_000); 2]),
        Ok(())
    );
    let error = validate_export_sources(&sources, vec![media("/videos/a.mp4", 2048, 1_700_000_000_000), None])
        .unwrap_err();
    assert_eq!(error.code, "source_unavailable");
}

#[test]
fn numbers_parse_as_unsigned_thirty_two_bit_values() {
    let chars = |s: &str| s.chars().collect::<Vec<_>>();
    assert_eq!(parse_u32(&chars("1920")), Some(1920));
    assert_eq!(parse_u32(&chars("+7")), Some(7));
    assert_eq!(parse_u32(&chars("0004294967295")), Some(u32::MAX));
    assert_eq!(parse_u32(&chars("4294967296")), None);
    assert_eq!(parse_u32(&chars("")), None);
    assert_eq!(parse_u32(&chars("+")), None);
    assert_eq!(parse_u32(&chars("-1")), None);
    assert_eq!(parse_u32(&chars("12a")), None);
    assert_eq!(parse_u32(&chars(" 12")), None);
    for text in ["1920", "+7", "0004294967295", "4294967296", "", "+", "-1", "12a", " 12", "99999999999"] {
        assert_eq!(parse_u32(&chars(text)), text.parse::<u32>().ok(), "{text:?}");
    }
}

#[test]
fn probed_frame_size_is_read_and_made_even() {
    assert_eq!(parse_probed_dimensions("1920x1080\n"), Ok(ClipOutputDimensions { width: 1920, height: 1080 }));
    assert_eq!(parse_probed_dimensions("  721x405 "), Ok(ClipOutputDimensions { width: 722, height: 406 }));
    for bad in ["", "1920", "0x1080", "1920x0", "x1080", "1920x", "1920x1080x2", "axb"] {
        let error = parse_probed_dimensions(bad).unwrap_err();
        assert_eq!(error.code, "source_invalid");
        assert_eq!(error.message, "来源视频不包含有效画面尺寸", "{bad:?}");
    }
    let error = parse_probed_dimensions("4294967295x2").unwrap_err();
    assert_eq!(error.message, "来源视频的画面尺寸无效");
}

#[test]
fn the_first_offered_encoder_in_order_of_preference_is_chosen() {
    let list = "Encoders:\n V..... = Video\n ------\n V....D libx264              libx264 H.264\r\n V....D h264_videotoolbox    VideoToolbox H.264\n A....D aac                  AAC\n";
    assert_eq!(select_encoder(list, &["h264_mf", "h264_videotoolbox", "libx264"]), Ok(1));
    assert_eq!(select_encoder(list, &["libx264", "h264_videotoolbox"]), Ok(0));
    let error = select_encoder(list, &["h264_mf", "libx265"]).unwrap_err();
    assert_eq!(error.code, "encoder_unavailable");
    assert_eq!(error.message, "随应用提供的 FFmpeg 缺少受控 H.264 编码器");
    assert!(select_encoder("libx264\n", &["libx264"]).is_err());
    assert_eq!(select_encoder("V\tlibx264", &["libx264"]), Ok(0));
}

#[test]
fn progress_lines_report_milliseconds() {
    assert_eq!(progress_ms("out_time_ms=2500000"), Some(2_500));
    assert_eq!(progress_ms("out_time_ms=999"), Some(0));
    assert_eq!(progress_ms("out_time_ms=N/A"), None);
    assert_eq!(progress_ms("out_time=00:00:01.000000"), None);
    assert_eq!(progress_ms("frame=10"), None);
    assert_eq!(progress_ms(""), None);
    let chars = |s: &str| s.chars().collect::<Vec<_>>();
    for text in ["0", "+18446744073709551615", "18446744073709551616", "-0", "1 "] {
        assert_eq!(parse_u64(&chars(text)), text.parse::<u64>().ok(), "{text:?}");
    }
}

#[test]
fn a_missing_source_is_named_in_the_export_failure() {
    assert_eq!(export_failure_message("/a.mp4: No such file or directory"), "来源视频不存在，无法导出");
    assert_eq!(export_failure_message("Invalid data found"), "FFmpeg 无法导出该剪辑工程");
    assert_eq!(export_failure_message(""), "FFmpeg 无法导出该剪辑工程");
    assert_eq!(export_failure_message("No such file"), "来源视频不存在，无法导出");
}
