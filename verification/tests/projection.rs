use dy_screen_client::domain::{
    AiInputSourceKind, AiInputStatus, AiProject, AiProjectInput, AiProjectStatus,
    RecognitionProfile, SourceFingerprint, TranscriptSegment,
};
use dy_screen_client::highlight::{analysis_segments, require_transcript_consent};
use dy_screen_client::llm::LlmError;
use dy_screen_client::projection::{
    format_timestamp, safe_display_name, AiProjectionError, AiTranscriptProjection,
};

#[test]
fn timestamp_and_display_name_are_portable() {
    assert_eq!(format_timestamp(61_234), "01:01.234");
    assert_eq!(format_timestamp(3_661_234), "01:01:01.234");
    assert_eq!(safe_display_name("C:\\用户\\主播\\视频.mp4"), "视频.mp4");
    assert_eq!(safe_display_name("/Users/test/视频.mp4"), "视频.mp4");
}

#[test]
fn display_names_lose_line_breaks_and_timestamps_grow() {
    assert_eq!(safe_display_name("a\r\nb.mp4"), "a  b.mp4");
    assert_eq!(safe_display_name("dir/"), "");
    assert_eq!(format_timestamp(0), "00:00.000");
    assert_eq!(format_timestamp(360_000_000), "100:00:00.000");
}

fn profile() -> RecognitionProfile {
    RecognitionProfile {
        engine_id: "whisper.cpp".to_owned(),
        engine_version: "test".to_owned(),
        model_id: "small".to_owned(),
        model_version: "test".to_owned(),
        language_hint: Some("zh".to_owned()),
        vad_model_id: "silero".to_owned(),
        vad_threshold_millis: 500,
        vad_padding_ms: 500,
        timestamp_policy: "segment".to_owned(),
        normalization_version: "test".to_owned(),
        hotwords: Vec::new(),
    }
}

fn project() -> AiProject {
    AiProject {
        id: 1,
        name: "长直播".to_owned(),
        status: AiProjectStatus::Completed,
        recognition_profile: profile(),
        recognition_profile_hash: "hash".to_owned(),
        input_frozen: true,
        progress_percent: 100,
        last_error_code: None,
        last_error_message: None,
        project_tags: Vec::new(),
        analysis_goal: None,
        deleting_at: None,
        created_at: "T".to_owned(),
        updated_at: "T".to_owned(),
    }
}

fn input(id: i64, position: i64, name: &str, status: AiInputStatus) -> AiProjectInput {
    AiProjectInput {
        id,
        project_id: 1,
        position,
        source_kind: AiInputSourceKind::LocalFile,
        video_id: None,
        display_name: name.to_owned(),
        source_path: format!("/secret/{name}"),
        source_fingerprint: SourceFingerprint {
            normalized_path: format!("/secret/{name}"),
            size_bytes: 1,
            modified_at_ms: 1,
            video_id: None,
        },
        source_fingerprint_hash: "h".to_owned(),
        duration_ms: Some(30_000),
        audio_present: Some(true),
        project_offset_ms: Some(10_000),
        status,
        progress_percent: 100,
        artifact_id: None,
        last_error_code: None,
        last_error_message: Some("没有音轨".to_owned()),
        scheduler_generation: 0,
        queue_priority: 0,
        queue_sequence: None,
    }
}

fn transcript(id: &str, start: u64, end: u64, text: &str) -> TranscriptSegment {
    TranscriptSegment {
        id: id.to_owned(),
        artifact_id: 1,
        ordinal: 0,
        source_start_ms: start,
        source_end_ms: end,
        raw_text: text.to_owned(),
        normalized_text: text.to_owned(),
        confidence_bits: Some(0.9_f32.to_bits()),
    }
}

fn sample() -> AiTranscriptProjection {
    AiTranscriptProjection::from_parts(
        project(),
        vec![
            (
                input(7, 0, "C:\\videos\\一.mp4", AiInputStatus::Completed),
                vec![transcript("s1", 0, 1_500, " 你好 "), transcript("s2", 1_500, 3_000, "  ")],
            ),
            (input(8, 1, "二.mp4", AiInputStatus::Failed), Vec::new()),
        ],
    )
}

#[test]
fn projection_places_segments_and_records_gaps() {
    let projection = sample();
    assert_eq!(projection.inputs.len(), 2);
    let first = &projection.inputs[0];
    assert_eq!(first.display_name, "一.mp4");
    assert_eq!(first.segments[0].project_start_ms, Some(10_000));
    assert_eq!(first.segments[0].project_end_ms, Some(11_500));
    assert_eq!(first.segments[0].confidence_bits, Some(0.9_f32.to_bits()));
    assert_eq!(first.gap_duration_ms, None);
    assert_eq!(projection.inputs[1].gap_duration_ms, Some(30_000));
}

#[test]
fn copied_texts_skip_blank_segments() {
    let projection = sample();
    assert_eq!(projection.copy_input_text(7).unwrap(), "你好");
    assert_eq!(projection.copy_input_text(9), Err(AiProjectionError::InputNotFound));
    assert_eq!(projection.copy_segment_text("s1").unwrap(), " 你好 ");
    assert!(projection.copy_segment_text("missing").is_err());
    assert_eq!(
        projection.copy_project_text(),
        "【一.mp4】\n你好\n\n【二.mp4】\n（无可用转写）"
    );
}

#[test]
fn txt_export_lists_inputs_with_times() {
    let txt = sample().to_txt();
    assert_eq!(
        txt,
        "项目：长直播\n\n=== 视频 1：一.mp4 ===\n[00:00.000 - 00:01.500] 你好\n[00:01.500 - 00:03.000] \n\n=== 视频 2：二.mp4 ===\n（无可用转写：没有音轨）\n"
    );
    assert!(!txt.contains("/secret"));
}

#[test]
fn analysis_reads_the_normalized_transcript_input_after_input() {
    let projection = AiTranscriptProjection::from_parts(
        project(),
        vec![
            (input(7, 0, "一.mp4", AiInputStatus::Completed), vec![transcript("s1", 0, 1_500, "你好"), transcript("s2", 1_500, 3_000, "再见")]),
            (input(8, 1, "二.mp4", AiInputStatus::Failed), Vec::new()),
            (input(9, 2, "三.mp4", AiInputStatus::Completed), vec![transcript("s3", 100, 900, "第三")]),
        ],
    );
    let segments = analysis_segments(&projection);
    let seen: Vec<(&str, i64, u64, u64, &str)> = segments
        .iter()
        .map(|s| (s.stable_id.as_str(), s.input_id, s.start_ms, s.end_ms, s.text.as_str()))
        .collect();
    assert_eq!(
        seen,
        vec![("s1", 7, 0, 1_500, "你好"), ("s2", 7, 1_500, 3_000, "再见"), ("s3", 9, 100, 900, "第三")]
    );
    assert_eq!(require_transcript_consent(true), Ok(()));
    assert_eq!(
        require_transcript_consent(false),
        Err(LlmError::InvalidConfiguration("必须确认将规范化转写发送给 DeepSeek".to_owned()))
    );
}
