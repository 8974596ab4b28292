use dy_screen_client::domain::{
    AiInputSourceKind, AiInputStatus, AiProject, AiProjectDetail, AiProjectInput, AiProjectStatus,
    RecognitionProfile, SourceFingerprint,
};
use dy_screen_client::service::{
    count_valid_inputs, duplicate_rejection, next_input_position, require_ready_environment,
    require_valid_inputs, session_video_intake, session_video_route, summary_from,
    untrusted_rejection, video_duration_ms, PreflightReport, ServiceError, SessionImportTally,
    SessionInspection, SessionVideoRoute, TrustedLocalFile,
};

fn input(id: i64, position: i64, status: AiInputStatus, audio: Option<bool>, duration: Option<u64>) -> AiProjectInput {
    AiProjectInput {
        id,
        project_id: 1,
        position,
        source_kind: AiInputSourceKind::LocalFile,
        video_id: None,
        display_name: format!("{id}.mp4"),
        source_path: format!("/v/{id}.mp4"),
        source_fingerprint: SourceFingerprint {
            normalized_path: format!("/v/{id}.mp4"),
            size_bytes: 1,
            modified_at_ms: 1,
            video_id: None,
        },
        source_fingerprint_hash: "h".to_owned(),
        duration_ms: duration,
        audio_present: audio,
        project_offset_ms: None,
        status,
        progress_percent: 0,
        artifact_id: None,
        last_error_code: None,
        last_error_message: None,
        scheduler_generation: 0,
        queue_priority: 0,
        queue_sequence: None,
    }
}

fn detail(inputs: Vec<AiProjectInput>) -> AiProjectDetail {
    AiProjectDetail {
        project: AiProject {
            id: 1,
            name: "p".to_owned(),
            status: AiProjectStatus::Draft,
            recognition_profile: RecognitionProfile {
                engine_id: "e".to_owned(),
                engine_version: "1".to_owned(),
                model_id: "m".to_owned(),
                model_version: "1".to_owned(),
                language_hint: None,
                vad_model_id: "v".to_owned(),
                vad_threshold_millis: 1,
                vad_padding_ms: 1,
                timestamp_policy: "segment".to_owned(),
                normalization_version: "1".to_owned(),
                hotwords: Vec::new(),
            },
            recognition_profile_hash: "h".to_owned(),
            input_frozen: false,
            progress_percent: 0,
            last_error_code: None,
            last_error_message: None,
            project_tags: Vec::new(),
            analysis_goal: None,
            deleting_at: None,
            created_at: "T".to_owned(),
            updated_at: "T".to_owned(),
        },
        inputs,
    }
}

fn report(ready: bool) -> PreflightReport {
    PreflightReport {
        ready,
        engine_id: "whisper.cpp".to_owned(),
        engine_version: "1".to_owned(),
        model_id: "small".to_owned(),
        model_version: "1".to_owned(),
        platform_supported: true,
        sidecars_ready: ready,
        models_ready: true,
        memory_ready: true,
        disk_ready: true,
        message: "缺少组件".to_owned(),
    }
}

#[test]
fn summary_counts_usable_and_failed_inputs() {
    let d = detail(vec![
        input(1, 0, AiInputStatus::Pending, Some(true), Some(1_000)),
        input(2, 1, AiInputStatus::Pending, Some(false), Some(2_000)),
        input(3, 2, AiInputStatus::Failed, None, None),
        input(4, 3, AiInputStatus::Pending, Some(true), None),
    ]);
    let summary = summary_from(&d, &report(true));
    assert_eq!(summary.total_inputs, 4);
    assert_eq!(summary.valid_inputs, 1);
    assert_eq!(summary.unavailable_inputs, 1);
    assert_eq!(summary.total_duration_ms, 3_000);
    assert_eq!(summary.engine_id, "whisper.cpp");
    assert!(summary.environment_ready);
    assert_eq!(count_valid_inputs(&d.inputs), 1);
}

#[test]
fn positions_follow_the_highest_one() {
    assert_eq!(next_input_position(&[]), 0);
    let inputs = vec![
        input(1, 4, AiInputStatus::Pending, None, None),
        input(2, 2, AiInputStatus::Pending, None, None),
    ];
    assert_eq!(next_input_position(&inputs), 5);
    assert_eq!(next_input_position(&[input(1, i64::MAX, AiInputStatus::Pending, None, None)]), i64::MAX);
}

#[test]
fn analysis_needs_usable_inputs_and_a_ready_environment() {
    let empty = detail(vec![input(1, 0, AiInputStatus::Pending, Some(false), Some(1))]);
    assert_eq!(require_valid_inputs(&empty), Err(ServiceError::NoValidInput));
    let ok = detail(vec![input(1, 0, AiInputStatus::Pending, Some(true), Some(1))]);
    assert!(require_valid_inputs(&ok).is_ok());
    assert_eq!(require_ready_environment(&report(false)), Err(ServiceError::Preflight("缺少组件".to_owned())));
    assert!(require_ready_environment(&report(true)).is_ok());
    assert_eq!(ServiceError::NoValidInput.message(), "项目没有可分析的有效音轨");
}

#[test]
fn import_rejections_carry_their_codes() {
    let r = untrusted_rejection("  ", "a.mp4".to_owned()).unwrap();
    assert_eq!(r.code, "untrusted_file_grant");
    assert!(untrusted_rejection("grant", "a.mp4".to_owned()).is_none());
    assert_eq!(duplicate_rejection("a.mp4".to_owned()).message, "该视频已经存在于当前项目");
    let file = TrustedLocalFile::new("g".to_owned(), "/v/a.mp4".to_owned());
    assert_eq!(file.grant_id(), "g");
    assert_eq!(file.path(), "/v/a.mp4");
}

#[test]
fn library_durations_are_converted_when_known() {
    assert_eq!(video_duration_ms(Some(12)), Some(12_000));
    assert_eq!(video_duration_ms(Some(-1)), None);
    assert_eq!(video_duration_ms(None), None);
    assert_eq!(video_duration_ms(Some(i64::MAX)), Some(u64::MAX));
}

#[test]
fn session_videos_are_routed_by_readability_status_and_known_audio() {
    assert_eq!(session_video_route(true, "complete", None), SessionVideoRoute::Inspect);
    assert_eq!(session_video_route(true, "complete", Some(true)), SessionVideoRoute::Inspect);
    assert_eq!(session_video_route(true, "complete", Some(false)), SessionVideoRoute::NoAudio);
    assert_eq!(session_video_route(true, "recording", Some(true)), SessionVideoRoute::Unavailable);
    assert_eq!(session_video_route(false, "complete", None), SessionVideoRoute::Unavailable);
}

#[test]
fn session_video_intake_follows_the_inspection() {
    let heard = session_video_intake(
        SessionVideoRoute::Inspect,
        Some(9_000),
        None,
        Some(SessionInspection::Inspected { duration_ms: 8_500, audio_present: true }),
    );
    assert!(heard.fingerprint_from_source);
    assert_eq!((heard.duration_ms, heard.audio_present, heard.failure), (Some(8_500), Some(true), None));

    let silent = session_video_intake(
        SessionVideoRoute::Inspect,
        Some(9_000),
        None,
        Some(SessionInspection::Inspected { duration_ms: 8_500, audio_present: false }),
    );
    assert_eq!(
        silent.failure,
        Some(("session_video_no_audio".to_owned(), "录像分片没有可识别音轨".to_owned()))
    );
    assert_eq!(silent.audio_present, Some(false));

    let broken = session_video_intake(
        SessionVideoRoute::Inspect,
        Some(9_000),
        Some(true),
        Some(SessionInspection::Failed { code: "probe_failed".to_owned(), safe_message: "无法读取".to_owned() }),
    );
    assert!(!broken.fingerprint_from_source);
    assert_eq!((broken.duration_ms, broken.audio_present), (Some(9_000), Some(true)));
    assert_eq!(broken.failure, Some(("probe_failed".to_owned(), "无法读取".to_owned())));

    let missing = session_video_intake(SessionVideoRoute::Unavailable, None, Some(true), None);
    assert!(!missing.fingerprint_from_source);
    assert_eq!(
        missing.failure,
        Some(("session_video_unavailable".to_owned(), "录像分片缺失或尚未完成".to_owned()))
    );

    let known_silent = session_video_intake(SessionVideoRoute::NoAudio, Some(3_000), Some(false), None);
    assert!(known_silent.fingerprint_from_source);
    assert_eq!(known_silent.duration_ms, Some(3_000));
    assert_eq!(
        known_silent.failure,
        Some(("session_video_no_audio".to_owned(), "录像分片没有可识别音轨".to_owned()))
    );
}

#[test]
fn session_tally_starts_from_the_project_and_counts_what_it_takes() {
    let mut first = input(1, 4, AiInputStatus::Pending, Some(true), Some(10));
    first.video_id = Some(70);
    first.source_fingerprint_hash = "aaa".to_owned();
    let mut second = input(2, 9, AiInputStatus::Pending, Some(true), Some(10));
    second.source_fingerprint_hash = "bbb".to_owned();
    let mut tally = SessionImportTally::new(&[first, second]);
    assert!(tally.knows_video(70));
    assert!(!tally.knows_video(71));
    assert!(tally.knows_hash("bbb"));
    assert!(!tally.knows_hash("ccc"));
    assert_eq!(tally.position(), 10);
    tally.record_duplicate();
    tally.record_added(71, "ccc".to_owned(), true);
    tally.record_added(72, "ddd".to_owned(), false);
    assert!(tally.knows_video(71));
    assert!(tally.knows_hash("ddd"));
    assert_eq!(tally.position(), 12);
    assert_eq!(tally.counts(), (2, 1, 1));
}
