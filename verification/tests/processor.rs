use dy_screen_client::domain::{
    AiArtifactStatus, AiProject, AsrArtifact, RecognitionProfile, RecoverySummary,
};
use dy_screen_client::recovery::{recover_interrupted, RecoveryState};
use dy_screen_client::row_updates::{
    after_automated_increment, after_manual_edit, cancel_project_rows, draft_after_manual_edit,
    scheduler_event_accepted,
};
use dy_screen_client::smart_clip::ClipProjectEditState;
use dy_screen_client::lifecycle::AiLifecycle;
use dy_screen_client::desktop_runtime::{job_id, repository_command_error, LocalAsrEnvironment};
use dy_screen_client::domain::{
    AiInputSourceKind, AiInputStatus, AiProjectInput, AiProjectStatus, SourceFingerprint,
};
use dy_screen_client::processor::{
    asr_input_progress, check_processable, check_source_unchanged, failure_transition,
    job_event_from, next_pipeline_step, require_audio, source_modified_ms, stage_report,
    PipelineAction, PipelineEvent, PipelinePhase, PipelineStage,
};
use dy_screen_client::repository::AiRepositoryError;

fn fingerprint(size: u64) -> SourceFingerprint {
    SourceFingerprint {
        normalized_path: "/v/a.mp4".to_owned(),
        size_bytes: size,
        modified_at_ms: 5,
        video_id: None,
    }
}

fn input(id: i64, progress: u8, status: AiInputStatus) -> AiProjectInput {
    AiProjectInput {
        id,
        project_id: 1,
        position: id,
        source_kind: AiInputSourceKind::LocalFile,
        video_id: None,
        display_name: "a.mp4".to_owned(),
        source_path: "/v/a.mp4".to_owned(),
        source_fingerprint: fingerprint(1),
        source_fingerprint_hash: "h".to_owned(),
        duration_ms: Some(1),
        audio_present: Some(true),
        project_offset_ms: None,
        status,
        progress_percent: progress,
        artifact_id: None,
        last_error_code: None,
        last_error_message: None,
        scheduler_generation: 0,
        queue_priority: 0,
        queue_sequence: None,
    }
}

#[test]
fn only_pending_inputs_of_running_projects_are_processed() {
    assert_eq!(
        check_processable(1, AiProjectStatus::Draft, &input(1, 0, AiInputStatus::Pending)),
        Err(AiRepositoryError::InvalidState("只有运行中的项目可以处理输入".to_owned()))
    );
    assert_eq!(
        check_processable(2, AiProjectStatus::Running, &input(1, 0, AiInputStatus::Pending)),
        Err(AiRepositoryError::InvalidState("项目输入不处于可执行状态".to_owned()))
    );
    assert!(check_processable(1, AiProjectStatus::Running, &input(1, 0, AiInputStatus::Pending)).is_ok());
}

#[test]
fn pipeline_checks_stop_changed_or_silent_media() {
    assert!(check_source_unchanged(&fingerprint(1), &fingerprint(1)).is_ok());
    assert_eq!(check_source_unchanged(&fingerprint(1), &fingerprint(2)).unwrap_err().code, "media_changed");
    assert_eq!(require_audio(false).unwrap_err().code, "no_audio_track");
    assert_eq!(source_modified_ms(7), Ok(7));
    assert_eq!(source_modified_ms(u64::MAX).unwrap_err().code, "media_timestamp_unavailable");
}

#[test]
fn stages_report_their_progress() {
    assert_eq!(stage_report(PipelineStage::Validating), (AiInputStatus::Validating, "validating", 10, "正在验证原始视频"));
    assert_eq!(stage_report(PipelineStage::NoSpeech).0, AiInputStatus::Skipped);
    assert_eq!(stage_report(PipelineStage::Completed).2, 100);
    assert_eq!(asr_input_progress(0), 75);
    assert_eq!(asr_input_progress(50), 87);
    assert_eq!(asr_input_progress(10_000), 99);
}

#[test]
fn failures_end_unfinished_inputs_only() {
    assert_eq!(failure_transition("asr_cancelled", AiInputStatus::Transcribing), Some(AiInputStatus::Cancelled));
    assert_eq!(failure_transition("media_changed", AiInputStatus::Validating), Some(AiInputStatus::Failed));
    assert_eq!(failure_transition("media_changed", AiInputStatus::Completed), None);
}

#[test]
fn events_average_the_inputs_progress() {
    let inputs = vec![input(1, 20, AiInputStatus::Transcribing), input(2, 100, AiInputStatus::Completed)];
    let event = job_event_from(1, 1, AiProjectStatus::Running, &inputs, "transcribing", 80, "正在识别语音").unwrap();
    assert_eq!(event.input_progress_percent, 80);
    assert_eq!(event.project_progress_percent, 90);
    assert_eq!(event.input_status, AiInputStatus::Transcribing);
    let lower = job_event_from(1, 2, AiProjectStatus::Running, &inputs, "completed", 10, "x").unwrap();
    assert_eq!(lower.input_progress_percent, 100);
    assert!(job_event_from(1, 3, AiProjectStatus::Running, &inputs, "x", 0, "x").is_none());
}

#[test]
fn runtime_names_jobs_and_tracks_the_active_root() {
    assert_eq!(job_id(3, -4), "ai-project-3-input--4");
    let mut environment = LocalAsrEnvironment::load("/bundle".to_owned());
    assert_eq!(environment.active_root(), "/bundle");
    environment.activate_resource_root("/updated".to_owned());
    assert_eq!(environment.active_root(), "/updated");
    assert_eq!(environment.resource_root(), "/bundle");
    let error = repository_command_error(AiRepositoryError::EmptyProject);
    assert_eq!(error.code, "ai_repository_error");
    assert_eq!(error.message, "项目至少需要一个有效视频输入");
}

fn project(id: i64, status: AiProjectStatus) -> AiProject {
    AiProject {
        id,
        name: "p".to_owned(),
        status,
        recognition_profile: RecognitionProfile {
            engine_id: "e".to_owned(),
            engine_version: "1".to_owned(),
            model_id: "m".to_owned(),
            model_version: "1".to_owned(),
            language_hint: None,
            vad_model_id: "v".to_owned(),
            vad_threshold_millis: 500,
            vad_padding_ms: 100,
            timestamp_policy: "segment".to_owned(),
            normalization_version: "1".to_owned(),
            hotwords: Vec::new(),
        },
        recognition_profile_hash: "h".to_owned(),
        input_frozen: true,
        progress_percent: 10,
        last_error_code: None,
        last_error_message: None,
        project_tags: Vec::new(),
        analysis_goal: None,
        deleting_at: None,
        created_at: "t0".to_owned(),
        updated_at: "t1".to_owned(),
    }
}

fn artifact(id: i64, status: AiArtifactStatus) -> AsrArtifact {
    AsrArtifact {
        id,
        source_fingerprint: fingerprint(1),
        source_fingerprint_hash: "h".to_owned(),
        recognition_profile_hash: "p".to_owned(),
        engine_id: "e".to_owned(),
        engine_version: "1".to_owned(),
        model_id: "m".to_owned(),
        model_version: "1".to_owned(),
        status,
        duration_ms: None,
        language: None,
        created_at: "t0".to_owned(),
        published_at: None,
        last_used_at: "t0".to_owned(),
    }
}

#[test]
fn lifecycle_reports_recovery_without_paths() {
    let lifecycle = AiLifecycle::new("/tmp/ai-audio".to_owned());
    assert_eq!(lifecycle.temporary_root(), "/tmp/ai-audio");
    let mut transcribing = input(1, 80, AiInputStatus::Transcribing);
    transcribing.scheduler_generation = 4;
    transcribing.queue_priority = 3;
    transcribing.queue_sequence = Some(9);
    let state = RecoveryState {
        projects: vec![project(1, AiProjectStatus::Running), project(2, AiProjectStatus::Draft)],
        inputs: vec![
            transcribing,
            input(2, 0, AiInputStatus::Pending),
            input(3, 100, AiInputStatus::Completed),
            input(4, 10, AiInputStatus::Validating),
        ],
        artifacts: vec![
            artifact(1, AiArtifactStatus::Pending),
            artifact(2, AiArtifactStatus::Published),
        ],
    };
    let (recovered, report) = lifecycle.recover_startup(state, "t2", 4).unwrap();
    assert_eq!(report.database, RecoverySummary { projects: 1, inputs: 2, artifacts: 1 });
    assert_eq!(report.removed_temporary_audio_files, 4);
    assert_eq!(recovered.projects[0].status, AiProjectStatus::Queued);
    assert_eq!(recovered.projects[0].updated_at, "t2");
    assert_eq!(recovered.projects[1], project(2, AiProjectStatus::Draft));
    let first = &recovered.inputs[0];
    assert_eq!(first.status, AiInputStatus::Pending);
    assert_eq!(first.scheduler_generation, 5);
    assert_eq!(first.queue_priority, 0);
    assert_eq!(first.queue_sequence, None);
    assert_eq!(first.last_error_code.as_deref(), Some("interrupted"));
    assert_eq!(first.last_error_message.as_deref(), Some("应用异常退出，等待用户重试"));
    assert_eq!(first.progress_percent, 80);
    assert_eq!(recovered.inputs[1], input(2, 0, AiInputStatus::Pending));
    assert_eq!(recovered.inputs[2], input(3, 100, AiInputStatus::Completed));
    assert_eq!(recovered.inputs[3].scheduler_generation, 1);
    assert_eq!(recovered.artifacts[0].status, AiArtifactStatus::Invalidated);
    assert_eq!(recovered.artifacts[1].status, AiArtifactStatus::Published);
}

#[test]
fn recovery_fails_as_a_whole_when_a_generation_cannot_grow() {
    let mut stuck = input(1, 50, AiInputStatus::DetectingSpeech);
    stuck.scheduler_generation = i64::MAX as u64;
    let state = RecoveryState { projects: Vec::new(), inputs: vec![stuck], artifacts: Vec::new() };
    assert_eq!(
        recover_interrupted(state, "t").err(),
        Some(AiRepositoryError::Sqlite("integer overflow".to_owned()))
    );
}

#[test]
fn pipeline_steps_follow_the_recognition_order() {
    let (phase, action) =
        next_pipeline_step(PipelinePhase::Validating, PipelineEvent::SourceChecked { cached: true })
            .unwrap();
    assert_eq!(phase, PipelinePhase::Finished);
    assert!(matches!(action, PipelineAction::ReuseCachedTranscript));
    let mut phase = PipelinePhase::Validating;
    let events = [
        PipelineEvent::SourceChecked { cached: false },
        PipelineEvent::Inspected { audio_present: true },
        PipelineEvent::AudioPrepared,
        PipelineEvent::SpeechDetected { regions: 3 },
        PipelineEvent::Transcribed { segments: 2 },
    ];
    let mut actions = Vec::new();
    for event in events {
        let (next, action) = next_pipeline_step(phase, event).unwrap();
        phase = next;
        actions.push(action);
    }
    assert_eq!(phase, PipelinePhase::Finished);
    assert!(matches!(actions[0], PipelineAction::Inspect));
    assert!(matches!(actions[1], PipelineAction::PrepareAudio));
    assert!(matches!(actions[2], PipelineAction::DetectSpeech));
    assert!(matches!(actions[3], PipelineAction::Transcribe));
    assert!(matches!(actions[4], PipelineAction::PublishTranscript));
    match next_pipeline_step(PipelinePhase::Inspecting, PipelineEvent::Inspected { audio_present: false }) {
        Some((PipelinePhase::Finished, PipelineAction::Reject(e))) => assert_eq!(e.code, "no_audio_track"),
        _ => panic!("expected a rejection"),
    }
    assert!(matches!(
        next_pipeline_step(PipelinePhase::DetectingSpeech, PipelineEvent::SpeechDetected { regions: 0 }),
        Some((PipelinePhase::Finished, PipelineAction::Skip(PipelineStage::NoSpeech)))
    ));
    assert!(matches!(
        next_pipeline_step(PipelinePhase::Transcribing, PipelineEvent::Transcribed { segments: 0 }),
        Some((PipelinePhase::Finished, PipelineAction::Skip(PipelineStage::NoText)))
    ));
    assert!(next_pipeline_step(PipelinePhase::Finished, PipelineEvent::AudioPrepared).is_none());
    assert!(next_pipeline_step(PipelinePhase::Validating, PipelineEvent::AudioPrepared).is_none());
}

#[test]
fn cancelling_a_project_cancels_its_unfinished_inputs() {
    let mut other = input(9, 0, AiInputStatus::Pending);
    other.project_id = 2;
    let inputs = vec![
        input(1, 0, AiInputStatus::Pending),
        input(2, 40, AiInputStatus::Transcribing),
        input(3, 100, AiInputStatus::Completed),
        other.clone(),
    ];
    let (cancelled, rows) =
        cancel_project_rows(project(1, AiProjectStatus::Running), inputs, "t9").unwrap();
    assert_eq!(cancelled.status, AiProjectStatus::Cancelled);
    assert_eq!(cancelled.updated_at, "t9");
    for row in &rows[..2] {
        assert_eq!(row.status, AiInputStatus::Cancelled);
        assert_eq!(row.last_error_code.as_deref(), Some("user_cancelled"));
        assert_eq!(row.last_error_message.as_deref(), Some("用户已取消语音识别"));
    }
    assert_eq!(rows[2], input(3, 100, AiInputStatus::Completed));
    assert_eq!(rows[3], other);
    assert_eq!(
        cancel_project_rows(project(1, AiProjectStatus::Draft), Vec::new(), "t").err(),
        Some(AiRepositoryError::InvalidState("只有排队或运行中的项目可以取消".to_owned()))
    );
}

#[test]
fn scheduler_events_apply_only_to_their_generation_of_a_live_input() {
    assert!(scheduler_event_accepted(3, AiInputStatus::Transcribing, 3));
    assert!(!scheduler_event_accepted(4, AiInputStatus::Transcribing, 3));
    assert!(!scheduler_event_accepted(3, AiInputStatus::Cancelled, 3));
    assert!(scheduler_event_accepted(3, AiInputStatus::Skipped, 3));
}

#[test]
fn edits_advance_the_clip_project_version() {
    let state = ClipProjectEditState {
        version: 7,
        ownership: "automation".to_owned(),
        smart_workflow_id: Some(1),
        draft_generation: Some(2),
        export_status: "failed".to_owned(),
    };
    let edited = after_manual_edit(ClipProjectEditState { ..state.clone() });
    assert_eq!(edited.version, 8);
    assert_eq!(edited.ownership, "user");
    assert_eq!(edited.export_status, "idle");
    let (automated, draft_version) = after_automated_increment(state, 4);
    assert_eq!((automated.version, automated.ownership.as_str(), draft_version), (8, "automation", 5));
    assert_eq!(
        draft_after_manual_edit("automation", "active"),
        ("user".to_owned(), "review_ready".to_owned())
    );
    assert_eq!(
        draft_after_manual_edit("automation", "failed"),
        ("user".to_owned(), "failed".to_owned())
    );
    assert_eq!(
        draft_after_manual_edit("user", "active"),
        ("user".to_owned(), "active".to_owned())
    );
}
