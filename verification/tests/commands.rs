use sha2::{Digest, Sha256};
use dy_screen_client::commands::{
    deletion_needs_cancellation, highlight_analysis_failed, highlight_authorization_required,
    highlight_task_needed, llm_diagnosis_failed, llm_provider_unavailable, normalize_hotwords,
    preempt_without_queue_control, repository_error, sanitize_project_input, service_error,
    FileSelection, TrustedFileGrantStore,
};
use dy_screen_client::domain::{
    AiHighlightRunStatus, AiInputSourceKind, AiInputStatus, AiProjectInput, AiProjectStatus,
    SourceFingerprint,
};
use dy_screen_client::llm::LlmError;
use dy_screen_client::repository::AiRepositoryError;
use dy_screen_client::service::ServiceError;

#[test]
fn hotwords_are_trimmed_sorted_and_unique() {
    let words = vec![" 乙 ".to_owned(), "甲".to_owned(), "".to_owned(), "乙".to_owned(), "  ".to_owned()];
    assert_eq!(normalize_hotwords(words), vec!["乙", "甲"]);
    let many: Vec<String> = (0..150).map(|i| format!("w{i:03}")).collect();
    let kept = normalize_hotwords(many);
    assert_eq!(kept.len(), 100);
    assert_eq!(kept.last().unwrap(), "w099");
}

fn file(path: &str, name: Option<&str>) -> FileSelection {
    FileSelection::File {
        canonical_path: path.to_owned(),
        path_bytes: path.as_bytes().to_vec(),
        file_name: name.map(|n| n.to_owned()),
    }
}

#[test]
fn grants_are_issued_once_per_path_and_consumed_once() {
    let mut store = TrustedFileGrantStore::new();
    let grants = store
        .register(
            &[file("/v/a.mp4", Some("a.mp4")), file("/v/a.mp4", Some("a.mp4")), file("/v/b.mp4", None)],
            1_000,
        )
        .unwrap();
    assert_eq!(grants.len(), 2);
    assert!(grants[0].grant_id.starts_with("ai-file-0000000000000001-"));
    assert!(grants[1].grant_id.starts_with("ai-file-0000000000000002-"));
    assert_eq!(grants[0].grant_id.len(), "ai-file-".len() + 16 + 1 + 12);
    assert_eq!(grants[1].display_name, "未命名视频");
    let ids = vec![grants[1].grant_id.clone(), grants[0].grant_id.clone()];
    let files = store.consume(&ids, 2_000).unwrap();
    assert_eq!(files[0].path(), "/v/b.mp4");
    assert_eq!(files[1].path(), "/v/a.mp4");
    assert_eq!(files[1].grant_id(), grants[0].grant_id);
    let again = store.consume(&ids, 2_000).unwrap_err();
    assert_eq!(again.code, "untrusted_file_grant");
}

#[test]
fn grant_ids_hash_the_canonical_path() {
    let mut store = TrustedFileGrantStore::new();
    let grant = store.register(&[file("/v/a.mp4", Some("a\nb.mp4"))], 0).unwrap().remove(0);
    let digest = hex::encode(Sha256::digest(b"/v/a.mp4"));
    assert_eq!(grant.grant_id, format!("ai-file-{:016x}-{}", 1, &digest[..12]));
    assert_eq!(grant.display_name, "a b.mp4");
}

#[test]
fn expired_duplicate_or_unknown_grants_are_refused() {
    let mut store = TrustedFileGrantStore::new();
    let grant = store.register(&[file("/v/a.mp4", None)], 0).unwrap().remove(0);
    let id = grant.grant_id.clone();
    assert!(store.consume(&[], 1).is_err());
    assert!(store.consume(&[id.clone(), id.clone()], 1).is_err());
    assert!(store.consume(&[id.clone(), "ai-file-x".to_owned()], 1).is_err());
    assert!(store.consume(&[id.clone()], 900_000).is_err());
}

#[test]
fn registration_stops_at_the_first_unusable_file() {
    let mut store = TrustedFileGrantStore::new();
    let error = store
        .register(&[file("/v/a.mp4", None), FileSelection::NotRegular, file("/v/b.mp4", None)], 0)
        .unwrap_err();
    assert_eq!(error.code, "selected_file_not_regular");
    assert!(!error.retryable);
    let error = store.register(&[FileSelection::Unavailable], 0).unwrap_err();
    assert_eq!(error.code, "selected_file_unavailable");
    assert_eq!(error.message, "选择的视频不存在或不可访问");
    let next = store.register(&[file("/v/c.mp4", None)], 0).unwrap();
    assert!(next[0].grant_id.starts_with("ai-file-0000000000000002-"));
}

#[test]
fn errors_map_to_command_codes() {
    let e = repository_error(AiRepositoryError::ClipVersionConflict);
    assert_eq!(e.code, "clip_version_conflict");
    assert_eq!(e.message, "剪辑工程版本已更新，请重新加载后再编辑字幕");
    assert!(e.retryable);
    let e = repository_error(AiRepositoryError::NotFound("项目".to_owned()));
    assert_eq!((e.code.as_str(), e.message.as_str()), ("ai_repository_error", "找不到记录：项目"));
    let e = service_error(ServiceError::Preflight("缺少模型".to_owned()));
    assert_eq!(e.code, "asr_environment_not_ready");
    assert_eq!(e.message, "本地 ASR 环境未就绪：缺少模型");
    assert_eq!(preempt_without_queue_control(false).code, "confirmation_required");
    assert_eq!(preempt_without_queue_control(true).code, "scheduler_control_unavailable");
}

#[test]
fn input_views_drop_paths() {
    let input = AiProjectInput {
        id: 3,
        project_id: 1,
        position: 2,
        source_kind: AiInputSourceKind::VideoLibrary,
        video_id: Some(9),
        display_name: "x.mp4".to_owned(),
        source_path: "/secret/x.mp4".to_owned(),
        source_fingerprint: SourceFingerprint {
            normalized_path: "/secret/x.mp4".to_owned(),
            size_bytes: 1,
            modified_at_ms: 1,
            video_id: Some(9),
        },
        source_fingerprint_hash: "h".to_owned(),
        duration_ms: Some(5),
        audio_present: Some(true),
        project_offset_ms: None,
        status: AiInputStatus::Pending,
        progress_percent: 0,
        artifact_id: None,
        last_error_code: None,
        last_error_message: None,
        scheduler_generation: 0,
        queue_priority: 0,
        queue_sequence: None,
    };
    let view = sanitize_project_input(input);
    assert_eq!(view.id, 3);
    assert_eq!(view.display_name, "x.mp4");
    assert_eq!(view.video_id, Some(9));
}

#[test]
fn highlight_command_errors_carry_their_codes_and_retry_hints() {
    let missing = llm_provider_unavailable();
    assert_eq!((missing.code.as_str(), missing.retryable), ("llm_provider_unavailable", true));
    assert_eq!(missing.message, "高光分析 Provider 尚未配置");
    let unauthorized = highlight_authorization_required();
    assert_eq!((unauthorized.code.as_str(), unauthorized.retryable), ("highlight_authorization_required", false));
    let failed = highlight_analysis_failed(&LlmError::Credential);
    assert_eq!((failed.code.as_str(), failed.message.as_str(), failed.retryable), ("highlight_analysis_failed", "凭据不可用", true));
    let temporary = llm_diagnosis_failed(&LlmError::Temporary);
    assert_eq!((temporary.code.as_str(), temporary.message.as_str(), temporary.retryable), ("llm_diagnosis_failed", "Provider 暂时不可用", true));
    assert!(llm_diagnosis_failed(&LlmError::Provider).retryable);
    assert!(!llm_diagnosis_failed(&LlmError::Credential).retryable);
    assert!(!llm_diagnosis_failed(&LlmError::InvalidResponse).retryable);
}

#[test]
fn only_unfinished_runs_start_a_task_and_only_active_projects_are_cancelled_before_deletion() {
    assert!(!highlight_task_needed(AiHighlightRunStatus::Completed));
    assert!(highlight_task_needed(AiHighlightRunStatus::Partial));
    assert!(highlight_task_needed(AiHighlightRunStatus::Pending));
    assert!(deletion_needs_cancellation(AiProjectStatus::Queued));
    assert!(deletion_needs_cancellation(AiProjectStatus::Running));
    assert!(!deletion_needs_cancellation(AiProjectStatus::Draft));
    assert!(!deletion_needs_cancellation(AiProjectStatus::Completed));
}
