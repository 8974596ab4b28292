use dy_screen_client::commands::AiEnvironmentCheckView;
use dy_screen_client::desktop_runtime::{
    check_passed, component_diagnostic, environment_diagnostic, environment_readiness,
    failed_diagnostic, job_id, preflight_report, project_status_on_start, recording_blocks_asr,
    scheduler_event_report, takes_terminal_status, LocalAsrEnvironment, SchedulerEventKind,
};
use dy_screen_client::domain::{AiInputStatus, AiProjectStatus};

fn check(code: &str, passed: bool) -> AiEnvironmentCheckView {
    AiEnvironmentCheckView { code: code.to_owned(), passed, message: format!("{code} 检查") }
}

fn all_checks() -> Vec<AiEnvironmentCheckView> {
    [
        "whisper_sidecar",
        "vad_sidecar",
        "ffmpeg",
        "ffprobe",
        "engine_version",
        "asr_model",
        "vad_model",
        "normalization_mapping",
        "total_memory",
        "available_memory",
        "available_disk",
    ]
    .into_iter()
    .map(|code| check(code, true))
    .collect()
}

#[test]
fn readiness_needs_every_check_and_reports_the_first_failure() {
    let (ready, message) = environment_readiness(&all_checks());
    assert!(ready);
    assert_eq!(message, "本地 ASR 环境就绪，识别过程不会上传视频");
    let mut checks = all_checks();
    checks[3].passed = false;
    checks[7].passed = false;
    let (ready, message) = environment_readiness(&checks);
    assert!(!ready);
    assert_eq!(message, "ffprobe 检查");
}

#[test]
fn the_first_check_of_a_code_decides_and_a_missing_check_fails() {
    let checks = vec![check("ffmpeg", false), check("ffmpeg", true)];
    assert!(!check_passed(&checks, "ffmpeg"));
    assert!(!check_passed(&checks, "ffprobe"));
    assert!(check_passed(&[check("ffprobe", true)], "ffprobe"));
}

#[test]
fn preflight_groups_the_checks_it_rests_on() {
    let mut checks = all_checks();
    checks[9].passed = false;
    let diagnostic = environment_diagnostic(
        "linux-x86_64".to_owned(),
        "whisper.cpp".to_owned(),
        "1.7".to_owned(),
        "small".to_owned(),
        "q5".to_owned(),
        checks,
        None,
    );
    assert!(!diagnostic.ready);
    assert_eq!(diagnostic.message, "available_memory 检查");
    let report = preflight_report(diagnostic, true);
    assert!(!report.ready);
    assert!(report.platform_supported);
    assert!(report.sidecars_ready);
    assert!(report.models_ready);
    assert!(!report.memory_ready);
    assert!(report.disk_ready);
    assert_eq!(report.engine_id, "whisper.cpp");
    assert_eq!(report.message, "available_memory 检查");

    let mut partial = all_checks();
    partial.retain(|c| c.code != "vad_model");
    let report = preflight_report(
        environment_diagnostic(String::new(), String::new(), String::new(), String::new(), String::new(), partial, None),
        false,
    );
    assert!(report.ready);
    assert!(!report.models_ready);
    assert!(!report.platform_supported);
}

#[test]
fn a_failed_check_run_is_reported_as_one_failed_check() {
    let diagnostic = failed_diagnostic(
        "macos-aarch64".to_owned(),
        "whisper.cpp".to_owned(),
        String::new(),
        String::new(),
        String::new(),
        "asr_diagnostic_failed".to_owned(),
        "本地 ASR 环境检查异常退出，请重新检测".to_owned(),
        None,
    );
    assert!(!diagnostic.ready);
    assert_eq!(diagnostic.checks.len(), 1);
    assert_eq!(diagnostic.checks[0].code, "asr_diagnostic_failed");
    assert!(!diagnostic.checks[0].passed);
    assert_eq!(diagnostic.message, "本地 ASR 环境检查异常退出，请重新检测");
}

#[test]
fn component_diagnostic_counts_files_and_sums_sizes() {
    let component = component_diagnostic("asr.model".to_owned(), "3".to_owned(), true, &[10, 20, 5]);
    assert_eq!((component.file_count, component.size_bytes), (3, 35));
    assert_eq!(component_diagnostic("x".to_owned(), "1".to_owned(), false, &[]).size_bytes, 0);
}

#[test]
fn job_ids_and_resource_roots() {
    assert_eq!(job_id(12, -3), "ai-project-12-input--3");
    let mut environment = LocalAsrEnvironment::load("/bundle".to_owned());
    assert_eq!(environment.active_root(), "/bundle");
    environment.activate_resource_root("/downloaded".to_owned());
    assert_eq!(environment.active_root(), "/downloaded");
    assert_eq!(environment.resource_root(), "/bundle");
}

/// The settings' default lets recognition run beside a live recording; the
/// recording-first setting makes it wait while a recording runs.
#[test]
fn recording_gate_allows_parallel_asr_by_default_and_supports_priority_mode() {
    let default_settings_parallel = Some(true);
    let one_streamer_recording = Some(1);
    assert!(!recording_blocks_asr(default_settings_parallel, one_streamer_recording));

    let recording_first = Some(false);
    assert!(recording_blocks_asr(recording_first, one_streamer_recording));
}

#[test]
fn unreadable_state_makes_recognition_wait() {
    assert!(recording_blocks_asr(None, None));
    assert!(recording_blocks_asr(Some(false), None));
    assert!(!recording_blocks_asr(Some(false), Some(0)));
    assert!(!recording_blocks_asr(None, Some(0)));
}

#[test]
fn scheduler_events_are_reported_with_their_stage() {
    assert_eq!(scheduler_event_report(SchedulerEventKind::QueueChanged), None);
    let started = scheduler_event_report(SchedulerEventKind::Started).unwrap();
    assert_eq!((started.stage, started.message, started.starts_project), ("started", "开始处理视频", true));
    let failed = scheduler_event_report(SchedulerEventKind::Failed { code: "asr_engine_failed".to_owned() }).unwrap();
    assert_eq!(failed.stage, "failed");
    assert_eq!(
        failed.terminal,
        Some((AiInputStatus::Failed, "asr_engine_failed".to_owned(), "语音识别调度失败"))
    );
    let cancelled = scheduler_event_report(SchedulerEventKind::Cancelled).unwrap();
    assert_eq!(
        cancelled.terminal,
        Some((AiInputStatus::Cancelled, "asr_cancelled".to_owned(), "语音识别已取消"))
    );
    let waiting = scheduler_event_report(SchedulerEventKind::WaitingForRecording).unwrap();
    assert_eq!(waiting.message, "录制优先模式：正在等待录制结束");
    assert_eq!(scheduler_event_report(SchedulerEventKind::Requeued).unwrap().stage, "requeued");
    assert!(takes_terminal_status(AiInputStatus::Transcribing));
    assert!(!takes_terminal_status(AiInputStatus::Completed));
    assert!(!takes_terminal_status(AiInputStatus::Failed));
    assert_eq!(project_status_on_start(AiProjectStatus::Queued), Some(AiProjectStatus::Running));
    assert_eq!(project_status_on_start(AiProjectStatus::Running), None);
}
