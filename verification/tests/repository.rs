use dy_screen_client::domain::{AiInputStatus, AiProjectStatus, NewAiHighlightRun};
use dy_screen_client::repository::{
    check_new_highlight_run, correction_changes, input_offsets, plan_clip_text_correction, project_rollup, AiRepositoryError,
    CorrectionSubtitleRow,
};

use AiInputStatus as I;
use AiProjectStatus as P;

#[test]
fn project_progress_is_the_average_of_its_inputs() {
    assert_eq!(project_rollup(P::Running, &[]), None);
    assert_eq!(project_rollup(P::Running, &[I::Pending, I::Transcribing]), Some((37, P::Running)));
    assert_eq!(project_rollup(P::Queued, &[I::Validating, I::PreparingAudio, I::DetectingSpeech]), Some((26, P::Queued)));
    assert_eq!(project_rollup(P::Running, &[I::Completed, I::Failed, I::Skipped]), Some((100, P::CompletedWithErrors)));
}

#[test]
fn a_running_project_finishes_by_the_outcome_of_its_inputs() {
    assert_eq!(project_rollup(P::Running, &[I::Completed, I::Skipped]), Some((100, P::Completed)));
    assert_eq!(project_rollup(P::Running, &[I::Completed, I::Cancelled]), Some((100, P::CompletedWithErrors)));
    assert_eq!(project_rollup(P::Running, &[I::Cancelled, I::Cancelled]), Some((100, P::Cancelled)));
    assert_eq!(project_rollup(P::Running, &[I::Cancelled, I::Failed]), Some((100, P::Failed)));
    assert_eq!(project_rollup(P::Running, &[I::Failed]), Some((100, P::Failed)));
    assert_eq!(project_rollup(P::Running, &[I::Completed, I::Transcribing]), Some((87, P::Running)));
}

#[test]
fn only_running_projects_change_status() {
    assert_eq!(project_rollup(P::Queued, &[I::Completed]), Some((100, P::Queued)));
    assert_eq!(project_rollup(P::Cancelled, &[I::Completed, I::Failed]), Some((100, P::Cancelled)));
    assert_eq!(project_rollup(P::Draft, &[I::Failed]), Some((100, P::Draft)));
}

fn row(id: i64, original: &str, text: &str, hidden: bool) -> CorrectionSubtitleRow {
    CorrectionSubtitleRow { subtitle_id: id, original_text: original.to_owned(), text: text.to_owned(), hidden }
}

#[test]
fn correction_targets_only_visible_unedited_subtitles() {
    let plan = plan_clip_text_correction(
        4,
        vec![
            row(1, "你好", "你好", false),
            row(2, "原文", "改过", false),
            row(3, "隐藏", "隐藏", true),
            row(4, "再见", "再见", false),
            row(5, "原文", "改过", true),
        ],
    )
    .unwrap();
    assert_eq!(plan.project_version, 4);
    let targets: Vec<(i64, &str)> = plan.targets.iter().map(|t| (t.subtitle_id, t.text.as_str())).collect();
    assert_eq!(targets, vec![(1, "你好"), (4, "再见")]);
    assert_eq!((plan.skipped_manual, plan.skipped_hidden), (1, 2));
    assert_eq!(
        plan_clip_text_correction(-1, Vec::new()),
        Err(AiRepositoryError::Integrity("剪辑工程版本无效".to_owned()))
    );
}

#[test]
fn a_correction_applies_only_to_the_text_it_expected() {
    assert_eq!(correction_changes(None, "a", "b"), Err(AiRepositoryError::NotFound("工程字幕".to_owned())));
    assert_eq!(correction_changes(Some(("a", "a", true)), "a", "b"), Err(AiRepositoryError::ClipVersionConflict));
    assert_eq!(correction_changes(Some(("a", "x", false)), "x", "b"), Err(AiRepositoryError::ClipVersionConflict));
    assert_eq!(correction_changes(Some(("a", "a", false)), "z", "b"), Err(AiRepositoryError::ClipVersionConflict));
    assert_eq!(correction_changes(Some(("a", "a", false)), "a", "b"), Ok(true));
    assert_eq!(correction_changes(Some(("a", "a", false)), "a", "a"), Ok(false));
}

#[test]
fn frozen_inputs_start_after_the_known_durations_before_them() {
    assert_eq!(input_offsets(&[]), Err(AiRepositoryError::EmptyProject));
    assert_eq!(
        input_offsets(&[Some(1_000), Some(2_500), Some(10)]).unwrap(),
        vec![Some(0), Some(1_000), Some(3_500)]
    );
    assert_eq!(
        input_offsets(&[Some(1_000), None, Some(10), Some(5)]).unwrap(),
        vec![Some(0), Some(1_000), None, None]
    );
    assert_eq!(input_offsets(&[Some(u64::MAX), Some(1), None]).unwrap(), vec![Some(0), Some(u64::MAX), Some(u64::MAX)]);
}

fn run_request() -> NewAiHighlightRun {
    NewAiHighlightRun {
        project_id: 1,
        model_id: "deepseek-chat".to_owned(),
        prompt_version: "highlight-v1".to_owned(),
        tags_snapshot: vec!["搞笑".to_owned()],
        skills_snapshot: vec!["generic-hook@1".to_owned()],
        analysis_goal: None,
        analysis_fingerprint: "abc".to_owned(),
        qualified_score: 70,
        excellent_score: 80,
        total_segments: 3,
        total_chars: 30,
        estimated_batches: 1,
        user_authorized: true,
    }
}

#[test]
fn highlight_runs_need_consent_a_finished_project_and_sane_thresholds() {
    assert_eq!(check_new_highlight_run(&run_request(), P::Completed), Ok(()));
    assert_eq!(check_new_highlight_run(&run_request(), P::CompletedWithErrors), Ok(()));
    assert_eq!(
        check_new_highlight_run(&NewAiHighlightRun { user_authorized: false, ..run_request() }, P::Completed),
        Err(AiRepositoryError::InvalidState("高光分析必须由用户显式授权".to_owned()))
    );
    assert_eq!(
        check_new_highlight_run(&run_request(), P::Running),
        Err(AiRepositoryError::InvalidState("只有 ASR 完成的项目可以进行高光分析".to_owned()))
    );
    assert_eq!(
        check_new_highlight_run(&NewAiHighlightRun { analysis_fingerprint: "  ".to_owned(), ..run_request() }, P::Completed),
        Err(AiRepositoryError::Integrity("分析指纹不能为空".to_owned()))
    );
    let thresholds = Err(AiRepositoryError::Integrity("高光运行阈值必须在 0 到 100 之间，且优秀阈值不能低于合格阈值".to_owned()));
    assert_eq!(check_new_highlight_run(&NewAiHighlightRun { excellent_score: 101, ..run_request() }, P::Completed), thresholds);
    assert_eq!(check_new_highlight_run(&NewAiHighlightRun { excellent_score: 60, ..run_request() }, P::Completed), thresholds);
}
