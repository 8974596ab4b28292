use dy_screen_client::repository::AiRepositoryError;
use dy_screen_client::smart_clip::{
    check_automation_append, check_automation_increment, check_candidates_found,
    check_clip_insert, check_clip_reorder, check_segments_remaining, check_clip_project_editable,
    check_clip_project_source, check_increment_request, check_segment_volume,
    check_smart_clip_request, check_smart_draft_slot, check_subtitle_edit, has_duplicate,
    renumbering_order, AiSmartClipSourceInput, CandidateBatch, ClipOrderRow, ClipProjectEditState,
};

fn source(run: i64, batch: i64) -> AiSmartClipSourceInput {
    AiSmartClipSourceInput { highlight_run_id: run, workflow_batch_id: batch }
}

fn invalid(message: &str) -> AiRepositoryError {
    AiRepositoryError::InvalidState(message.to_owned())
}

fn integrity(message: &str) -> AiRepositoryError {
    AiRepositoryError::Integrity(message.to_owned())
}

fn state(version: i64, ownership: &str, workflow: Option<i64>, generation: Option<i64>, export: &str) -> ClipProjectEditState {
    ClipProjectEditState {
        version,
        ownership: ownership.to_owned(),
        smart_workflow_id: workflow,
        draft_generation: generation,
        export_status: export.to_owned(),
    }
}

#[test]
fn duplicates_are_found_anywhere_in_the_list() {
    assert!(!has_duplicate(&[]));
    assert!(!has_duplicate(&[1, 2, 3]));
    assert!(has_duplicate(&[1, 2, 1]));
    assert!(has_duplicate(&[4, 5, 6, 6]));
}

#[test]
fn smart_clip_request_is_checked_in_order_and_keeps_the_trimmed_name() {
    let sources = [source(1, 11), source(2, 12)];
    assert_eq!(
        check_smart_clip_request(0, "合辑", &sources, &[5]),
        Err(invalid("智能合辑必须包含来源和入选候选"))
    );
    assert_eq!(
        check_smart_clip_request(1, "合辑", &[], &[5]),
        Err(invalid("智能合辑必须包含来源和入选候选"))
    );
    assert_eq!(
        check_smart_clip_request(1, "合辑", &sources, &[]),
        Err(invalid("智能合辑必须包含来源和入选候选"))
    );
    assert_eq!(
        check_smart_clip_request(1, " \t ", &sources, &[5, 5]),
        Err(invalid("智能合辑名称不能为空"))
    );
    assert_eq!(
        check_smart_clip_request(1, "合辑", &[source(1, 11), source(1, 12)], &[5]),
        Err(integrity("智能合辑来源或候选不能重复"))
    );
    assert_eq!(
        check_smart_clip_request(1, "合辑", &sources, &[5, 6, 5]),
        Err(integrity("智能合辑来源或候选不能重复"))
    );
    assert_eq!(check_smart_clip_request(2, "  周末合辑 ", &sources, &[5, 6]), Ok("周末合辑".to_owned()));
}

#[test]
fn a_draft_slot_needs_an_open_workflow_and_a_free_generation() {
    assert_eq!(
        check_smart_draft_slot(None, false),
        Err(AiRepositoryError::NotFound("智能成片任务".to_owned()))
    );
    assert_eq!(check_smart_draft_slot(Some("completed"), false), Err(invalid("已结束智能任务不能创建草稿")));
    assert_eq!(check_smart_draft_slot(Some("cancelled"), true), Err(invalid("已结束智能任务不能创建草稿")));
    assert_eq!(check_smart_draft_slot(Some("running"), true), Err(invalid("该智能草稿代次已经存在")));
    assert_eq!(check_smart_draft_slot(Some("running"), false), Ok(()));
}

#[test]
fn automatic_append_needs_the_current_automation_draft() {
    let good = state(3, "automation", Some(1), Some(2), "idle");
    assert_eq!(check_automation_append(&good, 3), Ok(()));
    assert_eq!(check_automation_append(&good, 4), Err(AiRepositoryError::ClipVersionConflict));
    assert_eq!(
        check_automation_append(&state(3, "user", Some(1), Some(2), "idle"), 3),
        Err(AiRepositoryError::ClipVersionConflict)
    );
    assert_eq!(
        check_automation_append(&state(3, "automation", None, Some(2), "idle"), 3),
        Err(AiRepositoryError::ClipVersionConflict)
    );
    assert_eq!(
        check_automation_append(&state(3, "automation", Some(1), None, "exporting"), 3),
        Err(AiRepositoryError::ClipVersionConflict)
    );
    assert_eq!(
        check_automation_append(&state(3, "automation", Some(1), Some(2), "exporting"), 3),
        Err(AiRepositoryError::ClipExportInProgress)
    );
}

#[test]
fn increments_go_only_to_workflow_drafts_still_run_by_the_automation() {
    assert_eq!(
        check_automation_increment(&state(3, "automation", None, None, "idle"), 3),
        Err(invalid("普通工程不能接受智能任务增量"))
    );
    assert_eq!(
        check_automation_increment(&state(3, "user", Some(8), None, "idle"), 3),
        Err(AiRepositoryError::ClipVersionConflict)
    );
    assert_eq!(
        check_automation_increment(&state(3, "automation", Some(8), None, "failed"), 3),
        Err(AiRepositoryError::ClipExportInProgress)
    );
    assert_eq!(check_automation_increment(&state(3, "automation", Some(8), None, "idle"), 3), Ok(8));
    assert_eq!(
        check_increment_request(&[], &[1]),
        Err(invalid("智能草稿增量必须包含来源和候选"))
    );
    assert_eq!(
        check_increment_request(&[source(1, 2)], &[1, 1]),
        Err(integrity("智能草稿增量候选不能重复"))
    );
    assert_eq!(check_increment_request(&[source(1, 2)], &[1, 2]), Ok(()));
}

#[test]
fn clip_project_opens_only_on_finished_runs_with_a_selection() {
    assert_eq!(
        check_clip_project_source("running", 3, "直播"),
        Err(invalid("高光分析尚未完成，暂时不能创建剪辑工程"))
    );
    assert_eq!(
        check_clip_project_source("completed", 0, "直播"),
        Err(invalid("请至少选择一个高光候选后再编辑视频"))
    );
    assert_eq!(check_clip_project_source("partial", 2, "直播"), Ok("直播 - 高光剪辑".to_owned()));
    assert_eq!(check_clip_project_source("completed", 1, "A"), Ok("A - 高光剪辑".to_owned()));
}

#[test]
fn editing_guards_follow_export_state_and_version() {
    assert_eq!(
        check_clip_project_editable(None),
        Err(AiRepositoryError::NotFound("剪辑工程".to_owned()))
    );
    assert_eq!(check_clip_project_editable(Some(("exporting", 2))), Err(AiRepositoryError::ClipExportInProgress));
    assert_eq!(check_clip_project_editable(Some(("idle", -1))), Err(integrity("剪辑工程版本无效")));
    assert_eq!(check_clip_project_editable(Some(("idle", 1 << 40))), Err(integrity("剪辑工程版本无效")));
    assert_eq!(check_clip_project_editable(Some(("failed", 7))), Ok(7));
    assert_eq!(check_subtitle_edit("exporting", 2, 2), Err(AiRepositoryError::ClipExportInProgress));
    assert_eq!(check_subtitle_edit("idle", 3, 2), Err(AiRepositoryError::ClipVersionConflict));
    assert_eq!(check_subtitle_edit("completed", 2, 2), Ok(()));
    assert_eq!(check_segment_volume(200), Ok(()));
    assert_eq!(check_segment_volume(0), Ok(()));
    assert_eq!(check_segment_volume(201), Err(integrity("片段音量必须在 0% 到 200% 之间")));
}

#[test]
fn renumbering_orders_by_keys_then_id() {
    let row = |id, first, second, third, fourth| ClipOrderRow { id, first, second, third, fourth };
    let rows = [
        row(40, 1, 0, 500, 900),
        row(10, 0, 2, 100, 200),
        row(30, 1, 0, 500, 700),
        row(20, 0, 1, 900, 950),
        row(25, 1, 0, 500, 700),
    ];
    assert_eq!(renumbering_order(&rows), vec![20, 10, 25, 30, 40]);
    assert_eq!(renumbering_order(&[]), Vec::<i64>::new());
}

#[test]
fn every_requested_candidate_must_be_found() {
    assert_eq!(check_candidates_found(CandidateBatch::NewProject, 3, 0, 3), Ok(()));
    assert_eq!(
        check_candidates_found(CandidateBatch::NewProject, 2, 1, 3),
        Err(integrity("智能合辑包含未入选或来源集合外候选"))
    );
    assert_eq!(
        check_candidates_found(CandidateBatch::Append, 1, 0, 2),
        Err(integrity("自动追加包含重复、未入选或来源集合外候选"))
    );
    assert_eq!(check_candidates_found(CandidateBatch::Increment, 2, 1, 3), Ok(()));
    assert_eq!(check_candidates_found(CandidateBatch::Increment, 0, 3, 3), Ok(()));
    assert_eq!(
        check_candidates_found(CandidateBatch::Increment, 3, -1, 4),
        Err(integrity("智能草稿增量包含未入选或来源集合外候选"))
    );
}

#[test]
fn a_reordering_names_every_segment_once() {
    assert_eq!(check_clip_reorder(&[1, 2, 3], &[3, 1, 2]), Ok(()));
    let refused = Err(integrity("重排必须包含工程中的全部片段且不能重复"));
    assert_eq!(check_clip_reorder(&[1, 2, 3], &[3, 1]), refused);
    assert_eq!(check_clip_reorder(&[1, 2, 3], &[3, 1, 1]), refused);
    assert_eq!(check_clip_reorder(&[1, 2, 3], &[3, 1, 4]), refused);
    assert_eq!(check_clip_reorder(&[], &[]), Ok(()));
}

#[test]
fn insertions_and_removals_keep_the_timeline_consistent() {
    assert_eq!(check_clip_insert(2, 2, true, false), Ok(()));
    assert_eq!(check_clip_insert(3, 2, true, false), Err(integrity("视频素材插入位置超出时间轴范围")));
    assert_eq!(
        check_clip_insert(0, 2, false, false),
        Err(integrity("只能追加当前工程来源集合中已进入待切片的视频"))
    );
    assert_eq!(check_clip_insert(1, 2, true, true), Err(integrity("该视频片段已经在时间轴中")));
    assert_eq!(check_segments_remaining(1), Ok(()));
    assert_eq!(check_segments_remaining(0), Err(invalid("剪辑工程至少需要保留一个片段")));
}
