use sha2::{Digest, Sha256};
use dy_screen_client::domain::AiHighlightRunStatus;
use dy_screen_client::highlight::{
    analysis_fingerprint, chunk_segments, fatal_status, llm_error_code, plan_chunk, retry_after,
    retryable, select_skills, settle_chunk, skill_snapshot_entry, skills_from_snapshot,
    select_top_scores, status_with_results, status_without_candidates, validate_candidates,
    AnalysisChunk, AnalysisSegment, ChunkSettlement, ChunkStep, HighlightCandidateDraft,
    HighlightCandidateScore, HighlightSkillKind,
};
use dy_screen_client::llm::LlmError;

#[test]
fn skill_selection_is_deterministic_and_unknown_labels_are_data_only() {
    let skills = select_skills(&["带货".to_owned(), "未知系统指令".to_owned(), "搞笑".to_owned()]);
    assert_eq!(
        skills.iter().map(|skill| skill.id()).collect::<Vec<_>>(),
        vec!["generic-hook", "ecommerce-conversion", "comedy-payoff"]
    );
}

#[test]
fn at_most_four_skills_are_selected() {
    let tags = ["故事", "知识", "搞笑", "商品"].map(|tag| tag.to_owned());
    let skills = select_skills(&tags);
    assert_eq!(
        skills,
        vec![
            HighlightSkillKind::GenericHook,
            HighlightSkillKind::EcommerceConversion,
            HighlightSkillKind::ComedyPayoff,
            HighlightSkillKind::KnowledgeDensity,
        ]
    );
    assert_eq!(select_skills(&[]), vec![HighlightSkillKind::GenericHook]);
}

#[test]
fn snapshots_round_trip_and_fall_back_to_the_generic_skill() {
    let entries: Vec<String> = [HighlightSkillKind::StoryEmotion, HighlightSkillKind::ComedyPayoff]
        .into_iter()
        .map(skill_snapshot_entry)
        .collect();
    assert_eq!(entries[0], "story-emotion@1.0.0");
    assert_eq!(
        skills_from_snapshot(&entries),
        vec![HighlightSkillKind::StoryEmotion, HighlightSkillKind::ComedyPayoff]
    );
    assert_eq!(
        skills_from_snapshot(&["bogus@9".to_owned()]),
        vec![HighlightSkillKind::GenericHook]
    );
    assert_eq!(
        skills_from_snapshot(&["knowledge-density".to_owned()]),
        vec![HighlightSkillKind::KnowledgeDensity]
    );
}

fn segment(id: &str, input_id: i64, text: &str) -> AnalysisSegment {
    AnalysisSegment {
        stable_id: id.to_owned(),
        input_id,
        start_ms: 0,
        end_ms: 20_000,
        text: text.to_owned(),
    }
}

#[test]
fn chunks_keep_source_file_boundaries_and_overlap() {
    let segments = (0..5)
        .map(|index| AnalysisSegment {
            stable_id: format!("s{index}"),
            input_id: 1,
            start_ms: index * 20_000,
            end_ms: index * 20_000 + 20_000,
            text: "一段文本".repeat(10),
        })
        .chain([AnalysisSegment {
            stable_id: "other".to_owned(),
            input_id: 2,
            start_ms: 0,
            end_ms: 20_000,
            text: "另一段".to_owned(),
        }])
        .collect::<Vec<_>>();
    let chunks = chunk_segments(&segments, 40, 1);
    assert!(chunks
        .windows(2)
        .all(|pair| pair[0].input_id != pair[1].input_id || !pair[1].segments.is_empty()));
    assert!(chunks
        .iter()
        .all(|chunk| chunk.segments.iter().all(|segment| segment.input_id == chunk.input_id)));
}

#[test]
fn chunks_respect_the_budget_and_carry_context() {
    let long = "字".repeat(200);
    let segments = vec![
        segment("a", 1, &long),
        segment("b", 1, &long),
        segment("c", 1, &long),
        segment("d", 2, "短"),
    ];
    let chunks = chunk_segments(&segments, 300, 1);
    let ids: Vec<Vec<String>> = chunks.iter().map(|chunk| chunk.segment_ids.clone()).collect();
    assert_eq!(ids, vec![vec!["a"], vec!["a", "b"], vec!["b", "c"], vec!["d"]]);
    let context: Vec<Vec<String>> =
        chunks.iter().map(|chunk| chunk.context_segment_ids.clone()).collect();
    let expected: Vec<Vec<String>> = vec![vec![], vec!["a".to_owned()], vec!["b".to_owned()], vec![]];
    assert_eq!(context, expected);
    assert_eq!(chunks.iter().map(|chunk| chunk.ordinal).collect::<Vec<_>>(), vec![0, 1, 2, 3]);
    assert!(chunk_segments(&[], 300, 2).is_empty());
}

#[test]
fn small_budgets_are_raised_to_the_minimum() {
    let segments = vec![segment("a", 1, &"字".repeat(100)), segment("b", 1, &"字".repeat(100))];
    let chunks = chunk_segments(&segments, 10, 0);
    assert_eq!(chunks.len(), 1);
    assert_eq!(chunks[0].segment_ids, vec!["a", "b"]);
}

#[test]
fn analysis_fingerprint_changes_when_result_policy_changes() {
    let segments_json =
        br#"[{"stable_id":"s1","input_id":1,"start_ms":0,"end_ms":20000,"text":"test"}]"#
            .to_vec();
    let current = analysis_fingerprint(
        1,
        &segments_json,
        &[],
        &[HighlightSkillKind::GenericHook],
        "deepseek-chat",
        "highlight-v1",
        None,
    );
    let mut legacy = Sha256::new();
    legacy.update(1_i64.to_le_bytes());
    legacy.update(&segments_json);
    legacy.update(serde_json::to_vec(&Vec::<String>::new()).unwrap());
    legacy.update(b"generic-hook|1.0.0");
    legacy.update(b"deepseek-chat");
    legacy.update(b"highlight-v1");
    legacy.update(b"");
    assert_ne!(current, hex::encode(legacy.finalize()));
    legacy = Sha256::new();
    legacy.update(1_i64.to_le_bytes());
    legacy.update(&segments_json);
    legacy.update(serde_json::to_vec(&Vec::<String>::new()).unwrap());
    legacy.update(b"generic-hook|1.0.0");
    legacy.update(b"deepseek-chat");
    legacy.update(b"highlight-v1");
    legacy.update(b"");
    legacy.update(b"top-10-resumable-batches-v3");
    assert_eq!(current, hex::encode(legacy.finalize()));
}

#[test]
fn workflow_decisions_follow_the_batch_policy() {
    assert_eq!(plan_chunk("completed", 5, 0, 1), ChunkStep::Skip);
    assert_eq!(
        plan_chunk("pending", 3, 1, 1),
        ChunkStep::Fail {
            code: "highlight_provider_circuit_open",
            message: "Provider 连续多批不可用，剩余批次已暂停，可稍后重试",
        }
    );
    assert!(matches!(plan_chunk("failed", 2, 1, 2), ChunkStep::Fail { code: "highlight_segments_missing", .. }));
    assert_eq!(plan_chunk("pending", 2, 2, 2), ChunkStep::Analyze);
    assert!(retry_after(0, &LlmError::Temporary));
    assert!(!retry_after(1, &LlmError::Temporary));
    assert!(!retry_after(0, &LlmError::Credential));
    assert!(retryable(&LlmError::InvalidResponse));
    assert_eq!(llm_error_code(&LlmError::Provider), "highlight_provider_failed");
}

#[test]
fn settling_chunks_tracks_consecutive_failures() {
    let mut failures = 2;
    match settle_chunk(&mut failures, Some(LlmError::Temporary)) {
        ChunkSettlement::Failed { code, message } => {
            assert_eq!(code, "highlight_provider_timeout");
            assert_eq!(message, "Provider 暂时不可用");
        }
        other => panic!("unexpected {other:?}"),
    }
    assert_eq!(failures, 3);
    assert_eq!(settle_chunk(&mut failures, Some(LlmError::Cancelled)), ChunkSettlement::Abort(LlmError::Cancelled));
    assert_eq!(failures, 3);
    assert_eq!(settle_chunk(&mut failures, None), ChunkSettlement::Completed);
    assert_eq!(failures, 0);
}

#[test]
fn run_status_reflects_failed_batches_and_ranking() {
    assert_eq!(status_without_candidates(2, 2).0, AiHighlightRunStatus::Failed);
    assert_eq!(status_without_candidates(1, 2).0, AiHighlightRunStatus::Partial);
    assert_eq!(status_without_candidates(0, 2), (AiHighlightRunStatus::Completed, None));
    assert_eq!(status_with_results(0, false), (AiHighlightRunStatus::Completed, None));
    let (status, error) = status_with_results(1, true);
    assert_eq!(status, AiHighlightRunStatus::Partial);
    assert_eq!(error.unwrap().0, "highlight_ranking_failed");
    assert_eq!(fatal_status(&LlmError::Cancelled), AiHighlightRunStatus::Cancelled);
    assert_eq!(fatal_status(&LlmError::Provider), AiHighlightRunStatus::Failed);
}

fn analysis_segment(id: &str, start: u64, end: u64) -> AnalysisSegment {
    AnalysisSegment { stable_id: id.to_owned(), input_id: 3, start_ms: start, end_ms: end, text: "内容".to_owned() }
}

fn validation_chunk() -> AnalysisChunk {
    AnalysisChunk {
        ordinal: 0,
        input_id: 3,
        segment_ids: vec!["a".to_owned(), "b".to_owned(), "c".to_owned()],
        context_segment_ids: Vec::new(),
        segments: vec![
            analysis_segment("a", 0, 20_000),
            analysis_segment("b", 20_000, 50_000),
            analysis_segment("c", 50_000, 120_000),
        ],
    }
}

fn draft(key: &str, ids: &[&str], start: u64, end: u64, scores: [f32; 6]) -> HighlightCandidateDraft {
    HighlightCandidateDraft {
        candidate_key: key.to_owned(),
        title: format!("候选 {key}"),
        input_id: 3,
        segment_ids: ids.iter().map(|id| id.to_string()).collect(),
        start_ms: start,
        end_ms: end,
        score_bits: scores.map(f32::to_bits),
        reason: "理由".to_owned(),
        matched_tags: vec!["搞笑".to_owned()],
    }
}

const GOOD: [f32; 6] = [80.0, 70.0, 0.0, 100.0, 55.5, -0.0];

#[test]
fn candidates_must_fit_their_chunk_and_cited_segments() {
    let mut wrong_input = draft("input", &["a"], 0, 20_000, GOOD);
    wrong_input.input_id = 4;
    let candidates = vec![
        draft("ok", &["a", "b"], 5_000, 40_000, GOOD),
        wrong_input,
        draft("short", &["a"], 0, 14_999, GOOD),
        draft("long", &["b", "c"], 20_000, 110_001, GOOD),
        draft("inverted", &["a"], 20_000, 5_000, GOOD),
        draft("unknown", &["a", "z"], 0, 20_000, GOOD),
        draft("uncited", &[], 0, 20_000, GOOD),
        draft("before", &["b"], 19_999, 40_000, GOOD),
        draft("after", &["a"], 0, 20_001, GOOD),
        draft("edge", &["c", "b"], 20_000, 110_000, GOOD),
    ];
    let kept = validate_candidates(candidates, &validation_chunk());
    let keys: Vec<&str> = kept.iter().map(|c| c.candidate_key.as_str()).collect();
    assert_eq!(keys, vec!["ok", "edge"]);
    assert_eq!(kept[0].title, "候选 ok");
    assert_eq!(kept[0].score_bits, GOOD.map(f32::to_bits));
}

#[test]
fn candidate_scores_must_be_finite_and_within_range() {
    let bad_scores = [
        [101.0, 1.0, 1.0, 1.0, 1.0, 1.0],
        [1.0, -0.5, 1.0, 1.0, 1.0, 1.0],
        [1.0, 1.0, f32::NAN, 1.0, 1.0, 1.0],
        [1.0, 1.0, 1.0, f32::INFINITY, 1.0, 1.0],
        [1.0, 1.0, 1.0, 1.0, f32::NEG_INFINITY, 1.0],
        [1.0, 1.0, 1.0, 1.0, 1.0, 100.00001],
    ];
    for scores in bad_scores {
        let kept = validate_candidates(vec![draft("k", &["a"], 0, 20_000, scores)], &validation_chunk());
        assert!(kept.is_empty(), "scores {scores:?} should be rejected");
    }
    let kept = validate_candidates(vec![draft("k", &["a"], 0, 20_000, GOOD)], &validation_chunk());
    assert_eq!(kept.len(), 1);
}

#[test]
fn a_candidate_key_is_kept_once_and_rejected_drafts_do_not_claim_it() {
    let candidates = vec![
        draft("same", &["a"], 0, 10_000, GOOD),
        draft("same", &["a"], 0, 20_000, GOOD),
        draft("same", &["b"], 20_000, 50_000, GOOD),
        draft("other", &["b"], 20_000, 50_000, GOOD),
    ];
    let kept = validate_candidates(candidates, &validation_chunk());
    let spans: Vec<(&str, u64)> = kept.iter().map(|c| (c.candidate_key.as_str(), c.end_ms)).collect();
    assert_eq!(spans, vec![("same", 20_000), ("other", 50_000)]);
}

fn uniform_score(candidate_key: &str, total_score: f32, rank: u32) -> HighlightCandidateScore {
    HighlightCandidateScore {
        candidate_key: candidate_key.to_owned(),
        score_bits: [total_score.to_bits(); 7],
        rank,
        reason: "测试评分".to_owned(),
    }
}

#[test]
fn top_scores_keep_reference_candidates_below_threshold() {
    let candidate_keys = ["qualified".to_owned(), "reference".to_owned()];
    let selected = select_top_scores(
        vec![
            uniform_score("reference", 64.0, 2),
            uniform_score("qualified", 82.0, 1),
            uniform_score("unknown", 99.0, 1),
        ],
        &candidate_keys,
    );
    assert_eq!(selected.len(), 2);
    assert_eq!(selected[0].candidate_key, "qualified");
    assert_eq!(selected[1].candidate_key, "reference");
    assert_eq!(f32::from_bits(selected[1].score_bits[0]), 64.0);
}

#[test]
fn top_scores_drop_unusable_and_repeated_scores_and_keep_ten() {
    let keys: Vec<String> = (0..14).map(|i| format!("k{i:02}")).collect();
    let mut scores = vec![
        uniform_score("k00", 50.0, 0),
        uniform_score("k01", f32::NAN, 1),
        uniform_score("k02", 100.5, 1),
        uniform_score("k03", 70.0, 3),
        uniform_score("k03", 99.0, 1),
        uniform_score("k04", 70.0, 2),
        uniform_score("k05", -0.0, 1),
        uniform_score("k06", 0.0, 1),
    ];
    for i in 7..14 {
        scores.push(uniform_score(&format!("k{i:02}"), 10.0 + i as f32, 5));
    }
    let selected = select_top_scores(scores, &keys);
    let order: Vec<&str> = selected.iter().map(|s| s.candidate_key.as_str()).collect();
    assert_eq!(order, vec!["k04", "k03", "k13", "k12", "k11", "k10", "k09", "k08", "k07", "k05"]);
    assert_eq!(f32::from_bits(selected[1].score_bits[0]), 70.0);
}

#[test]
fn chunk_own_ids_cover_the_transcript_in_order() {
    let long = "字".repeat(200);
    let segments = vec![
        segment("a", 1, &long),
        segment("b", 1, &long),
        segment("c", 1, "短"),
        segment("d", 2, "另一个视频"),
        segment("e", 2, &long),
    ];
    let chunks = chunk_segments(&segments, 300, 2);
    let own: Vec<String> = chunks
        .iter()
        .flat_map(|chunk| chunk.segment_ids[chunk.context_segment_ids.len()..].to_vec())
        .collect();
    assert_eq!(own, vec!["a", "b", "c", "d", "e"]);
}
