use sha2::{Digest, Sha256};
use dy_screen_client::clip_text_correction::{
    batch_prompt, batch_targets, correction_fingerprint, require_api_key, validate_corrected_text,
    validate_correction_output, ClipTextCorrectionError, CorrectionRun, CorrectionStep,
};
use dy_screen_client::llm::{LlmError, SubtitleCorrectionItem, SubtitleCorrectionOutput};
use dy_screen_client::repository::ClipTextCorrectionTarget;

fn target(id: i64, text: &str) -> ClipTextCorrectionTarget {
    ClipTextCorrectionTarget {
        subtitle_id: id,
        text: text.to_owned(),
    }
}

#[test]
fn batches_preserve_complete_subtitle_order() {
    let batches = batch_targets(&[target(1, "一二三"), target(2, "四五六"), target(3, "七八")], 6);
    assert_eq!(batches.len(), 2);
    assert_eq!(batches[0].iter().map(|item| item.subtitle_id).collect::<Vec<_>>(), vec![1, 2]);
    assert_eq!(batches[1][0].subtitle_id, 3);
}

#[test]
fn an_oversized_target_gets_a_batch_of_its_own() {
    let batches = batch_targets(&[target(1, "一二三四"), target(2, "五"), target(3, "六")], 3);
    let ids: Vec<Vec<i64>> = batches
        .iter()
        .map(|batch| batch.iter().map(|item| item.subtitle_id).collect())
        .collect();
    assert_eq!(ids, vec![vec![1], vec![2, 3]]);
    assert!(batch_targets(&[], 10).is_empty());
}

#[test]
fn correction_response_must_be_complete_and_ordered() {
    let valid = SubtitleCorrectionOutput {
        corrections: vec![
            SubtitleCorrectionItem {
                index: 0,
                text: "文本一".to_owned(),
            },
            SubtitleCorrectionItem {
                index: 1,
                text: "文本二".to_owned(),
            },
        ],
        token_usage: 8,
    };
    assert_eq!(validate_correction_output(&valid, 2).unwrap(), vec!["文本一", "文本二"]);
    let invalid = SubtitleCorrectionOutput {
        corrections: vec![
            SubtitleCorrectionItem {
                index: 1,
                text: "文本二".to_owned(),
            },
            SubtitleCorrectionItem {
                index: 0,
                text: "文本一".to_owned(),
            },
        ],
        token_usage: 0,
    };
    assert!(validate_correction_output(&invalid, 2).is_err());
}

#[test]
fn corrected_texts_are_collapsed_and_bounded() {
    assert_eq!(validate_corrected_text("  你好 \t 世界 ").unwrap(), "你好 世界");
    assert_eq!(validate_corrected_text("   "), Err(ClipTextCorrectionError::InvalidResponse));
    assert_eq!(validate_corrected_text("坏\u{1}"), Err(ClipTextCorrectionError::InvalidResponse));
    assert!(validate_corrected_text(&"改".repeat(500)).is_ok());
    assert!(validate_corrected_text(&"改".repeat(501)).is_err());
}

#[test]
fn fingerprint_identifies_the_targets() {
    let a = correction_fingerprint(&[target(1, "一"), target(2, "二")]);
    let b = correction_fingerprint(&[target(1, "一"), target(2, "二")]);
    let c = correction_fingerprint(&[target(2, "二"), target(1, "一")]);
    assert_eq!(a, b);
    assert_ne!(a, c);
    assert_eq!(a.len(), 64);
    assert!(a.chars().all(|ch| ch.is_ascii_hexdigit() && !ch.is_ascii_uppercase()));
}

#[test]
fn fingerprint_is_the_sha256_of_version_ids_lengths_and_texts() {
    let mut hasher = Sha256::new();
    hasher.update(b"clip-text-correction-v1");
    for (id, text) in [(1_i64, "一"), (2_i64, "二")] {
        hasher.update(id.to_le_bytes());
        hasher.update((text.len() as u64).to_le_bytes());
        hasher.update(text.as_bytes());
    }
    assert_eq!(
        correction_fingerprint(&[target(1, "一"), target(2, "二")]),
        hex::encode(hasher.finalize())
    );
}

fn output(texts: &[&str], tokens: u64) -> SubtitleCorrectionOutput {
    SubtitleCorrectionOutput {
        corrections: texts
            .iter()
            .enumerate()
            .map(|(index, text)| SubtitleCorrectionItem {
                index: index as u32,
                text: (*text).to_owned(),
            })
            .collect(),
        token_usage: tokens,
    }
}

#[test]
fn a_run_collects_one_update_per_target_in_order() {
    let targets = vec![target(1, "一二三"), target(2, "四五六")];
    let mut run = CorrectionRun::start(&targets).unwrap();
    assert_eq!(run.total_batches(), 1);
    let batch = run.current_batch().unwrap().to_vec();
    assert_eq!(batch, targets);
    let prompt = batch_prompt(&batch).unwrap();
    assert!(prompt.starts_with("纠正以下 ASR 文本数组。"));
    assert!(prompt.ends_with("输入文本数组：[\"一二三\",\"四五六\"]"));
    run.record_batch(&output(&["一二三", "四 五  六"], 5)).unwrap();
    assert!(run.current_batch().is_none());
    assert_eq!(run.processed(), 2);
    assert_eq!(run.token_usage(), 5);
    let updates = run.updates();
    assert_eq!(updates[1].subtitle_id, 2);
    assert_eq!(updates[1].expected_text, "四五六");
    assert_eq!(updates[1].corrected_text, "四 五 六");
    let done = run.completion(1);
    assert_eq!((done.status, done.processed, done.changed, done.unchanged), ("completed", 2, 1, 1));
}

#[test]
fn a_bad_answer_closes_the_run_without_updates() {
    let mut run = CorrectionRun::start(&[target(1, "一")]).unwrap();
    let finish = run.record_batch(&output(&["一", "二"], 3)).unwrap_err();
    assert_eq!(finish.stage, "validation_failed");
    assert_eq!(finish.token_usage, 3);
    assert_eq!(finish.error.unwrap().0, "clip_text_correction_invalid_response");
    assert!(run.updates().is_empty());
    assert_eq!(run.completed_batches(), 0);
    let cancelled = run.provider_failure(&ClipTextCorrectionError::Llm(LlmError::Temporary), true);
    assert_eq!(cancelled.status, "cancelled");
    assert_eq!(cancelled.error.unwrap().1, "Provider 暂时不可用");
    assert!(CorrectionRun::start(&[]).is_err());
}

#[test]
fn the_key_must_not_be_blank() {
    assert_eq!(require_api_key(None), Err(ClipTextCorrectionError::Credential));
    assert_eq!(require_api_key(Some("  ".to_owned())), Err(ClipTextCorrectionError::Credential));
    assert_eq!(require_api_key(Some(" sk ".to_owned())).unwrap(), " sk ");
}

#[test]
fn a_batch_closes_only_when_the_next_target_would_overflow() {
    let targets = [
        target(1, "一二"),
        target(2, "三四"),
        target(3, "五六七"),
        target(4, "八"),
        target(5, "九十"),
    ];
    let maximum = 5;
    let batches = batch_targets(&targets, maximum);
    assert_eq!(
        batches.iter().map(|b| b.len()).collect::<Vec<_>>(),
        vec![2, 2, 1]
    );
    for pair in batches.windows(2) {
        let chars: usize = pair[0].iter().map(|t| t.text.chars().count()).sum();
        assert!(chars + pair[1][0].text.chars().count() > maximum);
    }
}

#[test]
fn prompt_payload_escapes_quotes_backslashes_and_controls() {
    let batch = [
        target(1, "他说\"好\""),
        target(2, "a\\b\n\t\u{1}\u{1f}"),
        target(3, "é/"),
    ];
    let prompt = batch_prompt(&batch).unwrap();
    let expected_payload = r#"["他说\"好\"","a\\b\n\t\u0001\u001f","é/"]"#;
    assert!(prompt.ends_with(&format!("输入文本数组：{expected_payload}")));
    let texts: Vec<&str> = batch.iter().map(|t| t.text.as_str()).collect();
    assert_eq!(serde_json::to_string(&texts).unwrap(), expected_payload);
}

#[test]
fn a_run_applies_only_after_every_batch_and_stops_when_cancelled() {
    let targets = vec![target(1, "一二三"), target(2, "四五六")];
    let mut run = CorrectionRun::start(&targets).unwrap();
    assert_eq!(run.next_step(true), CorrectionStep::Cancel);
    assert_eq!(run.next_step(false), CorrectionStep::CorrectBatch);
    run.record_batch(&output(&["一二三", "四五六"], 1)).unwrap();
    assert_eq!(run.next_step(false), CorrectionStep::Apply);
    assert_eq!(run.next_step(true), CorrectionStep::Cancel);
}
