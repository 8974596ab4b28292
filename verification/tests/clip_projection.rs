use std::collections::HashMap;

use sha2::{Digest, Sha256};
use dy_screen_client::clip_projection::project_clip_subtitles;
use dy_screen_client::domain::{AiClipEffect, AiClipSegment, TranscriptSegment, TranscriptSegmentDraft};
use dy_screen_client::repository::stable_segment_id;

fn clip(id: i64, input_id: i64, start: u64, end: u64) -> AiClipSegment {
    AiClipSegment {
        id,
        clip_project_id: 9,
        candidate_id: id,
        input_id,
        position: id as u32,
        title: format!("clip {id}"),
        source_start_ms: start,
        source_end_ms: end,
        volume_percent: 100,
        effect: AiClipEffect::NoEffect,
    }
}

fn transcript(id: &str, ordinal: i64, start: u64, end: u64, text: &str) -> TranscriptSegment {
    TranscriptSegment {
        id: id.to_owned(),
        artifact_id: 1,
        ordinal,
        source_start_ms: start,
        source_end_ms: end,
        raw_text: text.to_owned(),
        normalized_text: text.to_owned(),
        confidence_bits: None,
    }
}

#[test]
fn subtitles_follow_transcript_order_and_are_clipped() {
    let mut transcripts = HashMap::new();
    transcripts.insert(
        1,
        vec![
            transcript("c", 2, 5_000, 7_000, " 第三句 "),
            transcript("a", 0, 500, 2_000, "第一句"),
            transcript("blank", 3, 1_000, 1_500, "   "),
            transcript("outside", 4, 9_000, 9_500, "外面"),
            transcript("b", 1, 2_000, 4_000, "第二句"),
        ],
    );
    let clips = vec![clip(1, 1, 1_000, 6_000), clip(2, 1, 6_500, 8_000)];
    let (subtitles, complete) = project_clip_subtitles(&clips, &transcripts);
    let ids: Vec<&str> = subtitles.iter().map(|s| s.stable_segment_id.as_str()).collect();
    assert_eq!(ids, vec!["a", "b", "c", "c"]);
    assert!(complete);
    assert_eq!((subtitles[0].source_start_ms, subtitles[0].source_end_ms), (1_000, 2_000));
    assert_eq!((subtitles[0].project_start_ms, subtitles[0].project_end_ms), (0, 1_000));
    assert_eq!(subtitles[2].text, "第三句");
    assert_eq!((subtitles[2].source_start_ms, subtitles[2].source_end_ms), (5_000, 6_000));
    assert_eq!(subtitles[3].clip_segment_id, 2);
    assert_eq!((subtitles[3].project_start_ms, subtitles[3].project_end_ms), (5_000, 5_500));
    assert!(subtitles.iter().all(|s| s.id == 0 && !s.hidden && s.clip_project_id == 9));
}

#[test]
fn equal_starts_are_ordered_by_ordinal_then_id() {
    let mut transcripts = HashMap::new();
    transcripts.insert(
        1,
        vec![
            transcript("z", 1, 0, 1_000, "乙"),
            transcript("y", 0, 0, 1_000, "甲"),
            transcript("b", 0, 0, 1_000, "丙"),
        ],
    );
    let (subtitles, _) = project_clip_subtitles(&[clip(1, 1, 0, 1_000)], &transcripts);
    let ids: Vec<&str> = subtitles.iter().map(|s| s.stable_segment_id.as_str()).collect();
    assert_eq!(ids, vec!["b", "y", "z"]);
}

#[test]
fn a_clip_without_text_makes_the_projection_incomplete() {
    let mut transcripts = HashMap::new();
    transcripts.insert(1, vec![transcript("a", 0, 0, 1_000, "有字")]);
    let (subtitles, complete) =
        project_clip_subtitles(&[clip(1, 1, 0, 1_000), clip(2, 2, 0, 1_000)], &transcripts);
    assert_eq!(subtitles.len(), 1);
    assert!(!complete);
    let (none, complete) = project_clip_subtitles(&[], &transcripts);
    assert!(none.is_empty());
    assert!(!complete);
}

#[test]
fn stable_segment_ids_hash_the_segment_identity() {
    let draft = TranscriptSegmentDraft {
        source_start_ms: 10,
        source_end_ms: 20,
        raw_text: "原文".to_owned(),
        normalized_text: "原文。".to_owned(),
        confidence_bits: None,
    };
    let mut hasher = Sha256::new();
    hasher.update(7_i64.to_le_bytes());
    hasher.update(3_u64.to_le_bytes());
    hasher.update(10_u64.to_le_bytes());
    hasher.update(20_u64.to_le_bytes());
    hasher.update("原文".as_bytes());
    let expected = format!("seg_{}", &hex::encode(hasher.finalize())[..32]);
    assert_eq!(stable_segment_id(7, 3, &draft), expected);
}
