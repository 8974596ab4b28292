use dy_screen_client::clip_timeline::{
    layout_clip_timeline, place_subtitles, subtitles_complete, ClipBridgeMaterial,
    ClipTransitionBoundary,
};
use dy_screen_client::domain::{AiClipEffect, AiClipSegment, AiClipSubtitle, AiClipTimelineUnitKind};
use dy_screen_client::repository::AiRepositoryError;

fn segment(id: i64, start: u64, end: u64) -> AiClipSegment {
    AiClipSegment {
        id,
        clip_project_id: 4,
        candidate_id: id * 10,
        input_id: 1,
        position: 0,
        title: format!("片段 {id}"),
        source_start_ms: start,
        source_end_ms: end,
        volume_percent: 100,
        effect: AiClipEffect::NoEffect,
    }
}

fn bridge(boundary_id: i64, left: i64, right: i64, duration_ms: u64) -> ClipBridgeMaterial {
    ClipBridgeMaterial {
        boundary_id,
        left_segment_id: left,
        right_segment_id: right,
        title: format!("转场 {boundary_id}"),
        asset_key: "fade".to_owned(),
        asset_version: 2,
        duration_ms,
        source_status: "ready".to_owned(),
        preview_status: "pending".to_owned(),
    }
}

fn subtitle(id: i64, segment_id: i64, start: u64, end: u64) -> AiClipSubtitle {
    AiClipSubtitle {
        id,
        clip_project_id: 4,
        stable_segment_id: format!("seg_{id}"),
        clip_segment_id: segment_id,
        input_id: 1,
        original_text: "你好".to_owned(),
        text: "你好".to_owned(),
        hidden: false,
        source_start_ms: start,
        source_end_ms: end,
        project_start_ms: 0,
        project_end_ms: 0,
    }
}

#[test]
fn timeline_lays_segments_end_to_end_with_bridges_between_them() {
    let segments = vec![segment(7, 1_000, 4_000), segment(8, 10_000, 12_000), segment(9, 0, 500)];
    let bridges = vec![bridge(31, 8, 9, 800)];
    let layout = layout_clip_timeline(&segments, &bridges);
    let spans: Vec<(String, u64, u64)> = layout
        .units
        .iter()
        .map(|unit| (unit.key.clone(), unit.project_start_ms, unit.project_end_ms))
        .collect();
    assert_eq!(
        spans,
        vec![
            ("segment:7".to_owned(), 0, 3_000),
            ("segment:8".to_owned(), 3_000, 5_000),
            ("bridge:31".to_owned(), 5_000, 5_800),
            ("segment:9".to_owned(), 5_800, 6_300),
        ]
    );
    assert_eq!(layout.project_duration_ms, 6_300);
    let bridge_unit = &layout.units[2];
    assert_eq!(bridge_unit.kind, AiClipTimelineUnitKind::Bridge);
    assert_eq!(bridge_unit.boundary_id, Some(31));
    assert_eq!(bridge_unit.clip_segment_id, None);
    assert_eq!(bridge_unit.title, "转场 31");
    assert_eq!(bridge_unit.asset_key.as_deref(), Some("fade"));
    assert_eq!(bridge_unit.source_status.as_deref(), Some("ready"));
    assert_eq!(bridge_unit.preview_status.as_deref(), Some("pending"));
    let segment_unit = &layout.units[0];
    assert_eq!(segment_unit.kind, AiClipTimelineUnitKind::Segment);
    assert_eq!(segment_unit.clip_segment_id, Some(7));
    assert_eq!(segment_unit.title, "片段 7");
    assert_eq!(segment_unit.asset_key, None);
}

#[test]
fn bridge_after_the_last_segment_or_between_distant_segments_is_not_played() {
    let segments = vec![segment(1, 0, 1_000), segment(2, 0, 1_000)];
    let bridges = vec![bridge(5, 2, 1, 300), bridge(6, 2, 3, 300), bridge(7, 1, 2, 0)];
    let layout = layout_clip_timeline(&segments, &bridges);
    let keys: Vec<&str> = layout.units.iter().map(|unit| unit.key.as_str()).collect();
    assert_eq!(keys, vec!["segment:1", "bridge:7", "segment:2"]);
    assert_eq!(layout.project_duration_ms, 2_000);
}

#[test]
fn the_last_listed_bridge_of_a_pair_wins() {
    let segments = vec![segment(1, 0, 1_000), segment(2, 0, 1_000)];
    let bridges = vec![bridge(5, 1, 2, 300), bridge(6, 1, 2, 700)];
    let layout = layout_clip_timeline(&segments, &bridges);
    assert_eq!(layout.units[1].boundary_id, Some(6));
    assert_eq!(layout.project_duration_ms, 2_700);
}

#[test]
fn empty_project_has_no_units_and_no_duration() {
    let layout = layout_clip_timeline(&[], &[bridge(1, 1, 2, 5)]);
    assert!(layout.units.is_empty());
    assert_eq!(layout.project_duration_ms, 0);
}

#[test]
fn timeline_positions_saturate_instead_of_overflowing() {
    let segments = vec![segment(1, 0, u64::MAX), segment(2, 0, 10)];
    let layout = layout_clip_timeline(&segments, &[]);
    assert_eq!(layout.units[1].project_start_ms, u64::MAX);
    assert_eq!(layout.project_duration_ms, u64::MAX);
}

#[test]
fn each_unit_starts_where_the_previous_one_ends() {
    let segments = vec![
        segment(1, 5, 900),
        segment(2, 100, 100),
        segment(3, 2_000, 1_000),
        segment(4, 0, 1),
    ];
    let bridges = vec![bridge(10, 1, 2, 50), bridge(11, 3, 4, 75)];
    let layout = layout_clip_timeline(&segments, &bridges);
    assert_eq!(layout.units[0].project_start_ms, 0);
    for pair in layout.units.windows(2) {
        assert_eq!(pair[0].project_end_ms, pair[1].project_start_ms);
    }
    assert_eq!(layout.units.last().unwrap().project_end_ms, layout.project_duration_ms);
    assert_eq!(layout.project_duration_ms, 895 + 50 + 75 + 1);
}

#[test]
fn subtitles_are_placed_through_their_segment() {
    let segments = vec![segment(7, 1_000, 4_000), segment(8, 10_000, 12_000)];
    let bridges = vec![bridge(31, 7, 8, 500)];
    let subtitles = vec![subtitle(1, 8, 10_500, 11_000), subtitle(2, 7, 900, 1_200)];
    let placed = place_subtitles(&subtitles, &segments, &bridges).unwrap();
    assert_eq!((placed[0].project_start_ms, placed[0].project_end_ms), (4_000, 4_500));
    assert_eq!((placed[1].project_start_ms, placed[1].project_end_ms), (0, 200));
    assert_eq!(placed[0].text, "你好");
    assert_eq!(placed[0].source_start_ms, 10_500);
}

#[test]
fn subtitle_of_a_missing_segment_is_an_integrity_error() {
    let segments = vec![segment(7, 1_000, 4_000)];
    let subtitles = vec![subtitle(1, 7, 1_000, 2_000), subtitle(2, 99, 0, 10)];
    let error = place_subtitles(&subtitles, &segments, &[]).unwrap_err();
    assert_eq!(error, AiRepositoryError::Integrity("工程字幕引用的片段不存在".to_owned()));
    assert_eq!(error.message(), "数据完整性错误：工程字幕引用的片段不存在");
}

#[test]
fn subtitles_are_complete_when_every_segment_has_one() {
    let segments = vec![segment(7, 0, 10), segment(8, 0, 10)];
    assert!(subtitles_complete(&segments, &[subtitle(1, 8, 0, 1), subtitle(2, 7, 0, 1)]));
    assert!(!subtitles_complete(&segments, &[subtitle(1, 8, 0, 1)]));
    assert!(!subtitles_complete(&[], &[subtitle(1, 8, 0, 1)]));
}

#[test]
fn only_active_current_boundaries_with_material_play_a_bridge() {
    let boundary = ClipTransitionBoundary {
        id: 3,
        left_stable_id: 1,
        right_stable_id: 2,
        active: true,
        stale: false,
        asset_key: Some("fade".to_owned()),
        asset_version: Some(1),
    };
    assert!(boundary.plays_bridge());
    assert!(!ClipTransitionBoundary { stale: true, ..boundary.clone() }.plays_bridge());
    assert!(!ClipTransitionBoundary { active: false, ..boundary.clone() }.plays_bridge());
    assert!(!ClipTransitionBoundary { asset_version: None, ..boundary.clone() }.plays_bridge());
    assert!(!ClipTransitionBoundary { asset_key: None, ..boundary }.plays_bridge());
}
