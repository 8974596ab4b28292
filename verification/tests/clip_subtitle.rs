use dy_screen_client::clip_subtitle::{
    build_clip_subtitle_frames, build_display_units, build_render_frames, check_render_request,
    frame_file_name, subtitle_manifest, PageUnit, RenderFrame, SubtitlePage,
};
use dy_screen_client::domain::AiClipSubtitle;

fn subtitle(id: &str, start_ms: u64, end_ms: u64, text: &str) -> AiClipSubtitle {
    AiClipSubtitle {
        id: 1,
        clip_project_id: 1,
        stable_segment_id: id.to_owned(),
        clip_segment_id: 1,
        input_id: 1,
        original_text: text.to_owned(),
        text: text.to_owned(),
        hidden: false,
        source_start_ms: start_ms,
        source_end_ms: end_ms,
        project_start_ms: start_ms,
        project_end_ms: end_ms,
    }
}

/// One page holding every display unit of `text` on a single line.
fn single_page(text: &str) -> Vec<SubtitlePage> {
    vec![SubtitlePage {
        units: build_display_units(text)
            .into_iter()
            .map(|unit| PageUnit {
                text: unit,
                line_break_before: false,
            })
            .collect(),
    }]
}

#[test]
fn render_frames_include_transparent_gaps() {
    let display = build_clip_subtitle_frames(
        &[subtitle("a", 200, 800, "第一句")],
        &[single_page("第一句")],
        1_000,
    );
    let frames = build_render_frames(&display, 1_000);
    assert_eq!(frames.first().unwrap().page_text, None);
    assert_eq!(frames.first().unwrap().start_ms, 0);
    assert_eq!(frames.first().unwrap().end_ms, 200);
    assert_eq!(frames.last().unwrap().page_text, None);
    assert_eq!(frames.last().unwrap().start_ms, 800);
    assert_eq!(frames.last().unwrap().end_ms, 1_000);
}

#[test]
fn display_units_split_graphemes_and_keep_words_and_punctuation() {
    assert_eq!(build_display_units("第一句"), vec!["第", "一", "句"]);
    let units = build_display_units("中文 ASR，好");
    assert_eq!(units.concat(), "中文 ASR，好");
    assert!(units.iter().all(|unit| !unit.is_empty()));
}

#[test]
fn render_frames_tile_the_timeline() {
    let display = build_clip_subtitle_frames(
        &[subtitle("a", 0, 600, "你好"), subtitle("b", 700, 900, "再见")],
        &[single_page("你好"), single_page("再见")],
        1_000,
    );
    assert!(!display.is_empty());
    let frames = build_render_frames(&display, 1_000);
    assert_eq!(frames.first().unwrap().start_ms, 0);
    assert_eq!(frames.last().unwrap().end_ms, 1_000);
    assert!(frames.windows(2).all(|pair| pair[0].end_ms == pair[1].start_ms));
    assert!(frames.iter().all(|frame| frame.start_ms < frame.end_ms));
}

#[test]
fn manifest_lists_files_and_repeats_the_last() {
    let frames = vec![
        RenderFrame {
            start_ms: 0,
            end_ms: 200,
            page_text: None,
            visible_bytes: 0,
        },
        RenderFrame {
            start_ms: 200,
            end_ms: 1_250,
            page_text: Some("中文".to_owned()),
            visible_bytes: 3,
        },
    ];
    let manifest = subtitle_manifest(&frames);
    assert_eq!(
        manifest,
        "ffconcat version 1.0\nfile 'frame-000000.png'\nduration 0.200\nfile 'frame-000001.png'\nduration 1.050\nfile 'frame-000001.png'\n"
    );
    assert!(!manifest.contains("中文"));
    assert_eq!(subtitle_manifest(&[]), "ffconcat version 1.0\n");
    assert_eq!(frame_file_name(1_234_567), "frame-1234567.png");
}

#[test]
fn rendering_needs_length_and_subtitles() {
    assert_eq!(check_render_request(1, 0).unwrap_err().code, "invalid_segment");
    assert_eq!(check_render_request(0, 10).unwrap_err().code, "subtitles_incomplete");
    assert!(check_render_request(1, 10).is_ok());
}

#[test]
fn frames_split_their_page_and_follow_one_another() {
    let display = build_clip_subtitle_frames(
        &[subtitle("a", 0, 600, "你好世界"), subtitle("b", 500, 900, "再见")],
        &[single_page("你好世界"), single_page("再见")],
        1_000,
    );
    assert!(!display.is_empty());
    for frame in &display {
        assert!(!frame.visible_text.is_empty());
        assert_eq!(format!("{}{}", frame.visible_text, frame.hidden_text), frame.page_text);
        assert!(frame.project_start_ms < frame.project_end_ms);
    }
    for pair in display.windows(2) {
        assert!(pair[0].project_end_ms <= pair[1].project_start_ms);
        assert!(
            pair[0].project_end_ms != pair[1].project_start_ms
                || pair[0].visible_text != pair[1].visible_text
                || pair[0].page_text != pair[1].page_text
                || pair[0].subtitle_id != pair[1].subtitle_id
        );
    }
}

#[test]
fn hidden_subtitles_change_nothing_and_empty_timelines_have_no_frames() {
    let mut hidden = subtitle("h", 100, 400, "隐藏");
    hidden.hidden = true;
    let shown = subtitle("a", 0, 600, "你好");
    let with_hidden = build_clip_subtitle_frames(
        &[hidden.clone(), shown.clone()],
        &[single_page("隐藏"), single_page("你好")],
        1_000,
    );
    let without = build_clip_subtitle_frames(&[shown.clone()], &[single_page("你好")], 1_000);
    assert_eq!(with_hidden, without);
    assert!(build_clip_subtitle_frames(&[shown], &[single_page("你好")], 0).is_empty());
    assert!(build_clip_subtitle_frames(&[hidden], &[single_page("隐藏")], 1_000).is_empty());
}
