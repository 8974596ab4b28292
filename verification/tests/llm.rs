use dy_screen_client::llm::{
    map_extraction_error, settings_from_row, ExtractionFailure, LlmError, LlmProviderSettingsRow,
};

fn row() -> LlmProviderSettingsRow {
    LlmProviderSettingsRow {
        provider: "deepseek".to_owned(),
        model_id: "deepseek-reasoner".to_owned(),
        timeout_ms: 45_000,
        prompt_version: "highlight-v2".to_owned(),
        qualified_score: 60,
        excellent_score: 85,
        transition_auto_apply_score: 7,
        updated_at: "2025-01-01T00:00:00Z".to_owned(),
    }
}

fn config(message: &str) -> LlmError {
    LlmError::InvalidConfiguration(message.to_owned())
}

#[test]
fn extraction_failures_map_to_the_error_kinds_of_the_workflow() {
    assert_eq!(map_extraction_error(ExtractionFailure::NoData), LlmError::InvalidResponse);
    assert_eq!(map_extraction_error(ExtractionFailure::Deserialization), LlmError::InvalidResponse);
    let status = |code| map_extraction_error(ExtractionFailure::Completion { status: Some(code) });
    assert_eq!(status(401), LlmError::Credential);
    assert_eq!(status(403), LlmError::Credential);
    for code in [408, 409, 425, 429, 500, 503, 599] {
        assert_eq!(status(code), LlmError::Temporary, "{code}");
    }
    for code in [400, 404, 410, 600] {
        assert_eq!(status(code), LlmError::Provider, "{code}");
    }
    assert_eq!(map_extraction_error(ExtractionFailure::Completion { status: None }), LlmError::Provider);
}

#[test]
fn stored_settings_are_read_back_checked() {
    let defaults = settings_from_row(None, true).unwrap();
    assert_eq!(defaults.model_id, "deepseek-chat");
    assert_eq!((defaults.timeout_ms, defaults.qualified_score, defaults.excellent_score), (30_000, 70, 80));
    assert!(defaults.key_configured);
    assert_eq!(defaults.updated_at, None);

    let stored = settings_from_row(Some(row()), false).unwrap();
    assert_eq!(stored.model_id, "deepseek-reasoner");
    assert_eq!((stored.timeout_ms, stored.qualified_score, stored.excellent_score), (45_000, 60, 85));
    assert_eq!(stored.transition_auto_apply_score, 7);
    assert_eq!(stored.updated_at.as_deref(), Some("2025-01-01T00:00:00Z"));

    assert_eq!(settings_from_row(Some(LlmProviderSettingsRow { timeout_ms: -1, ..row() }), false), Err(config("超时参数无效")));
    assert_eq!(
        settings_from_row(Some(LlmProviderSettingsRow { qualified_score: 256, ..row() }), false),
        Err(config("合格片段阈值无效"))
    );
    assert_eq!(
        settings_from_row(Some(LlmProviderSettingsRow { excellent_score: -3, ..row() }), false),
        Err(config("优秀片段阈值无效"))
    );
    assert_eq!(
        settings_from_row(Some(LlmProviderSettingsRow { transition_auto_apply_score: 300, ..row() }), false),
        Err(config("转场自动应用阈值无效"))
    );
    assert_eq!(
        settings_from_row(Some(LlmProviderSettingsRow { excellent_score: 50, ..row() }), false),
        Err(config("优秀片段阈值不能低于合格片段阈值"))
    );
    assert_eq!(
        settings_from_row(Some(LlmProviderSettingsRow { timeout_ms: 500, ..row() }), false),
        Err(config("请求超时必须在 1 秒到 120 秒之间"))
    );
}
