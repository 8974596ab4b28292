use dy_screen_client::activation::{
    activation_error_disposition, active_record_from_heartbeat, catalog_sync_allowed,
    check_secret_readback, cleared_record, credentials, device_hint, empty_activation_record,
    error_state, expired_lock, heartbeat_error_disposition, heartbeat_failure_outcome,
    heartbeat_precheck, heartbeat_requires_reactivation, locked_record, needs_protocol_retry,
    normalize_activation_code, reason_message, record_has_valid_local_authorization,
    revocation_lock, stable_device_id, state_from_record, verifying_record, ApiError,
    ClientActivationRecord, HeartbeatErrorDisposition, HeartbeatOutcome, HeartbeatPrecheck,
    ServerRecordingLimit,
};
use dy_screen_client::activation_secret::ActivationSecrets;

fn now() -> i64 {
    chrono::Utc::now().timestamp()
}

fn test_env() -> Vec<Option<String>> {
    vec![
        Some("host".to_owned()),
        None,
        Some("tester".to_owned()),
        None,
    ]
}

#[test]
fn device_id_is_stable_and_frontend_only_gets_hint() {
    let first = stable_device_id("/tmp/dy-screen-test", &test_env());
    let second = stable_device_id("/tmp/dy-screen-test", &test_env());
    assert_eq!(first, second);
    assert!(first.starts_with("DY-"));
    let hint = device_hint(&first);
    assert!(hint.starts_with('…'));
    assert!(!hint.contains(&first));
}

#[test]
fn device_id_depends_on_directory_and_environment() {
    let base = stable_device_id("/tmp/dy-screen-test", &test_env());
    assert_eq!(base.chars().count(), 27);
    assert_ne!(base, stable_device_id("/tmp/dy-screen-other", &test_env()));
    assert_ne!(base, stable_device_id("/tmp/dy-screen-test", &[None, None, None, None]));
}

#[test]
fn activation_code_validation_is_bounded() {
    assert!(normalize_activation_code("ABCD-1234").is_ok());
    assert!(normalize_activation_code("abc").is_err());
    assert!(normalize_activation_code(&"x".repeat(129)).is_err());
    assert!(normalize_activation_code("ABC\n123").is_err());
}

#[test]
fn activation_code_is_trimmed_and_limits_are_inclusive() {
    assert_eq!(normalize_activation_code("  ABCD  ").unwrap(), "ABCD");
    assert!(normalize_activation_code(&"x".repeat(128)).is_ok());
    assert_eq!(normalize_activation_code("abc").unwrap_err(), "请输入有效的激活码");
}

fn revoked_record() -> ClientActivationRecord {
    ClientActivationRecord {
        device_id_hint: "…23456789".to_owned(),
        expire_at: None,
        grace_sec: None,
        server_time_offset_sec: 0,
        state: "revoked".to_owned(),
        allow_custom_api_key: false,
        last_heartbeat_at: None,
        next_heartbeat_at: None,
        last_error: Some("授权已失效".to_owned()),
        updated_at: chrono::Utc::now().to_rfc3339(),
    }
}

#[test]
fn revoked_record_never_reports_active() {
    let record = revoked_record();
    let view = state_from_record(Some(&record), None, "DY-123456789", None, now());
    assert!(!view.active);
    let mut shown = vec![view.status.clone(), view.device_id_hint.clone()];
    shown.extend(view.message.clone());
    shown.extend(view.last_heartbeat_at.clone());
    shown.extend(view.next_heartbeat_at.clone());
    assert!(!shown.iter().any(|text| text.contains("DY-123456789")));
}

fn secrets() -> ActivationSecrets {
    ActivationSecrets {
        device_id: "DY-123456789".to_owned(),
        activate_code: "TEST-CODE".to_owned(),
        token: Some("TEST-TOKEN".to_owned()),
    }
}

#[test]
fn local_authorization_expires_after_the_server_deadline_and_grace_period() {
    let record = ClientActivationRecord {
        device_id_hint: "…23456789".to_owned(),
        expire_at: Some(1_000),
        grace_sec: Some(300),
        server_time_offset_sec: 20,
        state: "retrying".to_owned(),
        allow_custom_api_key: false,
        last_heartbeat_at: None,
        next_heartbeat_at: None,
        last_error: Some("网络连接失败".to_owned()),
        updated_at: chrono::Utc::now().to_rfc3339(),
    };
    let secrets = secrets();
    assert!(record_has_valid_local_authorization(&record, Some(&secrets), 1_280));
    assert!(!record_has_valid_local_authorization(&record, Some(&secrets), 1_281));
    let view = state_from_record(Some(&record), Some(&secrets), "DY-123456789", None, now());
    assert!(!view.active);
    assert_eq!(view.status, "invalid");
    assert!(view.message.unwrap().contains("离线宽限期"));
}

#[test]
fn incomplete_or_empty_local_authorization_is_never_active() {
    let mut record = ClientActivationRecord {
        device_id_hint: "…23456789".to_owned(),
        expire_at: None,
        grace_sec: Some(300),
        server_time_offset_sec: 0,
        state: "active".to_owned(),
        allow_custom_api_key: false,
        last_heartbeat_at: None,
        next_heartbeat_at: None,
        last_error: None,
        updated_at: chrono::Utc::now().to_rfc3339(),
    };
    let mut secrets = secrets();
    assert!(!record_has_valid_local_authorization(&record, Some(&secrets), 1_000));
    record.expire_at = Some(2_000);
    secrets.token = Some(String::new());
    assert!(!record_has_valid_local_authorization(&record, Some(&secrets), 1_000));
    assert!(!record_has_valid_local_authorization(&record, None, 1_000));
}

#[test]
fn negative_grace_counts_as_none() {
    let record = ClientActivationRecord {
        expire_at: Some(1_000),
        grace_sec: Some(-50),
        state: "active".to_owned(),
        ..revoked_record()
    };
    assert!(record_has_valid_local_authorization(&record, Some(&secrets()), 1_000));
    assert!(!record_has_valid_local_authorization(&record, Some(&secrets()), 1_001));
}

#[test]
fn missing_record_asks_for_a_code() {
    let view = state_from_record(None, None, "DY-123456789", None, now());
    assert!(!view.configured);
    assert_eq!(view.status, "missing");
    assert_eq!(view.message.as_deref(), Some("请输入激活码后继续使用"));
    assert_eq!(view.device_id_hint, "…23456789");
    let failed = state_from_record(None, None, "DY-123456789", Some("凭据损坏"), now());
    assert_eq!(failed.status, "invalid");
    assert_eq!(failed.message.as_deref(), Some("凭据损坏"));
}

#[test]
fn short_device_ids_get_a_fixed_hint() {
    assert_eq!(device_hint("DY-1"), "…本地设备");
    assert_eq!(device_hint("DY-123456789"), "…23456789");
}

#[test]
fn reasons_map_to_their_messages() {
    assert_eq!(reason_message("disabled"), "激活码已停用，请联系管理员");
    assert_eq!(reason_message("expired"), "激活码已过期，请续费后重新激活");
    assert_eq!(reason_message("unbound"), "设备绑定已重置，请重新激活");
    assert_eq!(reason_message("other"), "授权已失效，请重新激活");
}

#[test]
fn heartbeat_revoked_flag_or_non_active_state_requires_reactivation() {
    assert!(!heartbeat_requires_reactivation(false, "ACTIVE"));
    assert!(!heartbeat_requires_reactivation(false, " active "));
    assert!(heartbeat_requires_reactivation(true, "ACTIVE"));
    assert!(heartbeat_requires_reactivation(false, "INACTIVE"));
    assert!(heartbeat_requires_reactivation(false, "DISABLED"));
    assert!(heartbeat_requires_reactivation(false, "EXPIRED"));
}

fn business(code: i64) -> ApiError {
    ApiError::Business {
        code,
        message: "TEST-MESSAGE".to_owned(),
    }
}

#[test]
fn heartbeat_business_codes_use_the_documented_disposition_matrix() {
    for code in [1001, 2001] {
        assert_eq!(
            heartbeat_error_disposition(&business(code), false),
            HeartbeatErrorDisposition::Contract
        );
    }
    for code in [1002, 1003, 1004, 1005, 1006, 2002, 2003, 2004] {
        assert_eq!(
            heartbeat_error_disposition(&business(code), false),
            HeartbeatErrorDisposition::Reactivate
        );
    }
    for code in [1007, 9000, 9101, 9102, 9103, 9104, 9105] {
        assert_eq!(
            heartbeat_error_disposition(&business(code), false),
            HeartbeatErrorDisposition::Retry
        );
    }
    for code in 9101..=9105 {
        assert_eq!(
            heartbeat_error_disposition(&business(code), true),
            HeartbeatErrorDisposition::Reactivate
        );
    }
}

#[test]
fn activation_business_codes_use_the_documented_disposition_matrix() {
    for code in [1001, 1002, 1003, 1004, 1005, 1006, 2001, 2002, 2003, 2004] {
        assert_eq!(
            activation_error_disposition(&business(code), false),
            HeartbeatErrorDisposition::Reactivate
        );
    }
    for code in [1007, 9000, 9101, 9102, 9103, 9104, 9105] {
        assert_eq!(
            activation_error_disposition(&business(code), false),
            HeartbeatErrorDisposition::Retry
        );
    }
    for code in 9101..=9105 {
        assert_eq!(
            activation_error_disposition(&business(code), true),
            HeartbeatErrorDisposition::Reactivate
        );
    }
}

#[test]
fn unavailable_server_is_retried() {
    let error = ApiError::Unavailable {
        message: "网络连接失败".to_owned(),
    };
    assert_eq!(heartbeat_error_disposition(&error, true), HeartbeatErrorDisposition::Retry);
    assert!(!needs_protocol_retry(&error));
    assert!(needs_protocol_retry(&business(9103)));
    assert!(!needs_protocol_retry(&business(9106)));
}

#[test]
fn failure_states_match_their_disposition() {
    let error = business(1001);
    let (state, message, delete) = error_state(&error, HeartbeatErrorDisposition::Contract);
    assert_eq!(state, "contract_error");
    assert!(message.starts_with("TEST-MESSAGE；"));
    assert!(message.ends_with("underscores_in_headers on"));
    assert!(delete);
    let (state, message, delete) = error_state(&error, HeartbeatErrorDisposition::Retry);
    assert_eq!((state, message.as_str(), delete), ("retrying", "TEST-MESSAGE", false));
    assert_eq!(
        heartbeat_failure_outcome(HeartbeatErrorDisposition::Contract),
        HeartbeatOutcome::ContractError
    );
    assert_eq!(
        heartbeat_failure_outcome(HeartbeatErrorDisposition::Reactivate),
        HeartbeatOutcome::Revoked
    );
}

#[test]
fn heartbeat_precheck_needs_a_valid_stored_authorization() {
    let record = ClientActivationRecord {
        expire_at: Some(1_000),
        grace_sec: Some(0),
        state: "active".to_owned(),
        ..revoked_record()
    };
    assert_eq!(heartbeat_precheck(None, Some(&secrets()), 0), HeartbeatPrecheck::Missing);
    assert_eq!(heartbeat_precheck(Some(&record), None, 0), HeartbeatPrecheck::Missing);
    assert_eq!(heartbeat_precheck(Some(&record), Some(&secrets()), 1_000), HeartbeatPrecheck::Proceed);
    assert_eq!(heartbeat_precheck(Some(&record), Some(&secrets()), 1_001), HeartbeatPrecheck::Expired);
    assert_eq!(expired_lock().state, "invalid");
}

#[test]
fn locking_a_record_schedules_a_retry_only_when_retrying() {
    let record = revoked_record();
    let retry = locked_record(
        record.clone(),
        &dy_screen_client::activation::failure_lock(
            &ApiError::Unavailable { message: "断网".to_owned() },
            HeartbeatErrorDisposition::Retry,
        ),
        "T1".to_owned(),
        "T2".to_owned(),
    );
    assert_eq!(retry.state, "retrying");
    assert_eq!(retry.next_heartbeat_at.as_deref(), Some("T2"));
    assert_eq!(retry.last_heartbeat_at.as_deref(), Some("T1"));
    let revoked = locked_record(record, &revocation_lock("expired"), "T1".to_owned(), "T2".to_owned());
    assert_eq!(revoked.state, "revoked");
    assert_eq!(revoked.next_heartbeat_at, None);
    assert_eq!(revoked.last_error.as_deref(), Some("激活码已过期，请续费后重新激活"));
}

#[test]
fn heartbeat_activates_record_with_server_offset() {
    let record = verifying_record("DY-123456789", 5_000, 60, "T0".to_owned());
    assert_eq!(record.state, "verifying");
    let active = active_record_from_heartbeat(
        record,
        None,
        Some(120),
        1_050,
        Some(1),
        1_000,
        "T1".to_owned(),
        "T2".to_owned(),
    );
    assert_eq!(active.state, "active");
    assert_eq!(active.expire_at, Some(5_000));
    assert_eq!(active.grace_sec, Some(120));
    assert_eq!(active.server_time_offset_sec, 50);
    assert!(active.allow_custom_api_key);
    assert_eq!(active.last_error, None);
    assert_eq!(active.next_heartbeat_at.as_deref(), Some("T2"));
}

#[test]
fn fresh_and_cleared_records_hold_no_authorization() {
    let empty = empty_activation_record("DY-123456789", "T".to_owned());
    assert_eq!(empty.state, "missing");
    assert_eq!(empty.device_id_hint, "…23456789");
    let cleared = cleared_record("DY-123456789", "T".to_owned(), false);
    assert_eq!(cleared.state, "invalid");
    assert_eq!(
        cleared.last_error.as_deref(),
        Some("无法清除系统安全凭据，请重新提交激活码覆盖旧凭据")
    );
}

#[test]
fn secrets_must_read_back_as_written() {
    assert!(check_secret_readback(&Some(secrets()), &secrets()).is_ok());
    let other = ActivationSecrets {
        token: None,
        ..secrets()
    };
    assert_eq!(
        check_secret_readback(&Some(other), &secrets()).unwrap_err(),
        "系统安全凭据回读校验失败，请重试"
    );
    assert!(check_secret_readback(&None, &secrets()).is_err());
}

#[test]
fn credentials_only_while_authorized() {
    let record = ClientActivationRecord {
        expire_at: Some(1_000),
        grace_sec: Some(0),
        state: "active".to_owned(),
        ..revoked_record()
    };
    assert_eq!(
        credentials(Some(&record), Some(&secrets()), 500),
        Some(("DY-123456789".to_owned(), "TEST-CODE".to_owned()))
    );
    assert_eq!(credentials(Some(&record), Some(&secrets()), 2_000), None);
    assert!(catalog_sync_allowed(false, "active").is_ok());
    assert!(catalog_sync_allowed(false, " ACTIVE ").is_err());
    assert!(catalog_sync_allowed(true, "ACTIVE").is_err());
}

#[test]
fn recording_limit_accepts_only_positive_counts() {
    let mut limit = ServerRecordingLimit::with_default(3);
    assert_eq!(limit.apply(Some(0), "test"), None);
    assert_eq!(limit.apply(Some(-2), "test"), None);
    assert_eq!(limit.apply(None, "test"), None);
    assert_eq!(limit.current(), 3);
    assert_eq!(limit.apply(Some(7), "test"), Some(7));
    assert_eq!(limit.current(), 7);
}
