use dy_screen_client::activation::{
    load_and_migrate_secrets, migration_after_load, migration_after_readback, MigrationStep,
};
use dy_screen_client::activation_secret::{
    ActivationSecretError, ActivationSecretStore, ActivationSecrets, MemoryActivationSecretStore,
};

fn secrets(code: &str) -> ActivationSecrets {
    ActivationSecrets {
        device_id: "device-1".to_owned(),
        activate_code: code.to_owned(),
        token: Some("token-1".to_owned()),
    }
}

#[test]
fn legacy_secrets_move_into_an_empty_store_and_are_read_back() {
    let mut store = MemoryActivationSecretStore::new();
    let legacy = secrets("CODE-1");
    let r = load_and_migrate_secrets(Some(legacy.clone()), &mut store);
    assert!(r.finalize_migration);
    assert_eq!(r.secrets, Some(legacy.clone()));
    assert_eq!(r.credential_error, None);
    assert_eq!(r.migration_device_id, None);
    assert_eq!(store.load().unwrap(), Some(legacy));
}

#[test]
fn unreadable_store_keeps_migration_open() {
    let mut store = MemoryActivationSecretStore::new();
    store.fail_load(true);
    let r = load_and_migrate_secrets(Some(secrets("CODE-1")), &mut store);
    assert!(!r.finalize_migration);
    assert_eq!(r.secrets, None);
    assert_eq!(r.migration_device_id.as_deref(), Some("device-1"));
    assert_eq!(
        r.credential_error.as_deref(),
        Some("无法读取系统安全凭据，请检查系统权限后重新激活")
    );
}

#[test]
fn failed_write_reports_migration_failure() {
    let mut store = MemoryActivationSecretStore::new();
    store.fail_store(true);
    let r = load_and_migrate_secrets(Some(secrets("CODE-1")), &mut store);
    assert!(!r.finalize_migration);
    assert_eq!(
        r.credential_error.as_deref(),
        Some("无法迁移旧版授权凭据到系统安全存储，请检查系统权限")
    );
    assert_eq!(store.load().unwrap(), None);
}

#[test]
fn step_after_load_covers_every_answer() {
    let legacy = secrets("CODE-1");
    assert!(matches!(
        migration_after_load(Some(legacy.clone()), Err(ActivationSecretError::Operation)),
        MigrationStep::Unreadable
    ));
    match migration_after_load(None, Ok(Some(secrets("CODE-2")))) {
        MigrationStep::Finalize(s) => assert_eq!(s, Some(secrets("CODE-2"))),
        _ => panic!("expected finalize"),
    }
    let invalid = ActivationSecrets {
        device_id: String::new(),
        activate_code: "CODE".to_owned(),
        token: None,
    };
    match migration_after_load(Some(invalid), Ok(None)) {
        MigrationStep::LegacyInvalid(s) => assert_eq!(s, None),
        _ => panic!("expected legacy invalid"),
    }
    match migration_after_load(Some(legacy.clone()), Ok(Some(legacy.clone()))) {
        MigrationStep::Finalize(s) => assert_eq!(s, Some(legacy.clone())),
        _ => panic!("expected finalize"),
    }
    match migration_after_load(Some(legacy.clone()), Ok(Some(secrets("CODE-2")))) {
        MigrationStep::Mismatch(s) => assert_eq!(s, secrets("CODE-2")),
        _ => panic!("expected mismatch"),
    }
    assert!(matches!(
        migration_after_load(Some(legacy), Ok(None)),
        MigrationStep::StoreLegacy
    ));
}

#[test]
fn readback_must_return_exactly_the_legacy_secrets() {
    let legacy = secrets("CODE-1");
    let ok = migration_after_readback(&legacy, Ok(()), Ok(Some(legacy.clone())));
    assert!(ok.finalize_migration);
    assert_eq!(ok.secrets, Some(legacy.clone()));
    let failed_write =
        migration_after_readback(&legacy, Err(ActivationSecretError::Operation), Ok(Some(legacy.clone())));
    assert!(!failed_write.finalize_migration);
    assert_eq!(
        failed_write.credential_error.as_deref(),
        Some("无法迁移旧版授权凭据到系统安全存储，请检查系统权限")
    );
    for readback in [Ok(None), Ok(Some(secrets("CODE-2"))), Err(ActivationSecretError::Operation)] {
        let r = migration_after_readback(&legacy, Ok(()), readback);
        assert!(!r.finalize_migration);
        assert_eq!(r.secrets, None);
        assert_eq!(r.migration_device_id.as_deref(), Some("device-1"));
        assert_eq!(r.credential_error.as_deref(), Some("旧版授权凭据迁移回读校验失败，请重试"));
    }
}
