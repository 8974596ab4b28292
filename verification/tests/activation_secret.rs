use dy_screen_client::activation_secret::{
    ActivationSecretError, ActivationSecretStore, ActivationSecrets, MemoryActivationSecretStore,
};

fn secrets() -> ActivationSecrets {
    ActivationSecrets {
        device_id: "DY-TEST-DEVICE".to_owned(),
        activate_code: "TEST-ACTIVATION-CODE".to_owned(),
        token: Some("TEST-OFFLINE-TOKEN".to_owned()),
    }
}

#[test]
fn memory_store_supports_replace_and_idempotent_delete() {
    let mut store = MemoryActivationSecretStore::new();
    assert!(store.load().unwrap().is_none());
    store.store(&secrets()).unwrap();
    assert!(store.load().unwrap().is_some());
    store.delete().unwrap();
    store.delete().unwrap();
    assert!(store.load().unwrap().is_none());
}

#[test]
fn memory_store_exposes_failures_without_losing_existing_secret() {
    let mut store = MemoryActivationSecretStore::new();
    store.store(&secrets()).unwrap();
    store.fail_store(true);
    assert_eq!(
        store.store(&ActivationSecrets {
            token: Some("REPLACEMENT-TOKEN".to_owned()),
            ..secrets()
        }),
        Err(ActivationSecretError::Operation)
    );
    store.fail_store(false);
    assert!(store.load().unwrap().as_ref() == Some(&secrets()));
}

#[test]
fn memory_store_refuses_invalid_secrets_and_reports_failures() {
    let mut store = MemoryActivationSecretStore::new();
    let invalid = ActivationSecrets {
        device_id: String::new(),
        ..secrets()
    };
    assert_eq!(store.store(&invalid), Err(ActivationSecretError::Invalid));
    store.store(&secrets()).unwrap();
    store.fail_load(true);
    assert!(store.load().is_err());
    store.fail_load(false);
    store.fail_delete(true);
    assert!(store.delete().is_err());
    assert!(store.load().unwrap().is_some());
}
