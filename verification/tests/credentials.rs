use nen_core::credentials::{check, ApiKey, ApiKeyError, ContractViolation, CredentialKind, CredentialStoreError, InMemoryCredentialStore, SecureCredentialStore};

#[test]
fn api_key_trims_and_rejects_invalid_values() {
    assert_eq!(ApiKey::new("  secret  ").expect("valid").expose(), "secret");
    assert!(ApiKey::new("").is_err());
    assert!(ApiKey::new(" \t ").is_err());
    assert!(ApiKey::new("line\nsecret").is_err());
    assert!(ApiKey::new(&"x".repeat(513)).is_err());
    assert!(ApiKey::new(&"x".repeat(512)).is_ok());
}

#[test]
fn api_key_debug_and_display_are_redacted() {
    let key = ApiKey::new("sentinel-api-key").expect("valid");
    assert_eq!(key.debug_text(), "ApiKey(<redacted>)");
    assert_eq!(key.display_text(), "<redacted>");
}

#[test]
fn credential_kind_slugs_are_stable() {
    assert_eq!(CredentialKind::OpenSubtitles.slug(), "opensubtitles");
    assert_eq!(CredentialKind::OpenAi.slug(), "openai");
    assert_eq!(CredentialKind::OpenRouter.slug(), "openrouter");
}

#[test]
fn credentials_fake_passes_the_shared_contract() {
    check(&mut InMemoryCredentialStore::new()).expect("contract passes");
}

#[test]
fn fake_contains_does_not_call_get() {
    let mut store = InMemoryCredentialStore::new();
    store
        .set(CredentialKind::OpenAi, ApiKey::new("sentinel").expect("valid"))
        .expect("set");
    assert!(store.contains(CredentialKind::OpenAi).expect("contains"));
    assert_eq!(store.get_call_count(), 0);
}

#[test]
fn a_stored_key_reads_back_and_other_kinds_stay_empty() {
    let mut store = InMemoryCredentialStore::new();
    store
        .set(CredentialKind::OpenRouter, ApiKey::new(" router-key ").expect("valid"))
        .expect("set");
    let read = store.get(CredentialKind::OpenRouter).expect("get").expect("present");
    assert_eq!(read.expose(), "router-key");
    assert!(store.get(CredentialKind::OpenAi).expect("get").is_none());
    assert_eq!(store.get_call_count(), 2);
    store.delete(CredentialKind::OpenRouter).expect("delete");
    assert!(!store.contains(CredentialKind::OpenRouter).expect("contains"));
}

#[test]
fn a_store_that_does_not_start_empty_fails_the_contract() {
    let mut store = InMemoryCredentialStore::new();
    store
        .set(CredentialKind::OpenSubtitles, ApiKey::new("left-over").expect("valid"))
        .expect("set");
    let violations = check(&mut store).expect_err("contract fails");
    assert!(!violations.is_empty());
    assert!(!store.contains(CredentialKind::OpenSubtitles).expect("contains"));
}

#[test]
fn error_texts_are_payload_free() {
    assert_eq!(ApiKeyError::Invalid.display_text(), "invalid API key");
    assert_eq!(CredentialStoreError::Denied.display_text(), "credential store access denied");
}

#[test]
fn each_key_left_over_is_reported_once_as_an_unexpected_initial_value() {
    let mut store = InMemoryCredentialStore::new();
    store.set(CredentialKind::OpenAi, ApiKey::new("left-over").expect("valid")).expect("set");
    store.set(CredentialKind::OpenRouter, ApiKey::new("left-over").expect("valid")).expect("set");
    let violations = check(&mut store).expect_err("contract fails");
    assert_eq!(
        violations,
        vec![ContractViolation::UnexpectedInitialValue, ContractViolation::UnexpectedInitialValue]
    );
}
