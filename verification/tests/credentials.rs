//! The credential lifecycle: buffer boundary, graceful degradation,
//! claim extraction, and the store.

use base64::Engine;
use tmz::auth::{AuthManager, CredentialState, RefreshPlan, TokenStorage, REFRESH_BUFFER_SECS};
use tmz::errors::{AuthenticationError, CoreError};
use tmz::models::TeamsTokens;

const NOW: i64 = 1_800_000_000;

fn bundle(expires_at: i64) -> TeamsTokens {
    TeamsTokens {
        skype_token: "s".to_string(),
        chat_token: "c".to_string(),
        graph_token: "g".to_string(),
        presence_token: "p".to_string(),
        tenant_id: "tenant1".to_string(),
        user_id: "user1".to_string(),
        user_principal_name: "alex@example.test".to_string(),
        expires_at,
    }
}

fn jwt(claims: &str) -> String {
    let payload = base64::engine::general_purpose::STANDARD_NO_PAD.encode(claims);
    format!("hdr.{payload}.sig")
}

#[test]
fn buffer_boundary_selects_the_state() {
    let mut manager = AuthManager::new().unwrap();
    manager.restore(&bundle(NOW + REFRESH_BUFFER_SECS + 1));
    assert_eq!(manager.state(NOW), CredentialState::Valid);
    assert!(matches!(manager.refresh_plan(NOW), RefreshPlan::UseCached(_)));

    manager.restore(&bundle(NOW + REFRESH_BUFFER_SECS - 1));
    assert_eq!(manager.state(NOW), CredentialState::ExpiringSoon);
    assert!(matches!(manager.refresh_plan(NOW), RefreshPlan::NeedsRefresh));

    manager.restore(&bundle(NOW + REFRESH_BUFFER_SECS));
    assert_eq!(manager.state(NOW), CredentialState::ExpiringSoon);

    manager.restore(&bundle(NOW));
    assert_eq!(manager.state(NOW), CredentialState::Expired);
}

#[test]
fn absent_bundle_needs_login() {
    let manager = AuthManager::new().unwrap();
    assert_eq!(manager.state(NOW), CredentialState::Absent);
    assert!(matches!(manager.refresh_plan(NOW), RefreshPlan::NeedsLogin));
    assert!(matches!(
        manager.get_tokens(NOW),
        Err(AuthenticationError::StorageError(CoreError::SecretNotFound(_)))
    ));
}

#[test]
fn refresh_failure_degrades_gracefully() {
    let mut manager = AuthManager::new().unwrap();
    // Inside the buffer window but not literally expired.
    manager.restore(&bundle(NOW + 100));
    let r = manager.finish_refresh(NOW, None);
    assert_eq!(r.unwrap().expires_at, NOW + 100);
    // The old bundle stays stored.
    assert_eq!(manager.get_tokens(NOW).unwrap().expires_at, NOW + 100);
}

#[test]
fn refresh_failure_on_expired_bundle_fails() {
    let mut manager = AuthManager::new().unwrap();
    manager.restore(&bundle(NOW - 1));
    let r = manager.finish_refresh(NOW, None);
    assert!(matches!(r, Err(AuthenticationError::TokenExtractionError(_))));
}

#[test]
fn refresh_success_replaces_the_bundle() {
    let mut manager = AuthManager::new().unwrap();
    manager.restore(&bundle(NOW + 100));
    let fresh = bundle(NOW + 3600);
    let r = manager.finish_refresh(NOW, Some(fresh));
    assert_eq!(r.unwrap().expires_at, NOW + 3600);
    assert_eq!(manager.get_tokens(NOW).unwrap().expires_at, NOW + 3600);
}

#[test]
fn get_tokens_refuses_expired_bundles() {
    let mut manager = AuthManager::new().unwrap();
    manager.restore(&bundle(NOW));
    assert!(matches!(
        manager.get_tokens(NOW),
        Err(AuthenticationError::TokenExtractionError(_))
    ));
    manager.restore(&bundle(NOW + 1));
    assert!(manager.get_tokens(NOW).is_ok());
}

#[test]
fn storage_holds_one_bundle_and_clears_idempotently() {
    let mut storage = TokenStorage::new();
    assert!(matches!(storage.load_tokens(), Err(CoreError::SecretNotFound(_))));
    storage.store_tokens(&bundle(NOW + 10));
    storage.store_tokens(&bundle(NOW + 20));
    assert_eq!(storage.load_tokens().unwrap().expires_at, NOW + 20);
    assert!(storage.has_valid_tokens(NOW));
    assert!(!storage.has_valid_tokens(NOW + 20));
    storage.clear_tokens();
    storage.clear_tokens();
    assert!(matches!(storage.load_tokens(), Err(CoreError::SecretNotFound(_))));
}

#[test]
fn store_tokens_extracts_the_claims() {
    let mut manager = AuthManager::new().unwrap();
    let token = jwt("{\"tid\":\"tenant1\",\"oid\":\"user1\",\"upn\":\"alex@example.test\",\"exp\":2000000000}");
    let stored = manager.store_tokens(&token, "chat", "graph", "presence").unwrap();
    assert_eq!(stored.tenant_id, "tenant1");
    assert_eq!(stored.user_id, "user1");
    assert_eq!(stored.user_principal_name, "alex@example.test");
    assert_eq!(stored.expires_at, 2_000_000_000);
    assert_eq!(stored.skype_token, token);
    assert!(manager.is_authenticated(NOW).unwrap());
}

#[test]
fn store_tokens_falls_back_to_unique_name() {
    let mut manager = AuthManager::new().unwrap();
    let token = jwt("{\"tid\":\"t\",\"oid\":\"o\",\"unique_name\":\"kim@example.test\",\"exp\":2000000000}");
    let stored = manager.store_tokens(&token, "c", "g", "p").unwrap();
    assert_eq!(stored.user_principal_name, "kim@example.test");
    let token2 = jwt("{\"tid\":\"t\",\"oid\":\"o\",\"exp\":2000000000}");
    let stored2 = manager.store_tokens(&token2, "c", "g", "p").unwrap();
    assert_eq!(stored2.user_principal_name, "unknown");
}

#[test]
fn missing_claims_are_named() {
    let mut manager = AuthManager::new().unwrap();
    let no_tid = jwt("{\"oid\":\"o\",\"exp\":2000000000}");
    match manager.store_tokens(&no_tid, "c", "g", "p") {
        Err(AuthenticationError::JwtError(m)) => assert_eq!(m, "missing tid claim"),
        other => panic!("expected a claim error, got {other:?}"),
    }
    let no_oid = jwt("{\"tid\":\"t\",\"exp\":2000000000}");
    match manager.store_tokens(&no_oid, "c", "g", "p") {
        Err(AuthenticationError::JwtError(m)) => assert_eq!(m, "missing oid claim"),
        other => panic!("expected a claim error, got {other:?}"),
    }
    let no_exp = jwt("{\"tid\":\"t\",\"oid\":\"o\"}");
    match manager.store_tokens(&no_exp, "c", "g", "p") {
        Err(AuthenticationError::JwtError(m)) => assert_eq!(m, "missing exp claim"),
        other => panic!("expected a claim error, got {other:?}"),
    }
}

#[test]
fn malformed_token_is_a_parse_error() {
    let mut manager = AuthManager::new().unwrap();
    match manager.store_tokens("only-one-part", "c", "g", "p") {
        Err(AuthenticationError::JwtError(m)) => {
            assert_eq!(m, "invalid JWT format - expected 3 parts");
        }
        other => panic!("expected a parse error, got {other:?}"),
    }
    // A failed store leaves the store unchanged.
    assert_eq!(manager.state(NOW), CredentialState::Absent);
}

#[test]
fn logout_clears_and_is_idempotent() {
    let mut manager = AuthManager::new().unwrap();
    manager.restore(&bundle(NOW + 1000));
    manager.logout().unwrap();
    manager.logout().unwrap();
    assert_eq!(manager.state(NOW), CredentialState::Absent);
}

#[test]
fn find_token_selects_by_resource() {
    let entries = vec![
        ("unrelated".to_string(), "zzz".to_string()),
        (
            "user-login.windows.net-accesstoken-API.SPACES.SKYPE.COM".to_string(),
            "{\"secret\":\"sk\"}".to_string(),
        ),
        (
            "user-login.windows.net-accesstoken-graph.microsoft.com".to_string(),
            "{\"secret\":\"gr\"}".to_string(),
        ),
    ];
    let skype = AuthManager::find_token(&entries, "api.spaces.skype.com").unwrap();
    assert_eq!(skype, "{\"secret\":\"sk\"}");
    assert!(matches!(
        AuthManager::find_token(&entries, "presence.teams.microsoft.com"),
        Err(AuthenticationError::TokenExtractionError(_))
    ));
}

#[test]
fn browser_dump_round_trip_stores_the_bundle() {
    let token = jwt("{\"tid\":\"t1\",\"oid\":\"u1\",\"upn\":\"a@b\",\"exp\":2000000000}");
    let entry = |resource: &str, secret: &str| {
        (
            format!("acct-login.windows.net-accesstoken-{resource}"),
            format!("{{\"secret\":\"{secret}\"}}"),
        )
    };
    let dump = vec![
        entry("api.spaces.skype.com", &token),
        entry("chatsvcagg.teams.microsoft.com", "chat-secret"),
        entry("graph.microsoft.com", "graph-secret"),
        entry("presence.teams.microsoft.com", "presence-secret"),
    ];
    let mut manager = AuthManager::new().unwrap();
    let stored = manager.store_tokens_from_browser(&dump).unwrap();
    assert_eq!(stored.skype_token, token);
    assert_eq!(stored.chat_token, "chat-secret");
    assert_eq!(stored.tenant_id, "t1");
}

#[test]
fn decode_skype_token_reads_session_claims() {
    let payload = base64::engine::general_purpose::STANDARD_NO_PAD
        .encode("{\"skypeid\":\"live:alex\",\"iat\":1700000000,\"exp\":1700003600}");
    let token = format!("h.{payload}.s");
    let (skype_id, iat, exp) = tmz::auth::decode_skype_token(&token).unwrap();
    assert_eq!(skype_id, "live:alex");
    assert_eq!(iat, 1_700_000_000);
    assert_eq!(exp, 1_700_003_600);
    assert!(matches!(
        tmz::auth::decode_skype_token("nodots"),
        Err(CoreError::Auth(_))
    ));
}
