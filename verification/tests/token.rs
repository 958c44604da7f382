use tgbot::token::{random_token, token_value, TokenStore};

#[test]
fn token_value_format() {
    assert_eq!(token_value(42, "alice", 7, 5), "42;alice;07:05");
    assert_eq!(token_value(0, "-", 23, 59), "0;-;23:59");
    assert_eq!(token_value(123456789, "пользователь", 0, 0), "123456789;пользователь;00:00");
}

#[test]
fn random_tokens_are_sixteen_alphanumerics() {
    for _ in 0..50 {
        let t = random_token();
        assert_eq!(t.chars().count(), 16);
        assert!(t.chars().all(|c| c.is_ascii_alphanumeric()));
    }
}

#[test]
fn token_is_retrievable_until_expiry() {
    let mut store = TokenStore::new();
    let now = 1_000;
    assert!(store.try_issue("AAAABBBBCCCCDDDD", 42, "alice", 12, 30, now));
    assert_eq!(store.get("AAAABBBBCCCCDDDD", now), Some("42;alice;12:30".to_string()));
    assert_eq!(store.get("AAAABBBBCCCCDDDD", now + 599), Some("42;alice;12:30".to_string()));
    assert_eq!(store.get("AAAABBBBCCCCDDDD", now + 600), None);
    assert_eq!(store.get("AAAABBBBCCCCDDDD", now + 601), None);
}

#[test]
fn liveness_probe_follows_expiry() {
    let mut store = TokenStore::new();
    assert!(!store.exists_live("tok", 0));
    assert!(store.set_if_absent("tok", "v", 100));
    assert!(store.exists_live("tok", 100));
    assert!(store.exists_live("tok", 699));
    assert!(!store.exists_live("tok", 700));
}

#[test]
fn set_if_absent_refuses_live_collisions() {
    let mut store = TokenStore::new();
    let now = 50;
    assert!(store.set_if_absent("tok", "first", now));
    assert!(!store.set_if_absent("tok", "second", now + 10));
    assert_eq!(store.get("tok", now + 10), Some("first".to_string()));
}

#[test]
fn expired_tokens_can_be_reissued() {
    let mut store = TokenStore::new();
    assert!(store.set_if_absent("tok", "first", 100));
    assert!(store.set_if_absent("tok", "second", 100 + 600));
    assert_eq!(store.get("tok", 100 + 600), Some("second".to_string()));
}

#[test]
fn live_tokens_are_pairwise_distinct() {
    let mut store = TokenStore::new();
    let now = 0;
    let mut issued: Vec<String> = Vec::new();
    for i in 0..40 {
        if let Some(tok) = store.issue_token(i, "user", now, 8) {
            issued.push(tok);
        }
    }
    assert!(!issued.is_empty());
    for a in 0..issued.len() {
        for b in 0..issued.len() {
            if a != b {
                assert_ne!(issued[a], issued[b]);
            }
        }
    }
}

#[test]
fn issuance_succeeds_when_nothing_is_live() {
    let mut store = TokenStore::new();
    assert!(store.issue_token(1, "a", 0, 1).is_some());

    let mut expired = TokenStore::new();
    assert!(expired.set_if_absent("old", "v", 100));
    assert!(expired.issue_token(2, "b", 100 + 600, 1).is_some());
}

#[test]
fn issuance_with_no_attempts_changes_nothing() {
    let mut store = TokenStore::new();
    assert!(store.set_if_absent("tok", "v", 0));
    assert_eq!(store.issue_token(3, "c", 0, 0), None);
    assert_eq!(store.get("tok", 0), Some("v".to_string()));
}

#[test]
fn issue_token_probes_before_setting() {
    let mut store = TokenStore::new();
    let now = 10;
    let token = store.issue_token(7, "bob", now, 8).expect("an empty store has room");
    let value = store.get(&token, now).expect("issued tokens read back");
    assert!(value.starts_with("7;bob;"));
    let stamp = &value["7;bob;".len()..];
    assert_eq!(stamp.len(), 5);
    assert_eq!(stamp.as_bytes()[2], b':');
    assert!(stamp[..2].chars().all(|c| c.is_ascii_digit()));
    assert!(stamp[3..].chars().all(|c| c.is_ascii_digit()));
    assert_eq!(store.get(&token, now + 600), None);
}
