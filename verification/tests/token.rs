use sec_authentication::routing::{route_token, TokenRoute};
use sec_authentication::credential::Credential;
use sec_authentication::time::Timestamp;
use sec_authentication::token::Token;

fn token(text: &str, secs: i64, email: &str) -> Token {
    Token { b64_token: text.to_string(), creation_time: Timestamp { secs, nanos: 0 }, initiator_email: email.to_string() }
}

fn at(secs: i64, nanos: u32) -> Timestamp {
    Timestamp { secs, nanos }
}

#[test]
fn created_token_is_fresh() {
    let t = Token::create("a@example.com");
    assert_eq!(t.initiator_email, "a@example.com");
    // 256 bytes in URL-safe Base64 with padding
    assert_eq!(t.b64_token.len(), 344);
    assert!(t.b64_token.chars().all(|c| c.is_ascii_alphanumeric() || c == '-' || c == '_' || c == '='));
    assert!(t.is_token_valid());
    assert!(t.is_token_valid_at(&t.creation_time));
    let u = Token::create("a@example.com");
    assert_ne!(t.b64_token, u.b64_token);
}

#[test]
fn token_lifetime_is_fifteen_minutes() {
    let t = token("x", 1000, "a@example.com");
    assert!(t.is_token_valid_at(&at(1000, 0)));
    assert!(t.is_token_valid_at(&at(1000 + 15 * 60 - 1, 999_999_999)));
    assert!(!t.is_token_valid_at(&at(1000 + 15 * 60, 0)));
    assert!(!t.is_token_valid_at(&at(1000 + 3600, 0)));
    // a creation time in the future counts as valid
    assert!(t.is_token_valid_at(&at(0, 0)));
    let old = token("y", 0, "a@example.com");
    assert!(!old.is_token_valid());
}

#[test]
fn is_within_counts_nanoseconds() {
    let start = at(10, 500);
    assert!(start.is_within(&at(11, 499), 1_000_000_000));
    assert!(!start.is_within(&at(11, 500), 1_000_000_000));
    assert!(at(i64::MAX, 0).is_within(&at(i64::MIN, 0), 1));
}

#[test]
fn utc_text_of_a_timestamp() {
    assert_eq!(at(0, 0).to_utc_text().unwrap(), "1970-01-01 00:00:00 UTC");
    assert_eq!(at(i64::MAX, 0).to_utc_text(), None);
}

#[test]
fn retain_keeps_valid_tokens_in_order() {
    let mut all = vec![token("a", 0, "x@e.com"), token("b", 1000, "y@e.com"), token("c", 1100, "z@e.com")];
    Token::retain_valid_tokens(&mut all, &at(1000 + 15 * 60 + 50, 0));
    let texts: Vec<&str> = all.iter().map(|t| t.b64_token.as_str()).collect();
    assert_eq!(texts, vec!["c"]);
}

#[test]
fn delete_old_token_drops_expired() {
    let mut all = vec![token("old", 0, "x@e.com"), Token::create("y@e.com")];
    Token::delete_old_token(&mut all);
    assert_eq!(all.len(), 1);
    assert_eq!(all[0].initiator_email, "y@e.com");
}

#[test]
fn delete_removes_equal_tokens_only() {
    let t = token("a", 5, "x@e.com");
    let mut all = vec![token("a", 5, "x@e.com"), token("a", 6, "x@e.com"), token("b", 5, "x@e.com"), token("a", 5, "x@e.com")];
    t.delete(&mut all);
    assert_eq!(all.len(), 2);
    assert_eq!(all[0].creation_time.secs, 6);
    assert_eq!(all[1].b64_token, "b");
    t.delete(&mut all);
    assert_eq!(all.len(), 2);
    assert!(t.same_as(&token("a", 5, "x@e.com")));
    assert!(!t.same_as(&token("a", 5, "y@e.com")));
}

#[test]
fn add_and_find_tokens() {
    let mut all = Vec::new();
    Token::add_new_token_in_db(&mut all, token("a", 1, "x@e.com"));
    Token::add_new_token_in_db(&mut all, token("b", 2, "y@e.com"));
    assert_eq!(Token::position_of(&all, "b"), Some(1));
    assert_eq!(Token::position_of(&all, "c"), None);
}

#[test]
fn token_routes() {
    let creds = vec![Credential::new("known@e.com", "pass word 1").unwrap()];
    let tokens = vec![token("reset", 1000, "known@e.com"), token("reg", 1000, "new@e.com"), token("old", 0, "new@e.com")];
    let now = at(1100, 0);
    assert_eq!(route_token(&tokens, &creds, "reset", &now), TokenRoute::PasswordReset(0));
    assert_eq!(route_token(&tokens, &creds, "reg", &now), TokenRoute::Registration(1));
    assert_eq!(route_token(&tokens, &creds, "old", &now), TokenRoute::Invalid);
    assert_eq!(route_token(&tokens, &creds, "nothing", &now), TokenRoute::Invalid);
}

#[test]
fn token_text_is_344_url_safe_characters() {
    let t = Token::create("b@example.com");
    assert_eq!(t.b64_token.chars().count(), 344);
    assert!(t.b64_token.ends_with('='));
    assert!(!t.b64_token.contains('+') && !t.b64_token.contains('/'));
}
