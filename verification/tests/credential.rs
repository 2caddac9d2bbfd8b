use google_authenticator::GoogleAuthenticator;
use sec_authentication::credential::{AuthError, Credential, CredentialError};
use sec_authentication::time::Timestamp;

const SECRET: &str = "I3VFM3JKMNDJCDH5BMBEEQAW6KJ6NOE3";
const SLICE: u64 = 1523610659 / 30;

fn account(email: &str, secret: &str, two_fa: bool) -> Credential {
    let mut c = Credential::new(email, "Sup3r-secret pass").unwrap();
    c.google_authenticator_secret = secret.to_string();
    c.is_2fa_active = two_fa;
    c
}

#[test]
fn new_credential_has_fresh_secret_and_hash() {
    let c = Credential::new("alice@example.com", "hunter2 is weak").unwrap();
    assert_eq!(c.email, "alice@example.com");
    assert!(c.is_2fa_active);
    assert_eq!(c.google_authenticator_secret.chars().count(), 32);
    assert!(c
        .google_authenticator_secret
        .chars()
        .all(|ch| ch.is_ascii_uppercase() || ('2'..='7').contains(&ch)));
    assert_ne!(c.password_hash, "hunter2 is weak");
    let all = vec![c];
    assert!(Credential::is_verified_with_password(&all, "alice@example.com", "hunter2 is weak"));
    assert!(!Credential::is_verified_with_password(&all, "alice@example.com", "hunter3 is weak"));
}

#[test]
fn two_new_credentials_have_different_secrets_and_hashes() {
    let a = Credential::new("a@example.com", "same password").unwrap();
    let b = Credential::new("a@example.com", "same password").unwrap();
    assert_ne!(a.google_authenticator_secret, b.google_authenticator_secret);
    assert_ne!(a.password_hash, b.password_hash);
}

#[test]
fn unknown_email_is_not_verified() {
    let all = vec![account("a@example.com", SECRET, true)];
    assert!(!Credential::is_verified_with_password(&all, "b@example.com", "Sup3r-secret pass"));
    assert_eq!(Credential::try_verified_with_password(&all, "b@example.com", "x"), Some(false));
    assert!(!Credential::is_verified_with_2fa_at(&all, "b@example.com", "123456", SLICE));
}

#[test]
fn corrupt_hash_gives_no_verdict() {
    let mut c = account("a@example.com", SECRET, false);
    c.password_hash = "not base64 !".to_string();
    let mut d = account("b@example.com", SECRET, false);
    d.password_hash = "QUJD".to_string(); // decodes, but to 3 bytes
    let all = vec![c, d];
    assert_eq!(Credential::try_verified_with_password(&all, "a@example.com", "x"), None);
    assert_eq!(Credential::try_verified_with_password(&all, "b@example.com", "x"), None);
}

#[test]
fn two_fa_status_and_unknown_email() {
    let all = vec![account("a@example.com", SECRET, true), account("b@example.com", SECRET, false)];
    assert_eq!(Credential::is_2fa_active(&all, "a@example.com"), Ok(true));
    assert_eq!(Credential::is_2fa_active(&all, "b@example.com"), Ok(false));
    assert_eq!(Credential::is_2fa_active(&all, "c@example.com"), Err(AuthError::AuthenticationFailed));
    assert_eq!(AuthError::AuthenticationFailed.message(), "Authentication failed.");
}

#[test]
fn change_2fa_toggles_and_moves_to_end() {
    let mut all = vec![account("a@example.com", SECRET, true), account("b@example.com", SECRET, false)];
    Credential::change_2fa_in_db(&mut all, "a@example.com");
    assert_eq!(all[0].email, "b@example.com");
    assert_eq!(all[1].email, "a@example.com");
    assert!(!all[1].is_2fa_active);
    Credential::change_2fa_in_db(&mut all, "a@example.com");
    assert_eq!(Credential::is_2fa_active(&all, "a@example.com"), Ok(true));
}

#[test]
fn change_password_then_login() {
    let mut all = vec![account("a@example.com", SECRET, true), account("b@example.com", SECRET, false)];
    let secret_before = all[0].google_authenticator_secret.clone();
    Credential::change_password_in_db(&mut all, "a@example.com", "brand new pass").unwrap();
    assert_eq!(all.len(), 2);
    assert_eq!(all[1].email, "a@example.com");
    assert_eq!(all[1].google_authenticator_secret, secret_before);
    assert!(all[1].is_2fa_active);
    assert!(Credential::is_verified_with_password(&all, "a@example.com", "brand new pass"));
    assert!(!Credential::is_verified_with_password(&all, "a@example.com", "Sup3r-secret pass"));
    assert!(Credential::is_verified_with_password(&all, "b@example.com", "Sup3r-secret pass"));
}

#[test]
fn registration_then_login() {
    let mut all = vec![account("a@example.com", SECRET, false)];
    Credential::add_new_credential_in_db(&mut all, "new@example.com", "fresh password 9").unwrap();
    assert_eq!(all.len(), 2);
    assert_eq!(all[1].email, "new@example.com");
    assert_eq!(Credential::is_2fa_active(&all, "new@example.com"), Ok(true));
    assert!(Credential::is_verified_with_password(&all, "new@example.com", "fresh password 9"));
    assert!(Credential::email_in_use(&all, "new@example.com"));
    assert!(!Credential::email_in_use(&all, "other@example.com"));
}

#[test]
fn set_pass_hash_keeps_account() {
    let mut c = account("a@example.com", SECRET, true);
    c.set_pass_hash("another one").unwrap();
    assert_eq!(c.email, "a@example.com");
    assert_eq!(c.google_authenticator_secret, SECRET);
    let all = vec![c];
    assert!(Credential::is_verified_with_password(&all, "a@example.com", "another one"));
}

#[test]
fn second_factor_at_a_given_time() {
    let all = vec![account("a@example.com", SECRET, true)];
    let code = GoogleAuthenticator::new().get_code(SECRET, SLICE).unwrap();
    assert!(Credential::is_verified_with_2fa_at(&all, "a@example.com", &code, SLICE));
    // three slices either side are accepted, four are not
    assert!(Credential::is_verified_with_2fa_at(&all, "a@example.com", &code, SLICE + 3));
    let far = GoogleAuthenticator::new().get_code(SECRET, SLICE + 10).unwrap();
    if far != code {
        assert!(!Credential::is_verified_with_2fa_at(&all, "a@example.com", &far, SLICE));
    }
    // time slice 0 stands for the slice the clock reads, as in the authenticator
    let now_code = GoogleAuthenticator::new().get_code(SECRET, 0).unwrap();
    assert!(Credential::is_verified_with_2fa_at(&all, "a@example.com", &now_code, 0));
    assert!(!Credential::is_verified_with_2fa_at(&all, "a@example.com", "abcdef", 0));
    assert!(!Credential::is_verified_with_2fa_at(&all, "a@example.com", "12345", SLICE));
}

#[test]
fn second_factor_now() {
    let all = vec![account("a@example.com", SECRET, true)];
    let code = GoogleAuthenticator::new().get_code(SECRET, 0).unwrap();
    assert!(Credential::is_verified_with_2fa(&all, "a@example.com", &code));
    assert!(!Credential::is_verified_with_2fa(&all, "a@example.com", "abcdef"));
}

#[test]
fn login_with_and_without_second_factor() {
    let all = vec![account("a@example.com", SECRET, true), account("b@example.com", SECRET, false)];
    let code = GoogleAuthenticator::new().get_code(SECRET, SLICE).unwrap();
    let pass = "Sup3r-secret pass";
    assert_eq!(Credential::check_login_at(&all, "a@example.com", pass, &code, SLICE), Some(true));
    assert_eq!(Credential::check_login_at(&all, "a@example.com", "wrong", &code, SLICE), Some(false));
    assert_eq!(Credential::check_login_at(&all, "a@example.com", pass, "000000x", SLICE), Some(false));
    assert_eq!(Credential::check_login_at(&all, "b@example.com", pass, "", SLICE), Some(true));
    assert_eq!(Credential::check_login_at(&all, "c@example.com", pass, "", SLICE), Some(false));
    let now_code = GoogleAuthenticator::new().get_code(SECRET, 0).unwrap();
    assert_eq!(Credential::check_login(&all, "a@example.com", pass, &now_code), Some(true));
    assert_eq!(Credential::check_login(&all, "a@example.com", pass, "abcdef"), Some(false));
    assert_eq!(Credential::check_login_at(&all, "a@example.com", pass, &now_code, 0), Some(true));
}

#[test]
fn qr_code_url_matches_the_authenticator() {
    let c = account("a@example.com", SECRET, true);
    let expected = GoogleAuthenticator::new().qr_code_url(
        SECRET,
        "CoolWebsite",
        "2FA",
        0,
        0,
        google_authenticator::ErrorCorrectionLevel::Medium,
    );
    assert_eq!(c.qr_code_url(), expected);
    assert!(c.qr_code_url().contains(SECRET));
    assert!(c.two_fa_mail_message().ends_with(&expected));
}

#[test]
fn time_slice_of_a_timestamp() {
    assert_eq!(Credential::time_slice(&Timestamp { secs: 1523610659, nanos: 0 }), SLICE);
    assert_eq!(Credential::time_slice(&Timestamp { secs: 29, nanos: 5 }), 0);
}

#[test]
fn position_of_finds_first() {
    let all = vec![
        account("a@example.com", SECRET, true),
        account("b@example.com", SECRET, false),
        account("b@example.com", SECRET, true),
    ];
    assert_eq!(Credential::position_of(&all, "b@example.com"), Some(1));
    assert_eq!(Credential::position_of(&all, "z@example.com"), None);
}

#[test]
fn hash_text_for_each_hashing_outcome() {
    assert_eq!(Credential::hash_text_from(Some(vec![1, 2, 3])), Ok("AQID".to_string()));
    assert_eq!(Credential::hash_text_from(Some(vec![0xfb, 0xff])), Ok("-_8=".to_string()));
    assert_eq!(Credential::hash_text_from(None), Err(CredentialError::HashingFailed));
}
