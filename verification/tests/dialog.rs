use sec_authentication::credential::{AuthError, Credential};
use sec_authentication::dialog::{
    is_valid_choice, login_start, login_step, new_password_start, new_password_step, new_password_step_scored, reset_gate_step, LoginAction,
    LoginEvent, LoginState, NewPasswordAction, NewPasswordState, PasswordPurpose,
    ResetGateAction, ResetGateEvent, ResetGateState,
};
use sec_authentication::routing::{plan_password_reset_request, plan_registration_request, TokenRequestPlan};

fn entered(s: &str) -> LoginEvent {
    LoginEvent::Entered(s.to_string())
}

#[test]
fn login_dialog_with_second_factor() {
    let (s, a) = login_start();
    assert!(matches!(s, LoginState::AskEmail));
    assert!(matches!(a, LoginAction::Prompt("Please enter an email address: ")));
    let (s, a) = login_step(s, entered("not an email"));
    assert!(matches!(a, LoginAction::Complain("Your email is not a real email address.", "Please enter an email address: ")));
    let (s, a) = login_step(s, entered("a@example.com"));
    assert!(matches!(a, LoginAction::Prompt("Please enter a password: ")));
    let (s, a) = login_step(s, entered(&"x".repeat(65)));
    assert!(matches!(a, LoginAction::Complain("password too long.", "Please enter a password: ")));
    let (s, a) = login_step(s, entered("pass"));
    match &a {
        LoginAction::LookUpTwoFactor(e) => assert_eq!(e, "a@example.com"),
        other => panic!("unexpected {:?}", other),
    }
    let (s, a) = login_step(s, LoginEvent::TwoFactorStatus(Ok(true)));
    assert!(matches!(a, LoginAction::Prompt("Please enter a google auth token: ")));
    let (s, a) = login_step(s, entered("1234567"));
    assert!(matches!(a, LoginAction::Complain("token too long.", _)));
    let (s, a) = login_step(s, entered("123456"));
    assert!(matches!(s, LoginState::Finished));
    match a {
        LoginAction::Verify { email, password, code } => {
            assert_eq!(email, "a@example.com");
            assert_eq!(password, "pass");
            assert_eq!(code, Some("123456".to_string()));
        }
        other => panic!("unexpected {:?}", other),
    }
}

#[test]
fn login_dialog_without_second_factor_and_unknown_account() {
    let (s, _) = login_start();
    let (s, _) = login_step(s, entered("a@example.com"));
    let (s, _) = login_step(s, entered("pass"));
    let (_, a) = login_step(s, LoginEvent::TwoFactorStatus(Ok(false)));
    assert!(matches!(a, LoginAction::Verify { code: None, .. }));

    let (s, _) = login_start();
    let (s, _) = login_step(s, entered("a@example.com"));
    let (s, _) = login_step(s, entered("pass"));
    let (_, a) = login_step(s, LoginEvent::TwoFactorStatus(Err(AuthError::AuthenticationFailed)));
    assert!(matches!(a, LoginAction::Refuse(AuthError::AuthenticationFailed)));

    let (s, _) = login_start();
    let (_, a) = login_step(s, LoginEvent::TwoFactorStatus(Ok(true)));
    assert!(matches!(a, LoginAction::Ignore));
}

#[test]
fn new_password_dialog_reset() {
    let p = PasswordPurpose::Reset;
    let (s, a) = new_password_start(p);
    assert!(matches!(a, NewPasswordAction::Prompt("Please enter your new password: ")));
    let (s, a) = new_password_step(p, s, "password".to_string());
    assert!(matches!(a, NewPasswordAction::Prompt("Please confirm your new password: ")));
    let (s, a) = new_password_step(p, s, "password".to_string());
    assert!(matches!(a, NewPasswordAction::Complain("password is too weak.", "Please enter your new password: ")));
    let (s, _) = new_password_step(p, s, "correct horse battery staple 42!".to_string());
    let (s, a) = new_password_step(p, s, "correct horse battery staple 43!".to_string());
    assert!(matches!(a, NewPasswordAction::Complain("passwords dont match.", _)));
    let (s, _) = new_password_step(p, s, "correct horse battery staple 42!".to_string());
    let (s, a) = new_password_step(p, s, "correct horse battery staple 42!".to_string());
    assert!(matches!(s, NewPasswordState::Finished));
    match a {
        NewPasswordAction::Accept(pw) => assert_eq!(pw, "correct horse battery staple 42!"),
        other => panic!("unexpected {:?}", other),
    }
}

#[test]
fn new_password_dialog_registration_texts() {
    let p = PasswordPurpose::Registration;
    let (s, a) = new_password_start(p);
    assert!(matches!(a, NewPasswordAction::Prompt("Please enter a password: ")));
    let (s, a) = new_password_step(p, s, "x".repeat(65));
    assert!(matches!(a, NewPasswordAction::Prompt("Please confirm your password: ")));
    let (s, a) = new_password_step(p, s, "y".to_string());
    assert!(matches!(a, NewPasswordAction::Complain("one or both entries are too long", "Please enter a password: ")));
    let (s, _) = new_password_step(p, s, "a".to_string());
    let (s, a) = new_password_step(p, s, "b".to_string());
    assert!(matches!(a, NewPasswordAction::Complain("passwords dont match", _)));
    let (s, _) = new_password_step(p, s, String::new());
    let (_, a) = new_password_step(p, s, String::new());
    assert!(matches!(a, NewPasswordAction::Blank));
}

#[test]
fn reset_gate_paths() {
    let (_, a) = reset_gate_step(ResetGateState::AwaitTwoFactor, ResetGateEvent::TwoFactorStatus(Ok(false)));
    assert!(matches!(a, ResetGateAction::Proceed));
    let (_, a) = reset_gate_step(
        ResetGateState::AwaitTwoFactor,
        ResetGateEvent::TwoFactorStatus(Err(AuthError::AuthenticationFailed)),
    );
    assert!(matches!(a, ResetGateAction::Fail(AuthError::AuthenticationFailed)));
    let (s, a) = reset_gate_step(ResetGateState::AwaitTwoFactor, ResetGateEvent::TwoFactorStatus(Ok(true)));
    assert!(matches!(a, ResetGateAction::Prompt("Please enter a google auth token: ")));
    let (s, a) = reset_gate_step(s, ResetGateEvent::Entered("12345678".to_string()));
    assert!(matches!(a, ResetGateAction::Complain("token too long.", _)));
    let (s, a) = reset_gate_step(s, ResetGateEvent::Entered("123456".to_string()));
    assert!(matches!(&a, ResetGateAction::VerifyCode(c) if c == "123456"));
    let (_, a) = reset_gate_step(s, ResetGateEvent::CodeVerdict(false));
    assert!(matches!(a, ResetGateAction::Reject("Invalid google auth, password reset rejected.")));
    let (_, a) = reset_gate_step(ResetGateState::AwaitVerdict, ResetGateEvent::CodeVerdict(true));
    assert!(matches!(a, ResetGateAction::Proceed));
    let (_, a) = reset_gate_step(ResetGateState::AskCode, ResetGateEvent::CodeVerdict(true));
    assert!(matches!(a, ResetGateAction::Ignore));
}

#[test]
fn token_request_plans() {
    let creds = vec![Credential::new("known@example.com", "pass word 1").unwrap()];
    assert_eq!(plan_registration_request(&creds, "nope"), TokenRequestPlan::NotAnEmail("Not an email address"));
    assert_eq!(plan_registration_request(&creds, "known@example.com"), TokenRequestPlan::MailOnly);
    assert_eq!(plan_registration_request(&creds, "new@example.com"), TokenRequestPlan::TokenAndMail);
    assert_eq!(plan_password_reset_request(&creds, "nope"), TokenRequestPlan::NotAnEmail("Not an email address."));
    assert_eq!(plan_password_reset_request(&creds, "known@example.com"), TokenRequestPlan::TokenAndMail);
    assert_eq!(plan_password_reset_request(&creds, "new@example.com"), TokenRequestPlan::TokenOnly);
}

#[test]
fn menu_choices_count_from_one() {
    assert!(is_valid_choice(1, 5));
    assert!(is_valid_choice(5, 5));
    assert!(!is_valid_choice(0, 5));
    assert!(!is_valid_choice(6, 5));
}

#[test]
fn new_password_step_for_each_score() {
    let p = PasswordPurpose::Registration;
    let confirm = |pw: &str| NewPasswordState::AskConfirmation { password: pw.to_string() };
    let (s, a) = new_password_step_scored(p, confirm("pw"), "pw".to_string(), Some(3));
    assert!(matches!(s, NewPasswordState::Finished));
    assert!(matches!(a, NewPasswordAction::Accept(ref x) if x == "pw"));
    let (s, a) = new_password_step_scored(p, confirm("pw"), "pw".to_string(), Some(2));
    assert!(matches!(s, NewPasswordState::AskPassword));
    assert!(matches!(a, NewPasswordAction::Complain("password is too weak", "Please enter a password: ")));
    let (_, a) = new_password_step_scored(p, confirm("pw"), "pw".to_string(), None);
    assert!(matches!(a, NewPasswordAction::Unscorable));
    let (_, a) = new_password_step_scored(p, confirm("pw"), "px".to_string(), Some(4));
    assert!(matches!(a, NewPasswordAction::Complain("passwords dont match", _)));
    let (s, a) = new_password_step_scored(p, NewPasswordState::AskPassword, "pw".to_string(), None);
    assert!(matches!(s, NewPasswordState::AskConfirmation { .. }));
    assert!(matches!(a, NewPasswordAction::Prompt("Please confirm your password: ")));
}
