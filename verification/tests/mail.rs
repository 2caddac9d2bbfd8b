use sec_authentication::mail::{
    compose_mail, is_email_valid, password_reset_message, password_reset_subject,
    registration_message, registration_subject, two_fa_mail_message, two_fa_mail_subject,
};

#[test]
fn email_valid_examples() {
    assert!(is_email_valid("alice@example.com"));
    assert!(is_email_valid("a.b-c+d_e%f@mail.example.org"));
    assert!(is_email_valid("x@y.ch"));
}

#[test]
fn email_invalid_examples() {
    assert!(!is_email_valid(""));
    assert!(!is_email_valid("alice"));
    assert!(!is_email_valid("@example.com"));
    assert!(!is_email_valid("alice@.com"));
    assert!(!is_email_valid("alice@example.c"));
    assert!(!is_email_valid("alice@example"));
    assert!(!is_email_valid("a@b@example.com"));
    assert!(!is_email_valid("alice@example.c0m"));
    assert!(!is_email_valid("al ice@example.com"));
    assert!(!is_email_valid("alice@exa_mple.com"));
}

#[test]
fn compose_mail_layout() {
    let m = compose_mail("2021-05-01 10:00:00 UTC", "bob@example.com", "Hello", "Body\ntext");
    assert_eq!(
        m,
        "Date: 2021-05-01 10:00:00 UTC\nFrom: no-reply@coolwebsite.com\nTo: bob@example.com\nObject: Hello\nMessage:\nBody\ntext"
    );
}

#[test]
fn registration_mails() {
    assert_eq!(registration_subject(), "Registration to CoolWebsite");
    assert_eq!(registration_message(Some("TOK")), "Here is your token:\nTOK");
    assert_eq!(
        registration_message(None),
        "You are already registered\nIf this message wasn't expected, please ignore it."
    );
}

#[test]
fn password_reset_mails() {
    assert_eq!(password_reset_subject(), "Password reset to CoolWebsite");
    assert_eq!(
        password_reset_message("TOK"),
        "Here is your password reset token.\nIf this mail wasn't expected, please ignore it.\nTOK"
    );
}

#[test]
fn two_fa_mails() {
    assert_eq!(two_fa_mail_subject(), "Your 2fa qr code");
    assert!(two_fa_mail_message("URL").starts_with("Here is your qr code link for 2FA.\n"));
    assert!(two_fa_mail_message("URL").ends_with("other devices\nURL"));
}
