use sec_authentication::password::{
    check_new_password, classify_new_password, is_code_length_ok, is_password_length_ok, NewPasswordCheck,
};

#[test]
fn password_length_limit_is_64_bytes() {
    assert!(is_password_length_ok(&"a".repeat(64)));
    assert!(!is_password_length_ok(&"a".repeat(65)));
    // 33 two-byte characters: 66 bytes
    assert!(!is_password_length_ok(&"é".repeat(33)));
}

#[test]
fn code_length_limit_is_6_bytes() {
    assert!(is_code_length_ok("123456"));
    assert!(is_code_length_ok(""));
    assert!(!is_code_length_ok("1234567"));
}

#[test]
fn new_password_too_long() {
    let long = "a".repeat(65);
    assert_eq!(check_new_password(&long, &long), NewPasswordCheck::TooLong);
    assert_eq!(check_new_password("short", &long), NewPasswordCheck::TooLong);
}

#[test]
fn new_password_mismatch() {
    assert_eq!(
        check_new_password("Tr0ub4dor&3-horse", "Tr0ub4dor&3-horsE"),
        NewPasswordCheck::Mismatch
    );
    assert_eq!(check_new_password("", "x"), NewPasswordCheck::Mismatch);
}

#[test]
fn new_password_too_weak() {
    assert_eq!(check_new_password("password", "password"), NewPasswordCheck::TooWeak);
    assert_eq!(check_new_password("123456", "123456"), NewPasswordCheck::TooWeak);
}

#[test]
fn new_password_accepted() {
    let strong = "correct horse battery staple 42!";
    assert_eq!(check_new_password(strong, strong), NewPasswordCheck::Accepted);
}

#[test]
fn classify_new_password_for_each_score() {
    let p = "some password";
    assert_eq!(classify_new_password(p, p, Some(2)), NewPasswordCheck::TooWeak);
    assert_eq!(classify_new_password(p, p, Some(3)), NewPasswordCheck::Accepted);
    assert_eq!(classify_new_password(p, p, Some(4)), NewPasswordCheck::Accepted);
    assert_eq!(classify_new_password(p, p, None), NewPasswordCheck::Unscored);
    assert_eq!(classify_new_password(p, "other", Some(4)), NewPasswordCheck::Mismatch);
    assert_eq!(classify_new_password(&"a".repeat(65), p, Some(4)), NewPasswordCheck::TooLong);
}
