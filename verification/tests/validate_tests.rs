use webpipe::num::{parse_u64, u64_to_string};
use webpipe::validate::{
    registration_response, validate_registration, FieldViolation, Registration,
};

fn reg(username: &str, email: &str, password: &str, confirmation: &str) -> Registration {
    Registration {
        username: username.to_string(),
        email: email.to_string(),
        password: password.to_string(),
        password_confirmation: confirmation.to_string(),
    }
}

fn good() -> Registration {
    reg("larry", "larry@example.com", "Passw0rd", "Passw0rd")
}

#[test]
fn valid_registration_created() {
    let resp = registration_response(&good());
    assert_eq!(resp.status, 201);
    assert_eq!(resp.body, "User created");
    assert!(validate_registration(&good()).is_empty());
}

#[test]
fn aggregates_username_and_email_violations() {
    let bad = reg("abc", "no-at-sign", "Passw0rd", "Passw0rd");
    let vs = validate_registration(&bad);
    assert_eq!(
        vs,
        vec![FieldViolation::UsernameLength, FieldViolation::EmailFormat]
    );
    let resp = registration_response(&bad);
    assert_eq!(resp.status, 400);
    assert!(resp.body.starts_with("Validation errors: "));
    assert!(resp.body.contains("username: length must be between 4 and 20"));
    assert!(resp.body.contains("email: not a valid address"));
}

#[test]
fn each_violation_has_an_input() {
    let vs = validate_registration(&reg("abc", "a@b.c", "Passw0rd", "Passw0rd"));
    assert_eq!(vs, vec![FieldViolation::UsernameLength]);

    let long = "x".repeat(21);
    let vs = validate_registration(&reg(&long, "a@b.c", "Passw0rd", "Passw0rd"));
    assert_eq!(vs, vec![FieldViolation::UsernameLength]);

    let vs = validate_registration(&reg("larry", "@host", "Passw0rd", "Passw0rd"));
    assert_eq!(vs, vec![FieldViolation::EmailFormat]);

    let vs = validate_registration(&reg("larry", "user@", "Passw0rd", "Passw0rd"));
    assert_eq!(vs, vec![FieldViolation::EmailFormat]);

    let vs = validate_registration(&reg("larry", "a@b.c", "Pw0rd", "Pw0rd"));
    assert_eq!(vs, vec![FieldViolation::PasswordLength]);

    let vs = validate_registration(&reg("larry", "a@b.c", "password1", "password1"));
    assert_eq!(vs, vec![FieldViolation::PasswordWeak]);

    let vs = validate_registration(&reg("larry", "a@b.c", "PASSWORD1", "PASSWORD1"));
    assert_eq!(vs, vec![FieldViolation::PasswordWeak]);

    let vs = validate_registration(&reg("larry", "a@b.c", "Passwords", "Passwords"));
    assert_eq!(vs, vec![FieldViolation::PasswordWeak]);

    let vs = validate_registration(&reg("larry", "a@b.c", "Passw0rd", "Passw0rd2"));
    assert_eq!(vs, vec![FieldViolation::PasswordMismatch]);
}

#[test]
fn everything_wrong_reports_everything() {
    let vs = validate_registration(&reg("ab", "bogus", "pw", "other"));
    assert_eq!(
        vs,
        vec![
            FieldViolation::UsernameLength,
            FieldViolation::EmailFormat,
            FieldViolation::PasswordLength,
            FieldViolation::PasswordWeak,
            FieldViolation::PasswordMismatch,
        ]
    );
    let resp = registration_response(&reg("ab", "bogus", "pw", "other"));
    assert_eq!(resp.status, 400);
    let semicolons = resp.body.matches("; ").count();
    assert_eq!(semicolons, 4);
}

#[test]
fn decimal_rendering_exact() {
    assert_eq!(u64_to_string(0), "0");
    assert_eq!(u64_to_string(7), "7");
    assert_eq!(u64_to_string(10), "10");
    assert_eq!(u64_to_string(1234567890), "1234567890");
    assert_eq!(u64_to_string(u64::MAX), "18446744073709551615");
}

#[test]
fn decimal_parsing_exact() {
    assert_eq!(parse_u64("0"), Some(0));
    assert_eq!(parse_u64("42"), Some(42));
    assert_eq!(parse_u64("007"), Some(7));
    assert_eq!(parse_u64("18446744073709551615"), Some(u64::MAX));
    assert_eq!(parse_u64("18446744073709551616"), None);
    assert_eq!(parse_u64(""), None);
    assert_eq!(parse_u64("abc"), None);
    assert_eq!(parse_u64("-1"), None);
    assert_eq!(parse_u64("1 2"), None);
    assert_eq!(parse_u64("4.2"), None);
}

#[test]
fn rendering_then_parsing_round_trips() {
    for n in [0u64, 1, 9, 10, 99, 100, 4096, u64::MAX - 1, u64::MAX] {
        assert_eq!(parse_u64(&u64_to_string(n)), Some(n));
    }
}
