use webpipe::outcome::{error_response, login, AppError};

#[test]
fn every_error_variant_maps_to_a_response() {
    let r = error_response(&AppError::Validation);
    assert_eq!((r.status, r.body.as_str()), (400, "Bad request"));

    let r = error_response(&AppError::Unauthorized);
    assert_eq!((r.status, r.body.as_str()), (401, "Invalid credentials"));

    let r = error_response(&AppError::NotFound(7));
    assert_eq!((r.status, r.body.as_str()), (404, "User 7 not found"));

    let r = error_response(&AppError::Unavailable);
    assert_eq!((r.status, r.body.as_str()), (503, "Database unavailable"));

    let r = error_response(&AppError::Internal);
    assert_eq!((r.status, r.body.as_str()), (500, "Internal server error"));
}

#[test]
fn login_success_only_for_the_accepted_pair() {
    let ok = login("admin", "password").expect("accepted pair");
    assert_eq!(ok.status, 200);
    assert_eq!(ok.body, "Logged in");

    assert!(login("password", "admin").is_err());
}

#[test]
fn login_failure_is_unauthorized() {
    let err = login("wrong", "wrong").err().expect("rejected pair");
    assert_eq!(err, AppError::Unauthorized);
    let resp = error_response(&err);
    assert_eq!(resp.status, 401);

    let err = login("admin", "wrong").err().expect("rejected pair");
    assert_eq!(err, AppError::Unauthorized);

    let err = login("", "").err().expect("rejected pair");
    assert_eq!(err, AppError::Unauthorized);
}
