use giss::api::ApiError;
use giss::AppErr;

#[test]
fn only_status_200_is_read() {
    assert!(matches!(ApiError::check_status(200), Ok(())));
    assert!(matches!(ApiError::check_status(201), Err(ApiError::Response(201))));
    assert!(matches!(ApiError::check_status(404), Err(ApiError::Response(404))));
    assert!(matches!(ApiError::check_status(429), Err(ApiError::Response(429))));
    assert!(matches!(ApiError::check_status(0), Err(ApiError::Response(0))));
}

#[test]
fn a_failure_holds_its_status_or_its_text() {
    assert!(matches!(
        ApiError::from_failure(Some(502), String::from("bad gateway")),
        ApiError::Response(502)
    ));
    match ApiError::from_failure(None, String::from("connection refused")) {
        ApiError::NoResponse(message) => assert_eq!(message, "connection refused"),
        other => panic!("unexpected {:?}", other),
    }
}

#[test]
fn too_many_requests_are_told_from_other_failures() {
    assert!(matches!(AppErr::from(ApiError::Response(429)), AppErr::RateLimited));
    assert!(matches!(AppErr::from(ApiError::Response(500)), AppErr::ApiError));
    assert!(matches!(AppErr::from(ApiError::Response(401)), AppErr::ApiError));
    assert!(matches!(AppErr::from(ApiError::NoResponse(String::from("x"))), AppErr::ApiError));
}
