use us_stock_api::error::{is_server_error, Error, FieldErrors, JsonRejectionKind};

fn s(x: &str) -> String {
    x.to_string()
}

fn plain(e: Error) -> (u16, String, String) {
    let (status, body) = e.into_response();
    assert!(body.details.is_none());
    (status, body.error, body.message)
}

#[test]
fn bad_request_response() {
    assert_eq!(plain(Error::BadRequest(s("no"))), (400, s("Bad Request"), s("no")));
}

#[test]
fn unauthorized_response() {
    assert_eq!(plain(Error::Unauthorized(s("Invalid token"))), (401, s("Unauthorized"), s("Invalid token")));
}

#[test]
fn server_error_responses_hide_the_cause() {
    let cases = vec![
        (Error::Io(s("disk on fire")), "I/O error"),
        (Error::EnvVar(s("missing")), "Environment variable error"),
        (Error::Sqlx(s("boom")), "Database error"),
        (Error::SeaOrm(s("boom")), "SeaORM error"),
        (Error::AxumHttp(s("boom")), "Axum HTTP error"),
        (Error::Prometheus(s("boom")), "Prometheus error"),
        (Error::InternalServer { source: s("secret detail") }, "Something went wrong"),
    ];
    for (e, message) in cases {
        let (status, error, msg) = plain(e);
        assert_eq!(status, 500);
        assert_eq!(error, "Internal Server Error");
        assert_eq!(msg, message);
        assert!(!msg.contains("boom") && !msg.contains("secret"));
    }
}

#[test]
fn validation_response_lists_fields() {
    let e = Error::Validation {
        errors: vec![
            FieldErrors { field: s("sector"), messages: vec![Some(s("too long")), None, Some(s("bad char"))] },
            FieldErrors { field: s("industry"), messages: vec![None] },
        ],
    };
    let (status, body) = e.into_response();
    assert_eq!(status, 400);
    assert_eq!(body.error, "Validation Error");
    assert_eq!(body.message, "Invalid input data");
    let details = body.details.unwrap();
    assert_eq!(details.len(), 2);
    assert_eq!(details[0].field, "sector");
    assert_eq!(details[0].message, "too long, bad char");
    assert_eq!(details[1].field, "industry");
    assert_eq!(details[1].message, "");
}

#[test]
fn validation_without_fields() {
    let (status, body) = Error::Validation { errors: vec![] }.into_response();
    assert_eq!(status, 400);
    assert_eq!(body.details.unwrap().len(), 0);
}

#[test]
fn display_of_each_error() {
    assert_eq!(Error::EnvVar(s("x")).to_string(), "Environment variable error: x");
    assert_eq!(Error::Io(s("x")).to_string(), "IO error: x");
    assert_eq!(Error::Sqlx(s("x")).to_string(), "Sqlx error: x");
    assert_eq!(Error::SeaOrm(s("x")).to_string(), "SeaORM error: x");
    assert_eq!(Error::AxumHttp(s("x")).to_string(), "Axum HTTP error: x");
    assert_eq!(Error::Prometheus(s("x")).to_string(), "Prometheus error: x");
    assert_eq!(Error::BadRequest(s("x")).to_string(), "Bad request: x");
    assert_eq!(Error::Unauthorized(s("x")).to_string(), "Unauthorized: x");
    assert_eq!(Error::Validation { errors: vec![] }.to_string(), "Validation error");
    assert_eq!(Error::InternalServer { source: s("x") }.to_string(), "Internal server error");
}

#[test]
fn json_rejections_become_bad_requests() {
    let m = |k| match Error::from_json_rejection(k) {
        Error::BadRequest(m) => m,
        _ => panic!("not a bad request"),
    };
    assert_eq!(m(JsonRejectionKind::MissingJsonContentType), "Missing JSON content type");
    assert_eq!(m(JsonRejectionKind::JsonSyntaxError), "Invalid JSON syntax");
    assert_eq!(m(JsonRejectionKind::Other), "Invalid request");
}

#[test]
fn server_error_range() {
    assert!(!is_server_error(499));
    assert!(is_server_error(500));
    assert!(is_server_error(599));
    assert!(!is_server_error(600));
    assert!(!is_server_error(401));
}
