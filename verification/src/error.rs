//! The errors of the service, what each is called when displayed, and the
//! HTTP answer that each one gets.
use vstd::prelude::*;

use crate::text::{join, join_present, present_texts};

verus! {

/// The validation failures of one input field: for each failed rule, its
/// message if it has one.
#[derive(Debug, Clone)]
pub struct FieldErrors {
    pub field: String,
    pub messages: Vec<Option<String>>,
}

/// The errors of the service. The variants that wrap a failure of another
/// component hold that failure's description.
#[derive(Debug, Clone)]
pub enum Error {
    EnvVar(String),
    Io(String),
    Sqlx(String),
    SeaOrm(String),
    AxumHttp(String),
    Prometheus(String),
    BadRequest(String),
    Unauthorized(String),
    Validation { errors: Vec<FieldErrors> },
    InternalServer { source: String },
}

/// One entry of the `details` of a validation error response.
#[derive(Debug)]
pub struct ValidationErrorDetail {
    pub field: String,
    pub message: String,
}

/// The JSON body of an error response.
#[derive(Debug)]
pub struct ErrorResponse {
    pub error: String,
    pub message: String,
    pub details: Option<Vec<ValidationErrorDetail>>,
}

/// The content of an error response body.
pub struct ErrorResponseView {
    pub error: Seq<char>,
    pub message: Seq<char>,
    pub details: Option<Seq<(Seq<char>, Seq<char>)>>,
}

pub open spec fn detail_view(d: ValidationErrorDetail) -> (Seq<char>, Seq<char>) {
    (d.field@, d.message@)
}

impl View for ErrorResponse {
    type V = ErrorResponseView;

    open spec fn view(&self) -> ErrorResponseView {
        ErrorResponseView {
            error: self.error@,
            message: self.message@,
            details: match self.details {
                Some(ds) => Some(ds@.map_values(|d: ValidationErrorDetail| detail_view(d))),
                None => None,
            },
        }
    }
}

/// The detail reported for one field: its name, and the messages of its
/// failed rules that have one, separated by `", "`.
pub open spec fn field_detail(f: FieldErrors) -> (Seq<char>, Seq<char>) {
    (f.field@, join(present_texts(f.messages@), ", "@))
}

pub open spec fn body(error: Seq<char>, message: Seq<char>) -> ErrorResponseView {
    ErrorResponseView { error, message, details: None }
}

pub open spec fn internal(message: Seq<char>) -> (u16, ErrorResponseView) {
    (500, body("Internal Server Error"@, message))
}

/// The status code and the body of the response to an error. Client
/// errors repeat what the client did wrong; server errors say only which
/// component failed, never the failure's own description.
pub open spec fn response_of(e: Error) -> (u16, ErrorResponseView) {
    match e {
        Error::BadRequest(msg) => (400, body("Bad Request"@, msg@)),
        Error::Io(_) => internal("I/O error"@),
        Error::Validation { errors } => (
            400,
            ErrorResponseView {
                error: "Validation Error"@,
                message: "Invalid input data"@,
                details: Some(errors@.map_values(|f: FieldErrors| field_detail(f))),
            },
        ),
        Error::InternalServer { .. } => internal("Something went wrong"@),
        Error::EnvVar(_) => internal("Environment variable error"@),
        Error::Sqlx(_) => internal("Database error"@),
        Error::SeaOrm(_) => internal("SeaORM error"@),
        Error::AxumHttp(_) => internal("Axum HTTP error"@),
        Error::Prometheus(_) => internal("Prometheus error"@),
        Error::Unauthorized(msg) => (401, body("Unauthorized"@, msg@)),
    }
}

/// How an error reads when displayed.
pub open spec fn display_of(e: Error) -> Seq<char> {
    match e {
        Error::EnvVar(d) => "Environment variable error: "@ + d@,
        Error::Io(d) => "IO error: "@ + d@,
        Error::Sqlx(d) => "Sqlx error: "@ + d@,
        Error::SeaOrm(d) => "SeaORM error: "@ + d@,
        Error::AxumHttp(d) => "Axum HTTP error: "@ + d@,
        Error::Prometheus(d) => "Prometheus error: "@ + d@,
        Error::BadRequest(d) => "Bad request: "@ + d@,
        Error::Unauthorized(d) => "Unauthorized: "@ + d@,
        Error::Validation { .. } => "Validation error"@,
        Error::InternalServer { .. } => "Internal server error"@,
    }
}

/// Whether a status code is a server error (5xx).
pub open spec fn spec_is_server_error(status: u16) -> bool {
    500 <= status && status <= 599
}

/// Whether a status code is a server error (5xx).
pub fn is_server_error(status: u16) -> (b: bool)
    ensures
        b == spec_is_server_error(status),
{
    500 <= status && status <= 599
}

/// The ways in which a JSON request body can be refused.
#[derive(Debug, Clone)]
pub enum JsonRejectionKind {
    MissingJsonContentType,
    JsonSyntaxError,
    Other,
}

/// The message of the bad-request error that a refused JSON body becomes.
pub open spec fn json_rejection_message(kind: JsonRejectionKind) -> Seq<char> {
    match kind {
        JsonRejectionKind::MissingJsonContentType => "Missing JSON content type"@,
        JsonRejectionKind::JsonSyntaxError => "Invalid JSON syntax"@,
        JsonRejectionKind::Other => "Invalid request"@,
    }
}

fn text(s: &str) -> (r: String)
    ensures
        r@ == s@,
{
    String::from_str(s)
}

fn prefixed(prefix: &str, d: &String) -> (r: String)
    ensures
        r@ == prefix@ + d@,
{
    String::from_str(prefix).concat(d.as_str())
}

fn internal_response(message: &str) -> (r: (u16, ErrorResponse))
    ensures
        r.0 == internal(message@).0,
        r.1@ == internal(message@).1,
{
    (500, ErrorResponse { error: text("Internal Server Error"), message: text(message), details: None })
}

impl Error {
    /// A request whose JSON body was refused is a bad request.
    pub fn from_json_rejection(kind: JsonRejectionKind) -> (e: Error)
        ensures
            e matches Error::BadRequest(m) && m@ == json_rejection_message(kind),
    {
        let msg = match kind {
            JsonRejectionKind::MissingJsonContentType => text("Missing JSON content type"),
            JsonRejectionKind::JsonSyntaxError => text("Invalid JSON syntax"),
            JsonRejectionKind::Other => text("Invalid request"),
        };
        Error::BadRequest(msg)
    }

    /// How the error reads when displayed.
    pub fn to_string(&self) -> (s: String)
        ensures
            s@ == display_of(*self),
    {
        match self {
            Error::EnvVar(d) => prefixed("Environment variable error: ", d),
            Error::Io(d) => prefixed("IO error: ", d),
            Error::Sqlx(d) => prefixed("Sqlx error: ", d),
            Error::SeaOrm(d) => prefixed("SeaORM error: ", d),
            Error::AxumHttp(d) => prefixed("Axum HTTP error: ", d),
            Error::Prometheus(d) => prefixed("Prometheus error: ", d),
            Error::BadRequest(d) => prefixed("Bad request: ", d),
            Error::Unauthorized(d) => prefixed("Unauthorized: ", d),
            Error::Validation { .. } => text("Validation error"),
            Error::InternalServer { .. } => text("Internal server error"),
        }
    }

    /// The status code and JSON body of the response to this error.
    pub fn into_response(self) -> (r: (u16, ErrorResponse))
        ensures
            r.0 == response_of(self).0,
            r.1@ == response_of(self).1,
    {
        match self {
            Error::BadRequest(msg) => (
                400,
                ErrorResponse { error: text("Bad Request"), message: msg, details: None },
            ),
            Error::Io(_) => internal_response("I/O error"),
            Error::Validation { errors } => {
                let details = validation_details(&errors);
                (
                    400,
                    ErrorResponse {
                        error: text("Validation Error"),
                        message: text("Invalid input data"),
                        details: Some(details),
                    },
                )
            },
            Error::InternalServer { .. } => internal_response("Something went wrong"),
            Error::EnvVar(_) => internal_response("Environment variable error"),
            Error::Sqlx(_) => internal_response("Database error"),
            Error::SeaOrm(_) => internal_response("SeaORM error"),
            Error::AxumHttp(_) => internal_response("Axum HTTP error"),
            Error::Prometheus(_) => internal_response("Prometheus error"),
            Error::Unauthorized(msg) => (
                401,
                ErrorResponse { error: text("Unauthorized"), message: msg, details: None },
            ),
        }
    }
}

/// One detail per invalid field, in the order of the fields.
fn validation_details(errors: &Vec<FieldErrors>) -> (ds: Vec<ValidationErrorDetail>)
    ensures
        ds@.map_values(|d: ValidationErrorDetail| detail_view(d))
            == errors@.map_values(|f: FieldErrors| field_detail(f)),
{
    let mut ds: Vec<ValidationErrorDetail> = Vec::new();
    let mut i: usize = 0;
    while i < errors.len()
        invariant
            i <= errors.len(),
            ds@.len() == i,
            forall|k: int| 0 <= k < i ==> detail_view(#[trigger] ds@[k]) == field_detail(errors@[k]),
        decreases errors.len() - i,
    {
        let f = &errors[i];
        let message = join_present(&f.messages, ", ");
        ds.push(ValidationErrorDetail { field: f.field.clone(), message });
        i = i + 1;
    }
    assert(ds@.map_values(|d: ValidationErrorDetail| detail_view(d))
        =~= errors@.map_values(|f: FieldErrors| field_detail(f)));
    ds
}

/// Two errors of the same variant, whatever they carry.
pub open spec fn same_variant(e1: Error, e2: Error) -> bool {
    ||| e1 is EnvVar && e2 is EnvVar
    ||| e1 is Io && e2 is Io
    ||| e1 is Sqlx && e2 is Sqlx
    ||| e1 is SeaOrm && e2 is SeaOrm
    ||| e1 is AxumHttp && e2 is AxumHttp
    ||| e1 is Prometheus && e2 is Prometheus
    ||| e1 is BadRequest && e2 is BadRequest
    ||| e1 is Unauthorized && e2 is Unauthorized
    ||| e1 is Validation && e2 is Validation
    ||| e1 is InternalServer && e2 is InternalServer
}

/// A server error exposes nothing of the failure it wraps: two errors of the
/// same variant whose response is a server error get the same response.
pub proof fn lemma_server_error_hides_cause(e1: Error, e2: Error)
    requires
        same_variant(e1, e2),
        spec_is_server_error(response_of(e1).0),
    ensures
        response_of(e1) == response_of(e2),
{
}

/// The status of every error response is 400, 401 or 500, and it depends
/// on the variant alone: bad requests and validation errors get 400,
/// unauthorized requests 401, and every other error 500. A server error is
/// exactly an error that does not come from the request; only validation
/// errors carry details; bad and unauthorized requests repeat their message.
pub proof fn lemma_status_codes(e: Error)
    ensures
        response_of(e).0 == 400 || response_of(e).0 == 401 || response_of(e).0 == 500,
        e is BadRequest ==> response_of(e).0 == 400,
        e is Validation ==> response_of(e).0 == 400,
        e is Unauthorized ==> response_of(e).0 == 401,
        !(e is BadRequest || e is Validation || e is Unauthorized) ==> response_of(e).0 == 500,
        spec_is_server_error(response_of(e).0) <==> !(e is BadRequest || e is Unauthorized
            || e is Validation),
        response_of(e).1.details is Some <==> e is Validation,
        e matches Error::BadRequest(m) ==> response_of(e).1.message == m@,
        e matches Error::Unauthorized(m) ==> response_of(e).1.message == m@,
{
}

/// Two errors of the same variant get the same status, whatever they carry.
pub proof fn lemma_status_by_variant(e1: Error, e2: Error)
    requires
        same_variant(e1, e2),
    ensures
        response_of(e1).0 == response_of(e2).0,
{
}

} // verus!
