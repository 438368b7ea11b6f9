//! Translation of failure signals into HTTP responses.

use vstd::prelude::*;

use crate::error::Error;

verus! {

/// The uniform carrier by which the request pipeline communicates a failure
/// to the translator.
#[derive(Clone, Debug)]
pub enum FailureSignal {
    /// No route matched the request.
    NotFound,
    /// A route matched, but not with the request's method.
    MethodNotAllowed,
    /// The domain logic signalled one of the closed set of failure kinds.
    DomainError(Error),
    /// Any failure the pipeline could not classify. The carried string is a
    /// diagnostic rendering for the operator's log; it never reaches the
    /// client.
    Unclassified(String),
}

/// The structured body returned to the client for every failure.
#[derive(Clone, Debug)]
pub struct ResponseBody {
    /// Human-readable description of the failure.
    pub message: String,
    /// Human-readable rendering of the HTTP status, e.g. `404 Not Found`.
    pub status: String,
}

/// The numeric HTTP status code chosen for a signal.
pub open spec fn spec_status_code(signal: FailureSignal) -> int {
    match signal {
        FailureSignal::NotFound => 404,
        FailureSignal::MethodNotAllowed => 405,
        FailureSignal::DomainError(kind) => match kind {
            Error::WrongCredentialsError => 403,
            Error::NoPermissionError => 401,
            Error::JWTTokenError => 401,
            Error::JWTTokenCreationError => 500,
            Error::NotAuthHeaderError => 400,
            Error::InvalidHeaderName => 400,
            Error::InvalidAuthHeaderError => 400,
        },
        FailureSignal::Unclassified(_) => 500,
    }
}

/// The message chosen for a signal. Token-creation failures are redacted to a
/// fixed generic message so that no implementation detail leaks; the content
/// of an unclassified signal is likewise never exposed.
pub open spec fn spec_message_of(signal: FailureSignal) -> Seq<char> {
    match signal {
        FailureSignal::NotFound => "Not found"@,
        FailureSignal::MethodNotAllowed => "Method not allowed"@,
        FailureSignal::DomainError(kind) => {
            if kind == Error::JWTTokenCreationError {
                "Internal Server Error"@
            } else {
                kind.spec_message()
            }
        },
        FailureSignal::Unclassified(_) => "Internal Server Error"@,
    }
}

/// The status line for a code, in the form `<code> <reason>`. A code outside
/// the closed set used by the translator is treated as an internal fault.
pub open spec fn spec_status_line(code: int) -> Seq<char> {
    if code == 400 {
        "400 Bad Request"@
    } else if code == 401 {
        "401 Unauthorized"@
    } else if code == 403 {
        "403 Forbidden"@
    } else if code == 404 {
        "404 Not Found"@
    } else if code == 405 {
        "405 Method Not Allowed"@
    } else {
        "500 Internal Server Error"@
    }
}

/// Renders a status code as its status line. Total: an unknown code falls
/// back to the internal-error line rather than failing.
pub fn status_line(code: u16) -> (s: String)
    ensures
        s@ == spec_status_line(code as int),
{
    if code == 400 {
        "400 Bad Request".to_owned()
    } else if code == 401 {
        "401 Unauthorized".to_owned()
    } else if code == 403 {
        "403 Forbidden".to_owned()
    } else if code == 404 {
        "404 Not Found".to_owned()
    } else if code == 405 {
        "405 Method Not Allowed".to_owned()
    } else {
        "500 Internal Server Error".to_owned()
    }
}

/// Maps any failure signal to its client-facing response: the HTTP status
/// code and the structured body. Total — every signal yields a response, and
/// the function itself never fails.
pub fn translate(signal: &FailureSignal) -> (r: (u16, ResponseBody))
    ensures
        r.0 as int == spec_status_code(*signal),
        r.1.message@ == spec_message_of(*signal),
        r.1.status@ == spec_status_line(spec_status_code(*signal)),
{
    let (code, message): (u16, String) = match signal {
        FailureSignal::NotFound => (404, "Not found".to_owned()),
        FailureSignal::DomainError(kind) => match kind {
            Error::WrongCredentialsError => (403, kind.message()),
            Error::NoPermissionError => (401, kind.message()),
            Error::JWTTokenError => (401, kind.message()),
            Error::JWTTokenCreationError => (500, "Internal Server Error".to_owned()),
            Error::NotAuthHeaderError => (400, kind.message()),
            Error::InvalidHeaderName => (400, kind.message()),
            Error::InvalidAuthHeaderError => (400, kind.message()),
        },
        FailureSignal::MethodNotAllowed => (405, "Method not allowed".to_owned()),
        FailureSignal::Unclassified(_) => (500, "Internal Server Error".to_owned()),
    };
    let status = status_line(code);
    (code, ResponseBody { message, status })
}

/// Law: within the domain taxonomy, only a token-creation failure is reported
/// as an internal server error; every other kind maps to its own 4xx code.
pub proof fn lemma_only_token_creation_maps_to_500(kind: Error)
    ensures
        spec_status_code(FailureSignal::DomainError(kind)) == 500 <==> kind
            == Error::JWTTokenCreationError,
{
}

/// Law: the message returned for a token-creation failure is the fixed
/// generic string, never the variant's own display string.
pub proof fn lemma_token_creation_redacted()
    ensures
        spec_message_of(FailureSignal::DomainError(Error::JWTTokenCreationError))
            == "Internal Server Error"@,
        spec_message_of(FailureSignal::DomainError(Error::JWTTokenCreationError))
            != Error::JWTTokenCreationError.spec_message(),
{
    reveal_strlit("Internal Server Error");
    reveal_strlit("JWT creation error");
    assert("Internal Server Error"@.len() != "JWT creation error"@.len());
}

/// Law: an unclassified signal always yields the fixed internal-error
/// response, whatever its content — the response carries nothing of the
/// underlying signal.
pub proof fn lemma_unclassified_hides_detail(detail_a: String, detail_b: String)
    ensures
        spec_status_code(FailureSignal::Unclassified(detail_a)) == 500,
        spec_message_of(FailureSignal::Unclassified(detail_a)) == "Internal Server Error"@,
        spec_status_code(FailureSignal::Unclassified(detail_a)) == spec_status_code(
            FailureSignal::Unclassified(detail_b),
        ),
        spec_message_of(FailureSignal::Unclassified(detail_a)) == spec_message_of(
            FailureSignal::Unclassified(detail_b),
        ),
{
}

} // verus!
