use error_reply::error::Error;
use error_reply::json::parse_body;
use error_reply::json::translate_to_wire;
use error_reply::response::status_line;
use error_reply::response::translate;
use error_reply::response::FailureSignal;
use error_reply::response::ResponseBody;

fn domain(kind: Error) -> FailureSignal {
    FailureSignal::DomainError(kind)
}

#[test]
fn status_codes_of_all_seven_kinds() {
    assert_eq!(translate(&domain(Error::WrongCredentialsError)).0, 403);
    assert_eq!(translate(&domain(Error::NoPermissionError)).0, 401);
    assert_eq!(translate(&domain(Error::JWTTokenError)).0, 401);
    assert_eq!(translate(&domain(Error::JWTTokenCreationError)).0, 500);
    assert_eq!(translate(&domain(Error::NotAuthHeaderError)).0, 400);
    assert_eq!(translate(&domain(Error::InvalidHeaderName)).0, 400);
    assert_eq!(translate(&domain(Error::InvalidAuthHeaderError)).0, 400);
}

#[test]
fn only_token_creation_maps_to_500() {
    let kinds = [
        Error::WrongCredentialsError,
        Error::NoPermissionError,
        Error::JWTTokenError,
        Error::NotAuthHeaderError,
        Error::InvalidHeaderName,
        Error::InvalidAuthHeaderError,
    ];
    for kind in kinds {
        assert_ne!(translate(&domain(kind)).0, 500);
    }
}

#[test]
fn token_creation_message_is_redacted() {
    let (code, body) = translate(&domain(Error::JWTTokenCreationError));
    assert_eq!(code, 500);
    assert_eq!(body.message, "Internal Server Error");
    assert_ne!(body.message, Error::JWTTokenCreationError.message());
}

#[test]
fn variant_messages() {
    assert_eq!(Error::WrongCredentialsError.message(), "Wrong credentials error");
    assert_eq!(Error::JWTTokenCreationError.message(), "JWT creation error");
    assert_eq!(Error::JWTTokenError.message(), "JWT Token error");
    assert_eq!(Error::NotAuthHeaderError.message(), "Not authorized error");
    assert_eq!(Error::NoPermissionError.message(), "No permission error");
    assert_eq!(Error::InvalidHeaderName.message(), "Invalid header name error");
    assert_eq!(Error::InvalidAuthHeaderError.message(), "Invalid Auth Header error");
}

#[test]
fn domain_messages_pass_through_except_redaction() {
    for kind in [
        Error::WrongCredentialsError,
        Error::NoPermissionError,
        Error::JWTTokenError,
        Error::NotAuthHeaderError,
        Error::InvalidHeaderName,
        Error::InvalidAuthHeaderError,
    ] {
        assert_eq!(translate(&domain(kind)).1.message, kind.message());
    }
}

#[test]
fn not_found_scenario() {
    let (code, body) = translate(&FailureSignal::NotFound);
    assert_eq!(code, 404);
    assert_eq!(body.message, "Not found");
    assert_eq!(body.status, "404 Not Found");
    assert_eq!(
        body.to_json(),
        "{\"message\":\"Not found\",\"status\":\"404 Not Found\"}"
    );
}

#[test]
fn method_not_allowed_scenario() {
    let (code, body) = translate(&FailureSignal::MethodNotAllowed);
    assert_eq!(code, 405);
    assert_eq!(body.message, "Method not allowed");
    assert_eq!(body.status, "405 Method Not Allowed");
}

#[test]
fn wrong_credentials_scenario() {
    let (code, body) = translate(&domain(Error::WrongCredentialsError));
    assert_eq!(code, 403);
    assert_eq!(
        body.to_json(),
        "{\"message\":\"Wrong credentials error\",\"status\":\"403 Forbidden\"}"
    );
}

#[test]
fn token_creation_scenario() {
    let (code, body) = translate(&domain(Error::JWTTokenCreationError));
    assert_eq!(code, 500);
    assert_eq!(
        body.to_json(),
        "{\"message\":\"Internal Server Error\",\"status\":\"500 Internal Server Error\"}"
    );
}

#[test]
fn unclassified_yields_fixed_response_and_hides_detail() {
    let detail = "database password rejected at host db-7".to_string();
    let (code, body) = translate(&FailureSignal::Unclassified(detail.clone()));
    assert_eq!(code, 500);
    assert_eq!(body.message, "Internal Server Error");
    assert_eq!(body.status, "500 Internal Server Error");
    let json = body.to_json();
    assert!(!json.contains("database"));
    assert!(!json.contains(&detail));

    let (other_code, other_body) = translate(&FailureSignal::Unclassified(String::new()));
    assert_eq!(code, other_code);
    assert_eq!(body.message, other_body.message);
    assert_eq!(body.status, other_body.status);
}

#[test]
fn status_lines() {
    assert_eq!(status_line(400), "400 Bad Request");
    assert_eq!(status_line(401), "401 Unauthorized");
    assert_eq!(status_line(403), "403 Forbidden");
    assert_eq!(status_line(404), "404 Not Found");
    assert_eq!(status_line(405), "405 Method Not Allowed");
    assert_eq!(status_line(500), "500 Internal Server Error");
    assert_eq!(status_line(418), "500 Internal Server Error");
}

#[test]
fn translate_to_wire_matches_translate() {
    let signal = FailureSignal::NotFound;
    let (code, message, json) = translate_to_wire(&signal);
    let (code2, body) = translate(&signal);
    assert_eq!(code, code2);
    assert_eq!(message, body.message);
    assert_eq!(json, body.to_json());
}

#[test]
fn body_round_trips_for_every_signal() {
    let signals = [
        FailureSignal::NotFound,
        FailureSignal::MethodNotAllowed,
        domain(Error::WrongCredentialsError),
        domain(Error::JWTTokenCreationError),
        domain(Error::JWTTokenError),
        domain(Error::NotAuthHeaderError),
        domain(Error::NoPermissionError),
        domain(Error::InvalidHeaderName),
        domain(Error::InvalidAuthHeaderError),
        FailureSignal::Unclassified("boom".to_string()),
    ];
    for signal in signals {
        let (_, body) = translate(&signal);
        let decoded = parse_body(&body.to_json()).expect("serialized body must decode");
        assert_eq!(decoded.message, body.message);
        assert_eq!(decoded.status, body.status);
    }
}

#[test]
fn body_round_trips_with_escaped_characters() {
    let body = ResponseBody {
        message: "a \"quoted\" \\ back\\slash".to_string(),
        status: "weird \"status\"".to_string(),
    };
    let decoded = parse_body(&body.to_json()).expect("escaped body must decode");
    assert_eq!(decoded.message, body.message);
    assert_eq!(decoded.status, body.status);
}

#[test]
fn encoding_is_real_json_with_exactly_two_fields() {
    let (_, body) = translate(&FailureSignal::NotFound);
    let value: serde_json::Value = serde_json::from_str(&body.to_json()).unwrap();
    let object = value.as_object().unwrap();
    assert_eq!(object.len(), 2);
    assert_eq!(object.get("message").unwrap().as_str().unwrap(), "Not found");
    assert_eq!(object.get("status").unwrap().as_str().unwrap(), "404 Not Found");
}

#[test]
fn escaping_agrees_with_json() {
    let body = ResponseBody {
        message: "say \"hi\" \\ twice".to_string(),
        status: "200 OK".to_string(),
    };
    let value: serde_json::Value = serde_json::from_str(&body.to_json()).unwrap();
    assert_eq!(
        value.as_object().unwrap().get("message").unwrap().as_str().unwrap(),
        "say \"hi\" \\ twice"
    );
}

#[test]
fn parse_rejects_malformed_bodies() {
    assert!(parse_body("").is_none());
    assert!(parse_body("{}").is_none());
    assert!(parse_body("{\"message\":\"a\"}").is_none());
    assert!(parse_body("{\"status\":\"b\",\"message\":\"a\"}").is_none());
    assert!(parse_body("{\"message\":\"a\",\"status\":\"b\"} ").is_none());
    assert!(parse_body("{\"message\":\"a\",\"status\":\"b\",\"x\":\"c\"}").is_none());
    assert!(parse_body("{\"message\":\"a\",\"status\":\"b\"").is_none());
    assert!(parse_body("{\"message\":\"a\\n\",\"status\":\"b\"}").is_none());
    assert!(parse_body("{\"message\":\"a\",\"status\":\"b}").is_none());
}

#[test]
fn parse_accepts_exact_shape() {
    let decoded = parse_body("{\"message\":\"a\",\"status\":\"b\"}").unwrap();
    assert_eq!(decoded.message, "a");
    assert_eq!(decoded.status, "b");
    let escaped = parse_body("{\"message\":\"\\\"\\\\\",\"status\":\"\"}").unwrap();
    assert_eq!(escaped.message, "\"\\");
    assert_eq!(escaped.status, "");
}
