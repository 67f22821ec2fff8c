use nasl_interpreter::api_error::{ApiError, ApiErrorKind, AuthorizationError, JsonValidationError};
use nasl_interpreter::scanner_parameter::ScannerParameter;
use std::collections::HashMap;

fn message() -> String {
    "m".to_string()
}

#[test]
fn status_of_every_error() {
    let errors = vec![
        (ApiError::BadJsonError { message: message() }, 400),
        (
            ApiError::ParseJsonError {
                message: message(),
                line: 1,
                column: 2,
            },
            400,
        ),
        (
            ApiError::ResourceNotFound {
                message: message(),
                id: "1".to_string(),
            },
            404,
        ),
        (
            ApiError::ResourceExists {
                message: message(),
                id: "1".to_string(),
            },
            400,
        ),
        (
            ApiError::ParseQueryError {
                message: message(),
                field_errors: HashMap::new(),
            },
            400,
        ),
        (
            ApiError::BadResourceState {
                message: message(),
                expected: vec!["running".to_string()],
                got: "stopped".to_string(),
            },
            406,
        ),
        (
            ApiError::ActionNotSupported {
                message: message(),
                available: vec!["start".to_string()],
                got: "fly".to_string(),
            },
            501,
        ),
        (ApiError::IOError { message: message() }, 422),
        (ApiError::Unexpected { message: message() }, 500),
        (ApiError::InvalidApiKey { message: message() }, 401),
        (ApiError::MissingApiKey { message: message() }, 401),
        (ApiError::InvalidCertificate { message: message() }, 401),
        (ApiError::MissingCertificate { message: message() }, 401),
        (ApiError::CertParseError { message: message() }, 401),
    ];
    for (error, status) in errors {
        assert_eq!(error.status(), status, "{:?}", error);
        assert_eq!(error.kind().status(), status);
        assert_eq!(error.to_string(), "m");
        assert_eq!(error.message(), "m");
    }
}

#[test]
fn errors_from_json_validation() {
    let io = ApiError::from(&JsonValidationError::Io("too large".to_string()));
    assert!(matches!(&io, ApiError::IOError { message } if message == "too large"));
    let parse = ApiError::from(&JsonValidationError::Parse(
        "expected value".to_string(),
        3,
        7,
    ));
    assert!(matches!(
        &parse,
        ApiError::ParseJsonError { message, line: 3, column: 7 } if message == "expected value"
    ));
    assert_eq!(parse.kind(), ApiErrorKind::ParseJsonError);
}

#[test]
fn errors_from_authorization() {
    let text = |error: AuthorizationError| {
        let error = ApiError::from(error);
        (error.kind(), error.to_string())
    };
    assert_eq!(
        text(AuthorizationError::KeyInvalid),
        (
            ApiErrorKind::InvalidApiKey,
            "The given API key is invalid".to_string()
        )
    );
    assert_eq!(
        text(AuthorizationError::KeyMissing),
        (
            ApiErrorKind::MissingApiKey,
            "No API key was given".to_string()
        )
    );
    assert_eq!(
        text(AuthorizationError::CertificateInvalid),
        (
            ApiErrorKind::InvalidCertificate,
            "The given Certificate has insufficient permission".to_string()
        )
    );
    assert_eq!(
        text(AuthorizationError::CertificateMissing),
        (
            ApiErrorKind::MissingCertificate,
            "The given Certificate has insufficient permission".to_string()
        )
    );
    assert_eq!(
        text(AuthorizationError::InvalidAuthMethod("magic".to_string())),
        (
            ApiErrorKind::Unexpected,
            "An invalid auth method was provided in the webserver config (magic)".to_string()
        )
    );
    assert_eq!(
        text(AuthorizationError::InternalSerialError("broken".to_string())),
        (ApiErrorKind::Unexpected, "broken".to_string())
    );
    assert_eq!(
        text(AuthorizationError::ParseError("no pem".to_string())),
        (ApiErrorKind::CertParseError, "no pem".to_string())
    );
}

#[test]
fn scanner_parameter_holds_id_and_value() {
    let parameter = ScannerParameter::new("port_range".to_string(), "1-1024".to_string());
    assert_eq!(parameter.id, "port_range");
    assert_eq!(parameter.value, "1-1024");
    assert_eq!(
        parameter.clone(),
        ScannerParameter {
            id: "port_range".to_string(),
            value: "1-1024".to_string()
        }
    );
}
